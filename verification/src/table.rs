//! Limits and powers that are exact in a float: how many digits and which
//! exponents of a radix a float holds without rounding, and the floats of
//! the powers themselves.

use vstd::arithmetic::power::pow;
use vstd::prelude::*;

use crate::atof::{float_den, float_num, round_power};
use crate::bignum::Bigint;
use crate::convert::rounded;
use crate::digit::is_radix;
use crate::float::{BFloat16, Float128, Float16, Float32, Float64, FloatLayout};
use crate::rounding::RoundingKind;

verus! {

/// What is left of `n` when every factor two is taken out.
pub open spec fn odd_part(n: nat) -> nat
    decreases n,
{
    if n == 0 || n % 2 == 1 {
        n
    } else {
        odd_part(n / 2)
    }
}

/// The exponent of a radix that is a power of two, and zero for every other
/// radix.
pub open spec fn radix_shift(radix: u32) -> nat {
    if radix == 2 {
        1
    } else if radix == 4 {
        2
    } else if radix == 8 {
        3
    } else if radix == 16 {
        4
    } else if radix == 32 {
        5
    } else {
        0
    }
}

/// Whether `limit` is the number of digits of `radix` that always fit a
/// mantissa of `precision` bits: the largest power of the radix that is not
/// above two to the number of mantissa bits.
pub open spec fn is_mantissa_limit(precision: nat, radix: u32, limit: int) -> bool {
    &&& limit >= 0
    &&& pow(radix as int, limit as nat) <= pow(2, precision)
    &&& pow(2, precision) < pow(radix as int, (limit + 1) as nat)
}

/// Whether `lo` and `hi` are the least and the largest exponent for which a
/// power of `radix` is, without rounding, a float with a mantissa of
/// `precision` bits whose powers of two have the exponents from `least` to
/// `greatest`.
///
/// For a power of two every exponent in the range of the format will do:
/// the limits are the binary limits divided by the exponent of the radix.
/// For another radix the odd part of the power has to fit the mantissa, in
/// the numerator or in the denominator.
pub open spec fn is_exponent_limit(
    precision: nat,
    least: int,
    greatest: int,
    radix: u32,
    lo: int,
    hi: int,
) -> bool {
    if radix_shift(radix) > 0 {
        &&& lo == -((-least) / (radix_shift(radix) as int))
        &&& hi == greatest / (radix_shift(radix) as int)
    } else {
        &&& hi >= 0
        &&& lo == -hi
        &&& pow(odd_part(radix as nat) as int, hi as nat) <= pow(2, precision)
        &&& pow(2, precision) < pow(odd_part(radix as nat) as int, (hi + 1) as nat)
    }
}

/// The exponents and digit counts of a radix that a float type holds exactly.
pub trait ExactExponent {
    /// The number of bits of the mantissa of the type, the hidden bit among
    /// them.
    spec fn spec_precision() -> nat;

    /// The exponent of the least power of two of the type.
    spec fn spec_least_exponent() -> int;

    /// The exponent of the greatest power of two of the type.
    spec fn spec_greatest_exponent() -> int;

    /// The table of the exponent limits.
    spec fn spec_exponent_limit(radix: u32) -> (int, int);

    /// Get min and max exponent limits (exact) from radix.
    fn exponent_limit(radix: u32) -> (r: (i32, i32))
        requires
            is_radix(radix),
        ensures
            (r.0 as int, r.1 as int) == Self::spec_exponent_limit(radix),
            is_exponent_limit(
                Self::spec_precision(),
                Self::spec_least_exponent(),
                Self::spec_greatest_exponent(),
                radix,
                r.0 as int,
                r.1 as int,
            ),
    ;

    /// Get the number of digits that can be shifted from exponent to mantissa.
    fn mantissa_limit(radix: u32) -> (r: i32)
        requires
            is_radix(radix),
        ensures
            is_mantissa_limit(Self::spec_precision(), radix, r as int),
    ;
}

/// The bits of the float of `layout` that is nearest to `radix` to the
/// `exponent`, which may be negative.
pub open spec fn spec_power_bits(layout: FloatLayout, radix: u32, exponent: int) -> nat {
    rounded(
        layout,
        RoundingKind::NearestTieEven,
        false,
        float_num(1, radix, exponent),
        float_den(radix, exponent),
    )
}

/// Make the float of `layout` that is nearest to `radix` to the `exponent`.
pub fn power_bits(layout: FloatLayout, radix: u32, exponent: i32) -> (bits: u64)
    requires
        is_radix(radix),
    ensures
        bits == spec_power_bits(layout, radix, exponent as int),
        bits <= layout.spec_infinity_bits(),
{
    proof {
        vstd::arithmetic::power::lemma_pow1(radix as int);
    }
    round_power(
        Bigint::from_u64(1),
        1,
        radix,
        exponent as i128,
        layout,
        RoundingKind::NearestTieEven,
        false,
    )
}

/// The powers of a radix as floats.
pub trait TablePower: ExactExponent + Sized {
    /// The layout of the float type.
    spec fn layout() -> FloatLayout;

    /// The float with the bits `bits` of its layout.
    spec fn with_bits(bits: nat) -> Self;

    /// Get power of 2 from exponent: the float that is two to the
    /// `exponent`, which is in the range of the finite floats.
    fn table_pow2(exponent: i32) -> (r: Self)
        requires
            Self::layout().spec_denormal_exponent() <= exponent
                < Self::layout().spec_overflow_exponent(),
        ensures
            r == Self::with_bits(spec_power_bits(Self::layout(), 2, exponent as int)),
    ;

    /// Get power of the radix from exponent: the float that is `radix` to
    /// the `exponent`. The radix is no power of two and the exponent is
    /// within the exact limit of the radix.
    fn table_pow(radix: u32, exponent: i32) -> (r: Self)
        requires
            is_radix(radix),
            radix_shift(radix) == 0,
            0 <= exponent <= Self::spec_exponent_limit(radix).1,
        ensures
            r == Self::with_bits(spec_power_bits(Self::layout(), radix, exponent as int)),
    ;
}

/// The table of the exponent limits of the half format.
pub open spec fn spec_half_exponent_limit(radix: u32) -> (int, int) {
    match radix {
        2 => (-24, 15),
        3 => (-6, 6),
        4 => (-12, 7),
        5 => (-4, 4),
        6 => (-6, 6),
        7 => (-3, 3),
        8 => (-8, 5),
        9 => (-3, 3),
        10 => (-4, 4),
        11 => (-3, 3),
        12 => (-6, 6),
        13 => (-2, 2),
        14 => (-3, 3),
        15 => (-2, 2),
        16 => (-6, 3),
        17 => (-2, 2),
        18 => (-3, 3),
        19 => (-2, 2),
        20 => (-4, 4),
        21 => (-2, 2),
        22 => (-3, 3),
        23 => (-2, 2),
        24 => (-6, 6),
        25 => (-2, 2),
        26 => (-2, 2),
        27 => (-2, 2),
        28 => (-3, 3),
        29 => (-2, 2),
        30 => (-2, 2),
        31 => (-2, 2),
        32 => (-4, 3),
        33 => (-2, 2),
        34 => (-2, 2),
        35 => (-2, 2),
        _ => (-3, 3),
    }
}

/// The entries of the table of exponent limits of the half format are the limits.
pub proof fn lemma_half_exponent_limits()
    ensures
        is_exponent_limit(11, -24, 15, 2, -24, 15),
        is_exponent_limit(11, -24, 15, 3, -6, 6),
        is_exponent_limit(11, -24, 15, 4, -12, 7),
        is_exponent_limit(11, -24, 15, 5, -4, 4),
        is_exponent_limit(11, -24, 15, 6, -6, 6),
        is_exponent_limit(11, -24, 15, 7, -3, 3),
        is_exponent_limit(11, -24, 15, 8, -8, 5),
        is_exponent_limit(11, -24, 15, 9, -3, 3),
        is_exponent_limit(11, -24, 15, 10, -4, 4),
        is_exponent_limit(11, -24, 15, 11, -3, 3),
        is_exponent_limit(11, -24, 15, 12, -6, 6),
        is_exponent_limit(11, -24, 15, 13, -2, 2),
        is_exponent_limit(11, -24, 15, 14, -3, 3),
        is_exponent_limit(11, -24, 15, 15, -2, 2),
        is_exponent_limit(11, -24, 15, 16, -6, 3),
        is_exponent_limit(11, -24, 15, 17, -2, 2),
        is_exponent_limit(11, -24, 15, 18, -3, 3),
        is_exponent_limit(11, -24, 15, 19, -2, 2),
        is_exponent_limit(11, -24, 15, 20, -4, 4),
        is_exponent_limit(11, -24, 15, 21, -2, 2),
        is_exponent_limit(11, -24, 15, 22, -3, 3),
        is_exponent_limit(11, -24, 15, 23, -2, 2),
        is_exponent_limit(11, -24, 15, 24, -6, 6),
        is_exponent_limit(11, -24, 15, 25, -2, 2),
        is_exponent_limit(11, -24, 15, 26, -2, 2),
        is_exponent_limit(11, -24, 15, 27, -2, 2),
        is_exponent_limit(11, -24, 15, 28, -3, 3),
        is_exponent_limit(11, -24, 15, 29, -2, 2),
        is_exponent_limit(11, -24, 15, 30, -2, 2),
        is_exponent_limit(11, -24, 15, 31, -2, 2),
        is_exponent_limit(11, -24, 15, 32, -4, 3),
        is_exponent_limit(11, -24, 15, 33, -2, 2),
        is_exponent_limit(11, -24, 15, 34, -2, 2),
        is_exponent_limit(11, -24, 15, 35, -2, 2),
        is_exponent_limit(11, -24, 15, 36, -3, 3),
{
    reveal_with_fuel(pow, 13);
    reveal_with_fuel(odd_part, 6);
    assert(pow(2, 11) == 0x800);
    assert(odd_part(3) == 3);
    assert(odd_part(5) == 5);
    assert(odd_part(6) == 3);
    assert(odd_part(7) == 7);
    assert(odd_part(9) == 9);
    assert(odd_part(10) == 5);
    assert(odd_part(11) == 11);
    assert(odd_part(12) == 3);
    assert(odd_part(13) == 13);
    assert(odd_part(14) == 7);
    assert(odd_part(15) == 15);
    assert(odd_part(17) == 17);
    assert(odd_part(18) == 9);
    assert(odd_part(19) == 19);
    assert(odd_part(20) == 5);
    assert(odd_part(21) == 21);
    assert(odd_part(22) == 11);
    assert(odd_part(23) == 23);
    assert(odd_part(24) == 3);
    assert(odd_part(25) == 25);
    assert(odd_part(26) == 13);
    assert(odd_part(27) == 27);
    assert(odd_part(28) == 7);
    assert(odd_part(29) == 29);
    assert(odd_part(30) == 15);
    assert(odd_part(31) == 31);
    assert(odd_part(33) == 33);
    assert(odd_part(34) == 17);
    assert(odd_part(35) == 35);
    assert(odd_part(36) == 9);
}

/// The entries of the table of mantissa limits of the half format are the limits.
pub proof fn lemma_half_mantissa_limits()
    ensures
        is_mantissa_limit(11, 2, 11),
        is_mantissa_limit(11, 3, 6),
        is_mantissa_limit(11, 4, 5),
        is_mantissa_limit(11, 5, 4),
        is_mantissa_limit(11, 6, 4),
        is_mantissa_limit(11, 7, 3),
        is_mantissa_limit(11, 8, 3),
        is_mantissa_limit(11, 9, 3),
        is_mantissa_limit(11, 10, 3),
        is_mantissa_limit(11, 11, 3),
        is_mantissa_limit(11, 12, 3),
        is_mantissa_limit(11, 13, 2),
        is_mantissa_limit(11, 14, 2),
        is_mantissa_limit(11, 15, 2),
        is_mantissa_limit(11, 16, 2),
        is_mantissa_limit(11, 17, 2),
        is_mantissa_limit(11, 18, 2),
        is_mantissa_limit(11, 19, 2),
        is_mantissa_limit(11, 20, 2),
        is_mantissa_limit(11, 21, 2),
        is_mantissa_limit(11, 22, 2),
        is_mantissa_limit(11, 23, 2),
        is_mantissa_limit(11, 24, 2),
        is_mantissa_limit(11, 25, 2),
        is_mantissa_limit(11, 26, 2),
        is_mantissa_limit(11, 27, 2),
        is_mantissa_limit(11, 28, 2),
        is_mantissa_limit(11, 29, 2),
        is_mantissa_limit(11, 30, 2),
        is_mantissa_limit(11, 31, 2),
        is_mantissa_limit(11, 32, 2),
        is_mantissa_limit(11, 33, 2),
        is_mantissa_limit(11, 34, 2),
        is_mantissa_limit(11, 35, 2),
        is_mantissa_limit(11, 36, 2),
{
    reveal_with_fuel(pow, 13);
    assert(pow(2, 11) == 0x800);
}

impl ExactExponent for Float16 {
    open spec fn spec_precision() -> nat {
        11
    }

    open spec fn spec_least_exponent() -> int {
        -24
    }

    open spec fn spec_greatest_exponent() -> int {
        15
    }

    open spec fn spec_exponent_limit(radix: u32) -> (int, int) {
        spec_half_exponent_limit(radix)
    }

    fn exponent_limit(radix: u32) -> (r: (i32, i32)) {
        proof {
            lemma_half_exponent_limits();
        }
        match radix {
            2 => (-24, 15),
            3 => (-6, 6),
            4 => (-12, 7),
            5 => (-4, 4),
            6 => (-6, 6),
            7 => (-3, 3),
            8 => (-8, 5),
            9 => (-3, 3),
            10 => (-4, 4),
            11 => (-3, 3),
            12 => (-6, 6),
            13 => (-2, 2),
            14 => (-3, 3),
            15 => (-2, 2),
            16 => (-6, 3),
            17 => (-2, 2),
            18 => (-3, 3),
            19 => (-2, 2),
            20 => (-4, 4),
            21 => (-2, 2),
            22 => (-3, 3),
            23 => (-2, 2),
            24 => (-6, 6),
            25 => (-2, 2),
            26 => (-2, 2),
            27 => (-2, 2),
            28 => (-3, 3),
            29 => (-2, 2),
            30 => (-2, 2),
            31 => (-2, 2),
            32 => (-4, 3),
            33 => (-2, 2),
            34 => (-2, 2),
            35 => (-2, 2),
            _ => (-3, 3),
        }
    }

    fn mantissa_limit(radix: u32) -> (r: i32) {
        proof {
            lemma_half_mantissa_limits();
        }
        match radix {
            2 => 11,
            3 => 6,
            4 => 5,
            5 => 4,
            6 => 4,
            7 => 3,
            8 => 3,
            9 => 3,
            10 => 3,
            11 => 3,
            12 => 3,
            13 => 2,
            14 => 2,
            15 => 2,
            16 => 2,
            17 => 2,
            18 => 2,
            19 => 2,
            20 => 2,
            21 => 2,
            22 => 2,
            23 => 2,
            24 => 2,
            25 => 2,
            26 => 2,
            27 => 2,
            28 => 2,
            29 => 2,
            30 => 2,
            31 => 2,
            32 => 2,
            33 => 2,
            34 => 2,
            35 => 2,
            _ => 2,
        }
    }
}

/// The table of the exponent limits of the brain format.
pub open spec fn spec_brain_exponent_limit(radix: u32) -> (int, int) {
    match radix {
        2 => (-133, 127),
        3 => (-5, 5),
        4 => (-66, 63),
        5 => (-3, 3),
        6 => (-5, 5),
        7 => (-2, 2),
        8 => (-44, 42),
        9 => (-2, 2),
        10 => (-3, 3),
        11 => (-2, 2),
        12 => (-5, 5),
        13 => (-2, 2),
        14 => (-2, 2),
        15 => (-2, 2),
        16 => (-33, 31),
        17 => (-1, 1),
        18 => (-2, 2),
        19 => (-1, 1),
        20 => (-3, 3),
        21 => (-1, 1),
        22 => (-2, 2),
        23 => (-1, 1),
        24 => (-5, 5),
        25 => (-1, 1),
        26 => (-2, 2),
        27 => (-1, 1),
        28 => (-2, 2),
        29 => (-1, 1),
        30 => (-2, 2),
        31 => (-1, 1),
        32 => (-26, 25),
        33 => (-1, 1),
        34 => (-1, 1),
        35 => (-1, 1),
        _ => (-2, 2),
    }
}

/// The entries of the table of exponent limits of the brain format are the limits.
pub proof fn lemma_brain_exponent_limits()
    ensures
        is_exponent_limit(8, -133, 127, 2, -133, 127),
        is_exponent_limit(8, -133, 127, 3, -5, 5),
        is_exponent_limit(8, -133, 127, 4, -66, 63),
        is_exponent_limit(8, -133, 127, 5, -3, 3),
        is_exponent_limit(8, -133, 127, 6, -5, 5),
        is_exponent_limit(8, -133, 127, 7, -2, 2),
        is_exponent_limit(8, -133, 127, 8, -44, 42),
        is_exponent_limit(8, -133, 127, 9, -2, 2),
        is_exponent_limit(8, -133, 127, 10, -3, 3),
        is_exponent_limit(8, -133, 127, 11, -2, 2),
        is_exponent_limit(8, -133, 127, 12, -5, 5),
        is_exponent_limit(8, -133, 127, 13, -2, 2),
        is_exponent_limit(8, -133, 127, 14, -2, 2),
        is_exponent_limit(8, -133, 127, 15, -2, 2),
        is_exponent_limit(8, -133, 127, 16, -33, 31),
        is_exponent_limit(8, -133, 127, 17, -1, 1),
        is_exponent_limit(8, -133, 127, 18, -2, 2),
        is_exponent_limit(8, -133, 127, 19, -1, 1),
        is_exponent_limit(8, -133, 127, 20, -3, 3),
        is_exponent_limit(8, -133, 127, 21, -1, 1),
        is_exponent_limit(8, -133, 127, 22, -2, 2),
        is_exponent_limit(8, -133, 127, 23, -1, 1),
        is_exponent_limit(8, -133, 127, 24, -5, 5),
        is_exponent_limit(8, -133, 127, 25, -1, 1),
        is_exponent_limit(8, -133, 127, 26, -2, 2),
        is_exponent_limit(8, -133, 127, 27, -1, 1),
        is_exponent_limit(8, -133, 127, 28, -2, 2),
        is_exponent_limit(8, -133, 127, 29, -1, 1),
        is_exponent_limit(8, -133, 127, 30, -2, 2),
        is_exponent_limit(8, -133, 127, 31, -1, 1),
        is_exponent_limit(8, -133, 127, 32, -26, 25),
        is_exponent_limit(8, -133, 127, 33, -1, 1),
        is_exponent_limit(8, -133, 127, 34, -1, 1),
        is_exponent_limit(8, -133, 127, 35, -1, 1),
        is_exponent_limit(8, -133, 127, 36, -2, 2),
{
    reveal_with_fuel(pow, 10);
    reveal_with_fuel(odd_part, 6);
    assert(pow(2, 8) == 0x100);
    assert(odd_part(3) == 3);
    assert(odd_part(5) == 5);
    assert(odd_part(6) == 3);
    assert(odd_part(7) == 7);
    assert(odd_part(9) == 9);
    assert(odd_part(10) == 5);
    assert(odd_part(11) == 11);
    assert(odd_part(12) == 3);
    assert(odd_part(13) == 13);
    assert(odd_part(14) == 7);
    assert(odd_part(15) == 15);
    assert(odd_part(17) == 17);
    assert(odd_part(18) == 9);
    assert(odd_part(19) == 19);
    assert(odd_part(20) == 5);
    assert(odd_part(21) == 21);
    assert(odd_part(22) == 11);
    assert(odd_part(23) == 23);
    assert(odd_part(24) == 3);
    assert(odd_part(25) == 25);
    assert(odd_part(26) == 13);
    assert(odd_part(27) == 27);
    assert(odd_part(28) == 7);
    assert(odd_part(29) == 29);
    assert(odd_part(30) == 15);
    assert(odd_part(31) == 31);
    assert(odd_part(33) == 33);
    assert(odd_part(34) == 17);
    assert(odd_part(35) == 35);
    assert(odd_part(36) == 9);
}

/// The entries of the table of mantissa limits of the brain format are the limits.
pub proof fn lemma_brain_mantissa_limits()
    ensures
        is_mantissa_limit(8, 2, 8),
        is_mantissa_limit(8, 3, 5),
        is_mantissa_limit(8, 4, 4),
        is_mantissa_limit(8, 5, 3),
        is_mantissa_limit(8, 6, 3),
        is_mantissa_limit(8, 7, 2),
        is_mantissa_limit(8, 8, 2),
        is_mantissa_limit(8, 9, 2),
        is_mantissa_limit(8, 10, 2),
        is_mantissa_limit(8, 11, 2),
        is_mantissa_limit(8, 12, 2),
        is_mantissa_limit(8, 13, 2),
        is_mantissa_limit(8, 14, 2),
        is_mantissa_limit(8, 15, 2),
        is_mantissa_limit(8, 16, 2),
        is_mantissa_limit(8, 17, 1),
        is_mantissa_limit(8, 18, 1),
        is_mantissa_limit(8, 19, 1),
        is_mantissa_limit(8, 20, 1),
        is_mantissa_limit(8, 21, 1),
        is_mantissa_limit(8, 22, 1),
        is_mantissa_limit(8, 23, 1),
        is_mantissa_limit(8, 24, 1),
        is_mantissa_limit(8, 25, 1),
        is_mantissa_limit(8, 26, 1),
        is_mantissa_limit(8, 27, 1),
        is_mantissa_limit(8, 28, 1),
        is_mantissa_limit(8, 29, 1),
        is_mantissa_limit(8, 30, 1),
        is_mantissa_limit(8, 31, 1),
        is_mantissa_limit(8, 32, 1),
        is_mantissa_limit(8, 33, 1),
        is_mantissa_limit(8, 34, 1),
        is_mantissa_limit(8, 35, 1),
        is_mantissa_limit(8, 36, 1),
{
    reveal_with_fuel(pow, 10);
    assert(pow(2, 8) == 0x100);
}

impl ExactExponent for BFloat16 {
    open spec fn spec_precision() -> nat {
        8
    }

    open spec fn spec_least_exponent() -> int {
        -133
    }

    open spec fn spec_greatest_exponent() -> int {
        127
    }

    open spec fn spec_exponent_limit(radix: u32) -> (int, int) {
        spec_brain_exponent_limit(radix)
    }

    fn exponent_limit(radix: u32) -> (r: (i32, i32)) {
        proof {
            lemma_brain_exponent_limits();
        }
        match radix {
            2 => (-133, 127),
            3 => (-5, 5),
            4 => (-66, 63),
            5 => (-3, 3),
            6 => (-5, 5),
            7 => (-2, 2),
            8 => (-44, 42),
            9 => (-2, 2),
            10 => (-3, 3),
            11 => (-2, 2),
            12 => (-5, 5),
            13 => (-2, 2),
            14 => (-2, 2),
            15 => (-2, 2),
            16 => (-33, 31),
            17 => (-1, 1),
            18 => (-2, 2),
            19 => (-1, 1),
            20 => (-3, 3),
            21 => (-1, 1),
            22 => (-2, 2),
            23 => (-1, 1),
            24 => (-5, 5),
            25 => (-1, 1),
            26 => (-2, 2),
            27 => (-1, 1),
            28 => (-2, 2),
            29 => (-1, 1),
            30 => (-2, 2),
            31 => (-1, 1),
            32 => (-26, 25),
            33 => (-1, 1),
            34 => (-1, 1),
            35 => (-1, 1),
            _ => (-2, 2),
        }
    }

    fn mantissa_limit(radix: u32) -> (r: i32) {
        proof {
            lemma_brain_mantissa_limits();
        }
        match radix {
            2 => 8,
            3 => 5,
            4 => 4,
            5 => 3,
            6 => 3,
            7 => 2,
            8 => 2,
            9 => 2,
            10 => 2,
            11 => 2,
            12 => 2,
            13 => 2,
            14 => 2,
            15 => 2,
            16 => 2,
            17 => 1,
            18 => 1,
            19 => 1,
            20 => 1,
            21 => 1,
            22 => 1,
            23 => 1,
            24 => 1,
            25 => 1,
            26 => 1,
            27 => 1,
            28 => 1,
            29 => 1,
            30 => 1,
            31 => 1,
            32 => 1,
            33 => 1,
            34 => 1,
            35 => 1,
            _ => 1,
        }
    }
}

/// The table of the exponent limits of the single format.
pub open spec fn spec_single_exponent_limit(radix: u32) -> (int, int) {
    match radix {
        2 => (-149, 127),
        3 => (-15, 15),
        4 => (-74, 63),
        5 => (-10, 10),
        6 => (-15, 15),
        7 => (-8, 8),
        8 => (-49, 42),
        9 => (-7, 7),
        10 => (-10, 10),
        11 => (-6, 6),
        12 => (-15, 15),
        13 => (-6, 6),
        14 => (-8, 8),
        15 => (-6, 6),
        16 => (-37, 31),
        17 => (-5, 5),
        18 => (-7, 7),
        19 => (-5, 5),
        20 => (-10, 10),
        21 => (-5, 5),
        22 => (-6, 6),
        23 => (-5, 5),
        24 => (-15, 15),
        25 => (-5, 5),
        26 => (-6, 6),
        27 => (-5, 5),
        28 => (-8, 8),
        29 => (-4, 4),
        30 => (-6, 6),
        31 => (-4, 4),
        32 => (-29, 25),
        33 => (-4, 4),
        34 => (-5, 5),
        35 => (-4, 4),
        _ => (-7, 7),
    }
}

/// The entries of the table of exponent limits of the single format are the limits.
pub proof fn lemma_single_exponent_limits()
    ensures
        is_exponent_limit(24, -149, 127, 2, -149, 127),
        is_exponent_limit(24, -149, 127, 3, -15, 15),
        is_exponent_limit(24, -149, 127, 4, -74, 63),
        is_exponent_limit(24, -149, 127, 5, -10, 10),
        is_exponent_limit(24, -149, 127, 6, -15, 15),
        is_exponent_limit(24, -149, 127, 7, -8, 8),
        is_exponent_limit(24, -149, 127, 8, -49, 42),
        is_exponent_limit(24, -149, 127, 9, -7, 7),
        is_exponent_limit(24, -149, 127, 10, -10, 10),
        is_exponent_limit(24, -149, 127, 11, -6, 6),
        is_exponent_limit(24, -149, 127, 12, -15, 15),
        is_exponent_limit(24, -149, 127, 13, -6, 6),
        is_exponent_limit(24, -149, 127, 14, -8, 8),
        is_exponent_limit(24, -149, 127, 15, -6, 6),
        is_exponent_limit(24, -149, 127, 16, -37, 31),
        is_exponent_limit(24, -149, 127, 17, -5, 5),
        is_exponent_limit(24, -149, 127, 18, -7, 7),
        is_exponent_limit(24, -149, 127, 19, -5, 5),
        is_exponent_limit(24, -149, 127, 20, -10, 10),
        is_exponent_limit(24, -149, 127, 21, -5, 5),
        is_exponent_limit(24, -149, 127, 22, -6, 6),
        is_exponent_limit(24, -149, 127, 23, -5, 5),
        is_exponent_limit(24, -149, 127, 24, -15, 15),
        is_exponent_limit(24, -149, 127, 25, -5, 5),
        is_exponent_limit(24, -149, 127, 26, -6, 6),
        is_exponent_limit(24, -149, 127, 27, -5, 5),
        is_exponent_limit(24, -149, 127, 28, -8, 8),
        is_exponent_limit(24, -149, 127, 29, -4, 4),
        is_exponent_limit(24, -149, 127, 30, -6, 6),
        is_exponent_limit(24, -149, 127, 31, -4, 4),
        is_exponent_limit(24, -149, 127, 32, -29, 25),
        is_exponent_limit(24, -149, 127, 33, -4, 4),
        is_exponent_limit(24, -149, 127, 34, -5, 5),
        is_exponent_limit(24, -149, 127, 35, -4, 4),
        is_exponent_limit(24, -149, 127, 36, -7, 7),
{
    reveal_with_fuel(pow, 26);
    reveal_with_fuel(odd_part, 6);
    assert(pow(2, 24) == 0x1000000);
    assert(odd_part(3) == 3);
    assert(odd_part(5) == 5);
    assert(odd_part(6) == 3);
    assert(odd_part(7) == 7);
    assert(odd_part(9) == 9);
    assert(odd_part(10) == 5);
    assert(odd_part(11) == 11);
    assert(odd_part(12) == 3);
    assert(odd_part(13) == 13);
    assert(odd_part(14) == 7);
    assert(odd_part(15) == 15);
    assert(odd_part(17) == 17);
    assert(odd_part(18) == 9);
    assert(odd_part(19) == 19);
    assert(odd_part(20) == 5);
    assert(odd_part(21) == 21);
    assert(odd_part(22) == 11);
    assert(odd_part(23) == 23);
    assert(odd_part(24) == 3);
    assert(odd_part(25) == 25);
    assert(odd_part(26) == 13);
    assert(odd_part(27) == 27);
    assert(odd_part(28) == 7);
    assert(odd_part(29) == 29);
    assert(odd_part(30) == 15);
    assert(odd_part(31) == 31);
    assert(odd_part(33) == 33);
    assert(odd_part(34) == 17);
    assert(odd_part(35) == 35);
    assert(odd_part(36) == 9);
}

/// The entries of the table of mantissa limits of the single format are the limits.
pub proof fn lemma_single_mantissa_limits()
    ensures
        is_mantissa_limit(24, 2, 24),
        is_mantissa_limit(24, 3, 15),
        is_mantissa_limit(24, 4, 12),
        is_mantissa_limit(24, 5, 10),
        is_mantissa_limit(24, 6, 9),
        is_mantissa_limit(24, 7, 8),
        is_mantissa_limit(24, 8, 8),
        is_mantissa_limit(24, 9, 7),
        is_mantissa_limit(24, 10, 7),
        is_mantissa_limit(24, 11, 6),
        is_mantissa_limit(24, 12, 6),
        is_mantissa_limit(24, 13, 6),
        is_mantissa_limit(24, 14, 6),
        is_mantissa_limit(24, 15, 6),
        is_mantissa_limit(24, 16, 6),
        is_mantissa_limit(24, 17, 5),
        is_mantissa_limit(24, 18, 5),
        is_mantissa_limit(24, 19, 5),
        is_mantissa_limit(24, 20, 5),
        is_mantissa_limit(24, 21, 5),
        is_mantissa_limit(24, 22, 5),
        is_mantissa_limit(24, 23, 5),
        is_mantissa_limit(24, 24, 5),
        is_mantissa_limit(24, 25, 5),
        is_mantissa_limit(24, 26, 5),
        is_mantissa_limit(24, 27, 5),
        is_mantissa_limit(24, 28, 4),
        is_mantissa_limit(24, 29, 4),
        is_mantissa_limit(24, 30, 4),
        is_mantissa_limit(24, 31, 4),
        is_mantissa_limit(24, 32, 4),
        is_mantissa_limit(24, 33, 4),
        is_mantissa_limit(24, 34, 4),
        is_mantissa_limit(24, 35, 4),
        is_mantissa_limit(24, 36, 4),
{
    reveal_with_fuel(pow, 26);
    assert(pow(2, 24) == 0x1000000);
}

impl ExactExponent for Float32 {
    open spec fn spec_precision() -> nat {
        24
    }

    open spec fn spec_least_exponent() -> int {
        -149
    }

    open spec fn spec_greatest_exponent() -> int {
        127
    }

    open spec fn spec_exponent_limit(radix: u32) -> (int, int) {
        spec_single_exponent_limit(radix)
    }

    fn exponent_limit(radix: u32) -> (r: (i32, i32)) {
        proof {
            lemma_single_exponent_limits();
        }
        match radix {
            2 => (-149, 127),
            3 => (-15, 15),
            4 => (-74, 63),
            5 => (-10, 10),
            6 => (-15, 15),
            7 => (-8, 8),
            8 => (-49, 42),
            9 => (-7, 7),
            10 => (-10, 10),
            11 => (-6, 6),
            12 => (-15, 15),
            13 => (-6, 6),
            14 => (-8, 8),
            15 => (-6, 6),
            16 => (-37, 31),
            17 => (-5, 5),
            18 => (-7, 7),
            19 => (-5, 5),
            20 => (-10, 10),
            21 => (-5, 5),
            22 => (-6, 6),
            23 => (-5, 5),
            24 => (-15, 15),
            25 => (-5, 5),
            26 => (-6, 6),
            27 => (-5, 5),
            28 => (-8, 8),
            29 => (-4, 4),
            30 => (-6, 6),
            31 => (-4, 4),
            32 => (-29, 25),
            33 => (-4, 4),
            34 => (-5, 5),
            35 => (-4, 4),
            _ => (-7, 7),
        }
    }

    fn mantissa_limit(radix: u32) -> (r: i32) {
        proof {
            lemma_single_mantissa_limits();
        }
        match radix {
            2 => 24,
            3 => 15,
            4 => 12,
            5 => 10,
            6 => 9,
            7 => 8,
            8 => 8,
            9 => 7,
            10 => 7,
            11 => 6,
            12 => 6,
            13 => 6,
            14 => 6,
            15 => 6,
            16 => 6,
            17 => 5,
            18 => 5,
            19 => 5,
            20 => 5,
            21 => 5,
            22 => 5,
            23 => 5,
            24 => 5,
            25 => 5,
            26 => 5,
            27 => 5,
            28 => 4,
            29 => 4,
            30 => 4,
            31 => 4,
            32 => 4,
            33 => 4,
            34 => 4,
            35 => 4,
            _ => 4,
        }
    }
}

impl TablePower for Float32 {
    open spec fn layout() -> FloatLayout {
        FloatLayout::Single
    }

    open spec fn with_bits(bits: nat) -> Float32 {
        Float32 { bits: bits as u32 }
    }

    fn table_pow2(exponent: i32) -> (r: Float32) {
        Float32 { bits: power_bits(FloatLayout::Single, 2, exponent) as u32 }
    }

    fn table_pow(radix: u32, exponent: i32) -> (r: Float32) {
        Float32 { bits: power_bits(FloatLayout::Single, radix, exponent) as u32 }
    }
}

/// The table of the exponent limits of the double format.
pub open spec fn spec_double_exponent_limit(radix: u32) -> (int, int) {
    match radix {
        2 => (-1074, 1023),
        3 => (-33, 33),
        4 => (-537, 511),
        5 => (-22, 22),
        6 => (-33, 33),
        7 => (-18, 18),
        8 => (-358, 341),
        9 => (-16, 16),
        10 => (-22, 22),
        11 => (-15, 15),
        12 => (-33, 33),
        13 => (-14, 14),
        14 => (-18, 18),
        15 => (-13, 13),
        16 => (-268, 255),
        17 => (-12, 12),
        18 => (-16, 16),
        19 => (-12, 12),
        20 => (-22, 22),
        21 => (-12, 12),
        22 => (-15, 15),
        23 => (-11, 11),
        24 => (-33, 33),
        25 => (-11, 11),
        26 => (-14, 14),
        27 => (-11, 11),
        28 => (-18, 18),
        29 => (-10, 10),
        30 => (-13, 13),
        31 => (-10, 10),
        32 => (-214, 204),
        33 => (-10, 10),
        34 => (-12, 12),
        35 => (-10, 10),
        _ => (-16, 16),
    }
}

/// The entries of the table of exponent limits of the double format are the limits.
pub proof fn lemma_double_exponent_limits()
    ensures
        is_exponent_limit(53, -1074, 1023, 2, -1074, 1023),
        is_exponent_limit(53, -1074, 1023, 3, -33, 33),
        is_exponent_limit(53, -1074, 1023, 4, -537, 511),
        is_exponent_limit(53, -1074, 1023, 5, -22, 22),
        is_exponent_limit(53, -1074, 1023, 6, -33, 33),
        is_exponent_limit(53, -1074, 1023, 7, -18, 18),
        is_exponent_limit(53, -1074, 1023, 8, -358, 341),
        is_exponent_limit(53, -1074, 1023, 9, -16, 16),
        is_exponent_limit(53, -1074, 1023, 10, -22, 22),
        is_exponent_limit(53, -1074, 1023, 11, -15, 15),
        is_exponent_limit(53, -1074, 1023, 12, -33, 33),
        is_exponent_limit(53, -1074, 1023, 13, -14, 14),
        is_exponent_limit(53, -1074, 1023, 14, -18, 18),
        is_exponent_limit(53, -1074, 1023, 15, -13, 13),
        is_exponent_limit(53, -1074, 1023, 16, -268, 255),
        is_exponent_limit(53, -1074, 1023, 17, -12, 12),
        is_exponent_limit(53, -1074, 1023, 18, -16, 16),
        is_exponent_limit(53, -1074, 1023, 19, -12, 12),
        is_exponent_limit(53, -1074, 1023, 20, -22, 22),
        is_exponent_limit(53, -1074, 1023, 21, -12, 12),
        is_exponent_limit(53, -1074, 1023, 22, -15, 15),
        is_exponent_limit(53, -1074, 1023, 23, -11, 11),
        is_exponent_limit(53, -1074, 1023, 24, -33, 33),
        is_exponent_limit(53, -1074, 1023, 25, -11, 11),
        is_exponent_limit(53, -1074, 1023, 26, -14, 14),
        is_exponent_limit(53, -1074, 1023, 27, -11, 11),
        is_exponent_limit(53, -1074, 1023, 28, -18, 18),
        is_exponent_limit(53, -1074, 1023, 29, -10, 10),
        is_exponent_limit(53, -1074, 1023, 30, -13, 13),
        is_exponent_limit(53, -1074, 1023, 31, -10, 10),
        is_exponent_limit(53, -1074, 1023, 32, -214, 204),
        is_exponent_limit(53, -1074, 1023, 33, -10, 10),
        is_exponent_limit(53, -1074, 1023, 34, -12, 12),
        is_exponent_limit(53, -1074, 1023, 35, -10, 10),
        is_exponent_limit(53, -1074, 1023, 36, -16, 16),
{
    reveal_with_fuel(pow, 55);
    reveal_with_fuel(odd_part, 6);
    assert(pow(2, 53) == 0x20000000000000);
    assert(odd_part(3) == 3);
    assert(odd_part(5) == 5);
    assert(odd_part(6) == 3);
    assert(odd_part(7) == 7);
    assert(odd_part(9) == 9);
    assert(odd_part(10) == 5);
    assert(odd_part(11) == 11);
    assert(odd_part(12) == 3);
    assert(odd_part(13) == 13);
    assert(odd_part(14) == 7);
    assert(odd_part(15) == 15);
    assert(odd_part(17) == 17);
    assert(odd_part(18) == 9);
    assert(odd_part(19) == 19);
    assert(odd_part(20) == 5);
    assert(odd_part(21) == 21);
    assert(odd_part(22) == 11);
    assert(odd_part(23) == 23);
    assert(odd_part(24) == 3);
    assert(odd_part(25) == 25);
    assert(odd_part(26) == 13);
    assert(odd_part(27) == 27);
    assert(odd_part(28) == 7);
    assert(odd_part(29) == 29);
    assert(odd_part(30) == 15);
    assert(odd_part(31) == 31);
    assert(odd_part(33) == 33);
    assert(odd_part(34) == 17);
    assert(odd_part(35) == 35);
    assert(odd_part(36) == 9);
}

/// The entries of the table of mantissa limits of the double format are the limits.
pub proof fn lemma_double_mantissa_limits()
    ensures
        is_mantissa_limit(53, 2, 53),
        is_mantissa_limit(53, 3, 33),
        is_mantissa_limit(53, 4, 26),
        is_mantissa_limit(53, 5, 22),
        is_mantissa_limit(53, 6, 20),
        is_mantissa_limit(53, 7, 18),
        is_mantissa_limit(53, 8, 17),
        is_mantissa_limit(53, 9, 16),
        is_mantissa_limit(53, 10, 15),
        is_mantissa_limit(53, 11, 15),
        is_mantissa_limit(53, 12, 14),
        is_mantissa_limit(53, 13, 14),
        is_mantissa_limit(53, 14, 13),
        is_mantissa_limit(53, 15, 13),
        is_mantissa_limit(53, 16, 13),
        is_mantissa_limit(53, 17, 12),
        is_mantissa_limit(53, 18, 12),
        is_mantissa_limit(53, 19, 12),
        is_mantissa_limit(53, 20, 12),
        is_mantissa_limit(53, 21, 12),
        is_mantissa_limit(53, 22, 11),
        is_mantissa_limit(53, 23, 11),
        is_mantissa_limit(53, 24, 11),
        is_mantissa_limit(53, 25, 11),
        is_mantissa_limit(53, 26, 11),
        is_mantissa_limit(53, 27, 11),
        is_mantissa_limit(53, 28, 11),
        is_mantissa_limit(53, 29, 10),
        is_mantissa_limit(53, 30, 10),
        is_mantissa_limit(53, 31, 10),
        is_mantissa_limit(53, 32, 10),
        is_mantissa_limit(53, 33, 10),
        is_mantissa_limit(53, 34, 10),
        is_mantissa_limit(53, 35, 10),
        is_mantissa_limit(53, 36, 10),
{
    reveal_with_fuel(pow, 55);
    assert(pow(2, 53) == 0x20000000000000);
}

impl ExactExponent for Float64 {
    open spec fn spec_precision() -> nat {
        53
    }

    open spec fn spec_least_exponent() -> int {
        -1074
    }

    open spec fn spec_greatest_exponent() -> int {
        1023
    }

    open spec fn spec_exponent_limit(radix: u32) -> (int, int) {
        spec_double_exponent_limit(radix)
    }

    fn exponent_limit(radix: u32) -> (r: (i32, i32)) {
        proof {
            lemma_double_exponent_limits();
        }
        match radix {
            2 => (-1074, 1023),
            3 => (-33, 33),
            4 => (-537, 511),
            5 => (-22, 22),
            6 => (-33, 33),
            7 => (-18, 18),
            8 => (-358, 341),
            9 => (-16, 16),
            10 => (-22, 22),
            11 => (-15, 15),
            12 => (-33, 33),
            13 => (-14, 14),
            14 => (-18, 18),
            15 => (-13, 13),
            16 => (-268, 255),
            17 => (-12, 12),
            18 => (-16, 16),
            19 => (-12, 12),
            20 => (-22, 22),
            21 => (-12, 12),
            22 => (-15, 15),
            23 => (-11, 11),
            24 => (-33, 33),
            25 => (-11, 11),
            26 => (-14, 14),
            27 => (-11, 11),
            28 => (-18, 18),
            29 => (-10, 10),
            30 => (-13, 13),
            31 => (-10, 10),
            32 => (-214, 204),
            33 => (-10, 10),
            34 => (-12, 12),
            35 => (-10, 10),
            _ => (-16, 16),
        }
    }

    fn mantissa_limit(radix: u32) -> (r: i32) {
        proof {
            lemma_double_mantissa_limits();
        }
        match radix {
            2 => 53,
            3 => 33,
            4 => 26,
            5 => 22,
            6 => 20,
            7 => 18,
            8 => 17,
            9 => 16,
            10 => 15,
            11 => 15,
            12 => 14,
            13 => 14,
            14 => 13,
            15 => 13,
            16 => 13,
            17 => 12,
            18 => 12,
            19 => 12,
            20 => 12,
            21 => 12,
            22 => 11,
            23 => 11,
            24 => 11,
            25 => 11,
            26 => 11,
            27 => 11,
            28 => 11,
            29 => 10,
            30 => 10,
            31 => 10,
            32 => 10,
            33 => 10,
            34 => 10,
            35 => 10,
            _ => 10,
        }
    }
}

impl TablePower for Float64 {
    open spec fn layout() -> FloatLayout {
        FloatLayout::Double
    }

    open spec fn with_bits(bits: nat) -> Float64 {
        Float64 { bits: bits as u64 }
    }

    fn table_pow2(exponent: i32) -> (r: Float64) {
        Float64 { bits: power_bits(FloatLayout::Double, 2, exponent) }
    }

    fn table_pow(radix: u32, exponent: i32) -> (r: Float64) {
        Float64 { bits: power_bits(FloatLayout::Double, radix, exponent) }
    }
}

/// The table of the exponent limits of the quad format.
pub open spec fn spec_quad_exponent_limit(radix: u32) -> (int, int) {
    match radix {
        2 => (-16494, 16383),
        3 => (-71, 71),
        4 => (-8247, 8191),
        5 => (-48, 48),
        6 => (-71, 71),
        7 => (-40, 40),
        8 => (-5498, 5461),
        9 => (-35, 35),
        10 => (-48, 48),
        11 => (-32, 32),
        12 => (-71, 71),
        13 => (-30, 30),
        14 => (-40, 40),
        15 => (-28, 28),
        16 => (-4123, 4095),
        17 => (-27, 27),
        18 => (-35, 35),
        19 => (-26, 26),
        20 => (-48, 48),
        21 => (-25, 25),
        22 => (-32, 32),
        23 => (-24, 24),
        24 => (-71, 71),
        25 => (-24, 24),
        26 => (-30, 30),
        27 => (-23, 23),
        28 => (-40, 40),
        29 => (-23, 23),
        30 => (-28, 28),
        31 => (-22, 22),
        32 => (-3298, 3276),
        33 => (-22, 22),
        34 => (-27, 27),
        35 => (-22, 22),
        _ => (-35, 35),
    }
}

/// The limits of the quad format in the radix 2.
proof fn lemma_quad_limits_2()
    ensures
        is_exponent_limit(113, -16494, 16383, 2, -16494, 16383),
        is_mantissa_limit(113, 2, 113),
{
    reveal_with_fuel(pow, 52);
    reveal_with_fuel(odd_part, 6);
    assert(pow(2, 28) == 0x10000000);
    vstd::arithmetic::power::lemma_pow_adds(2, 28, 28);
    assert(pow(2, 56) == 0x100000000000000) by (nonlinear_arith)
        requires
            pow(2, 56) == pow(2, 28) * pow(2, 28),
            pow(2, 28) == 0x10000000,
            pow(2, 28) == 0x10000000,
    ;
    assert(pow(2, 29) == 0x20000000);
    vstd::arithmetic::power::lemma_pow_adds(2, 28, 29);
    assert(pow(2, 57) == 0x200000000000000) by (nonlinear_arith)
        requires
            pow(2, 57) == pow(2, 28) * pow(2, 29),
            pow(2, 28) == 0x10000000,
            pow(2, 29) == 0x20000000,
    ;
    vstd::arithmetic::power::lemma_pow_adds(2, 56, 57);
    assert(pow(2, 113) == 0x20000000000000000000000000000) by (nonlinear_arith)
        requires
            pow(2, 113) == pow(2, 56) * pow(2, 57),
            pow(2, 56) == 0x100000000000000,
            pow(2, 57) == 0x200000000000000,
    ;
    vstd::arithmetic::power::lemma_pow_adds(2, 57, 57);
    assert(pow(2, 114) == 0x40000000000000000000000000000) by (nonlinear_arith)
        requires
            pow(2, 114) == pow(2, 57) * pow(2, 57),
            pow(2, 57) == 0x200000000000000,
            pow(2, 57) == 0x200000000000000,
    ;
}

/// The limits of the quad format in the radix 3.
proof fn lemma_quad_limits_3()
    ensures
        is_exponent_limit(113, -16494, 16383, 3, -71, 71),
        is_mantissa_limit(113, 3, 71),
{
    reveal_with_fuel(pow, 52);
    reveal_with_fuel(odd_part, 6);
    assert(pow(2, 28) == 0x10000000);
    vstd::arithmetic::power::lemma_pow_adds(2, 28, 28);
    assert(pow(2, 56) == 0x100000000000000) by (nonlinear_arith)
        requires
            pow(2, 56) == pow(2, 28) * pow(2, 28),
            pow(2, 28) == 0x10000000,
            pow(2, 28) == 0x10000000,
    ;
    assert(pow(2, 29) == 0x20000000);
    vstd::arithmetic::power::lemma_pow_adds(2, 28, 29);
    assert(pow(2, 57) == 0x200000000000000) by (nonlinear_arith)
        requires
            pow(2, 57) == pow(2, 28) * pow(2, 29),
            pow(2, 28) == 0x10000000,
            pow(2, 29) == 0x20000000,
    ;
    vstd::arithmetic::power::lemma_pow_adds(2, 56, 57);
    assert(pow(2, 113) == 0x20000000000000000000000000000) by (nonlinear_arith)
        requires
            pow(2, 113) == pow(2, 56) * pow(2, 57),
            pow(2, 56) == 0x100000000000000,
            pow(2, 57) == 0x200000000000000,
    ;
    assert(odd_part(3) == 3);
    assert(pow(3, 35) == 0xb1bf6cd930979b);
    assert(pow(3, 36) == 0x2153e468b91c6d1);
    vstd::arithmetic::power::lemma_pow_adds(3, 35, 36);
    assert(pow(3, 71) == 0x1723ecaf7ceb05f77dd11edb8a78b) by (nonlinear_arith)
        requires
            pow(3, 71) == pow(3, 35) * pow(3, 36),
            pow(3, 35) == 0xb1bf6cd930979b,
            pow(3, 36) == 0x2153e468b91c6d1,
    ;
    vstd::arithmetic::power::lemma_pow_adds(3, 36, 36);
    assert(pow(3, 72) == 0x456bc60e76c111e679735c929f6a1) by (nonlinear_arith)
        requires
            pow(3, 72) == pow(3, 36) * pow(3, 36),
            pow(3, 36) == 0x2153e468b91c6d1,
            pow(3, 36) == 0x2153e468b91c6d1,
    ;
}

/// The limits of the quad format in the radix 4.
proof fn lemma_quad_limits_4()
    ensures
        is_exponent_limit(113, -16494, 16383, 4, -8247, 8191),
        is_mantissa_limit(113, 4, 56),
{
    reveal_with_fuel(pow, 52);
    reveal_with_fuel(odd_part, 6);
    assert(pow(2, 28) == 0x10000000);
    vstd::arithmetic::power::lemma_pow_adds(2, 28, 28);
    assert(pow(2, 56) == 0x100000000000000) by (nonlinear_arith)
        requires
            pow(2, 56) == pow(2, 28) * pow(2, 28),
            pow(2, 28) == 0x10000000,
            pow(2, 28) == 0x10000000,
    ;
    assert(pow(2, 29) == 0x20000000);
    vstd::arithmetic::power::lemma_pow_adds(2, 28, 29);
    assert(pow(2, 57) == 0x200000000000000) by (nonlinear_arith)
        requires
            pow(2, 57) == pow(2, 28) * pow(2, 29),
            pow(2, 28) == 0x10000000,
            pow(2, 29) == 0x20000000,
    ;
    vstd::arithmetic::power::lemma_pow_adds(2, 56, 57);
    assert(pow(2, 113) == 0x20000000000000000000000000000) by (nonlinear_arith)
        requires
            pow(2, 113) == pow(2, 56) * pow(2, 57),
            pow(2, 56) == 0x100000000000000,
            pow(2, 57) == 0x200000000000000,
    ;
    assert(pow(4, 28) == 0x100000000000000);
    vstd::arithmetic::power::lemma_pow_adds(4, 28, 28);
    assert(pow(4, 56) == 0x10000000000000000000000000000) by (nonlinear_arith)
        requires
            pow(4, 56) == pow(4, 28) * pow(4, 28),
            pow(4, 28) == 0x100000000000000,
            pow(4, 28) == 0x100000000000000,
    ;
    assert(pow(4, 29) == 0x400000000000000);
    vstd::arithmetic::power::lemma_pow_adds(4, 28, 29);
    assert(pow(4, 57) == 0x40000000000000000000000000000) by (nonlinear_arith)
        requires
            pow(4, 57) == pow(4, 28) * pow(4, 29),
            pow(4, 28) == 0x100000000000000,
            pow(4, 29) == 0x400000000000000,
    ;
}

/// The limits of the quad format in the radix 5.
proof fn lemma_quad_limits_5()
    ensures
        is_exponent_limit(113, -16494, 16383, 5, -48, 48),
        is_mantissa_limit(113, 5, 48),
{
    reveal_with_fuel(pow, 52);
    reveal_with_fuel(odd_part, 6);
    assert(pow(2, 28) == 0x10000000);
    vstd::arithmetic::power::lemma_pow_adds(2, 28, 28);
    assert(pow(2, 56) == 0x100000000000000) by (nonlinear_arith)
        requires
            pow(2, 56) == pow(2, 28) * pow(2, 28),
            pow(2, 28) == 0x10000000,
            pow(2, 28) == 0x10000000,
    ;
    assert(pow(2, 29) == 0x20000000);
    vstd::arithmetic::power::lemma_pow_adds(2, 28, 29);
    assert(pow(2, 57) == 0x200000000000000) by (nonlinear_arith)
        requires
            pow(2, 57) == pow(2, 28) * pow(2, 29),
            pow(2, 28) == 0x10000000,
            pow(2, 29) == 0x20000000,
    ;
    vstd::arithmetic::power::lemma_pow_adds(2, 56, 57);
    assert(pow(2, 113) == 0x20000000000000000000000000000) by (nonlinear_arith)
        requires
            pow(2, 113) == pow(2, 56) * pow(2, 57),
            pow(2, 56) == 0x100000000000000,
            pow(2, 57) == 0x200000000000000,
    ;
    assert(odd_part(5) == 5);
    assert(pow(5, 48) == 0xaf298d050e4395d69670b12b7f41);
    assert(pow(5, 49) == 0x36bcfc1194751ed30f03375d97c45);
}

/// The limits of the quad format in the radix 6.
proof fn lemma_quad_limits_6()
    ensures
        is_exponent_limit(113, -16494, 16383, 6, -71, 71),
        is_mantissa_limit(113, 6, 43),
{
    reveal_with_fuel(pow, 52);
    reveal_with_fuel(odd_part, 6);
    assert(pow(2, 28) == 0x10000000);
    vstd::arithmetic::power::lemma_pow_adds(2, 28, 28);
    assert(pow(2, 56) == 0x100000000000000) by (nonlinear_arith)
        requires
            pow(2, 56) == pow(2, 28) * pow(2, 28),
            pow(2, 28) == 0x10000000,
            pow(2, 28) == 0x10000000,
    ;
    assert(pow(2, 29) == 0x20000000);
    vstd::arithmetic::power::lemma_pow_adds(2, 28, 29);
    assert(pow(2, 57) == 0x200000000000000) by (nonlinear_arith)
        requires
            pow(2, 57) == pow(2, 28) * pow(2, 29),
            pow(2, 28) == 0x10000000,
            pow(2, 29) == 0x20000000,
    ;
    vstd::arithmetic::power::lemma_pow_adds(2, 56, 57);
    assert(pow(2, 113) == 0x20000000000000000000000000000) by (nonlinear_arith)
        requires
            pow(2, 113) == pow(2, 56) * pow(2, 57),
            pow(2, 56) == 0x100000000000000,
            pow(2, 57) == 0x200000000000000,
    ;
    assert(odd_part(6) == 3);
    assert(pow(3, 35) == 0xb1bf6cd930979b);
    assert(pow(3, 36) == 0x2153e468b91c6d1);
    vstd::arithmetic::power::lemma_pow_adds(3, 35, 36);
    assert(pow(3, 71) == 0x1723ecaf7ceb05f77dd11edb8a78b) by (nonlinear_arith)
        requires
            pow(3, 71) == pow(3, 35) * pow(3, 36),
            pow(3, 35) == 0xb1bf6cd930979b,
            pow(3, 36) == 0x2153e468b91c6d1,
    ;
    vstd::arithmetic::power::lemma_pow_adds(3, 36, 36);
    assert(pow(3, 72) == 0x456bc60e76c111e679735c929f6a1) by (nonlinear_arith)
        requires
            pow(3, 72) == pow(3, 36) * pow(3, 36),
            pow(3, 36) == 0x2153e468b91c6d1,
            pow(3, 36) == 0x2153e468b91c6d1,
    ;
    assert(pow(6, 43) == 0x8e5bd82552b2ebdbd80000000000);
    assert(pow(6, 44) == 0x3562710dff0318727100000000000);
}

/// The limits of the quad format in the radix 7.
proof fn lemma_quad_limits_7()
    ensures
        is_exponent_limit(113, -16494, 16383, 7, -40, 40),
        is_mantissa_limit(113, 7, 40),
{
    reveal_with_fuel(pow, 52);
    reveal_with_fuel(odd_part, 6);
    assert(pow(2, 28) == 0x10000000);
    vstd::arithmetic::power::lemma_pow_adds(2, 28, 28);
    assert(pow(2, 56) == 0x100000000000000) by (nonlinear_arith)
        requires
            pow(2, 56) == pow(2, 28) * pow(2, 28),
            pow(2, 28) == 0x10000000,
            pow(2, 28) == 0x10000000,
    ;
    assert(pow(2, 29) == 0x20000000);
    vstd::arithmetic::power::lemma_pow_adds(2, 28, 29);
    assert(pow(2, 57) == 0x200000000000000) by (nonlinear_arith)
        requires
            pow(2, 57) == pow(2, 28) * pow(2, 29),
            pow(2, 28) == 0x10000000,
            pow(2, 29) == 0x20000000,
    ;
    vstd::arithmetic::power::lemma_pow_adds(2, 56, 57);
    assert(pow(2, 113) == 0x20000000000000000000000000000) by (nonlinear_arith)
        requires
            pow(2, 113) == pow(2, 56) * pow(2, 57),
            pow(2, 56) == 0x100000000000000,
            pow(2, 57) == 0x200000000000000,
    ;
    assert(odd_part(7) == 7);
    assert(pow(7, 40) == 0x139e862f1509ba9c74345f78771c1);
    assert(pow(7, 41) == 0x8955ab4993441a472d6e9c4b41c47);
}

/// The limits of the quad format in the radix 8.
proof fn lemma_quad_limits_8()
    ensures
        is_exponent_limit(113, -16494, 16383, 8, -5498, 5461),
        is_mantissa_limit(113, 8, 37),
{
    reveal_with_fuel(pow, 52);
    reveal_with_fuel(odd_part, 6);
    assert(pow(2, 28) == 0x10000000);
    vstd::arithmetic::power::lemma_pow_adds(2, 28, 28);
    assert(pow(2, 56) == 0x100000000000000) by (nonlinear_arith)
        requires
            pow(2, 56) == pow(2, 28) * pow(2, 28),
            pow(2, 28) == 0x10000000,
            pow(2, 28) == 0x10000000,
    ;
    assert(pow(2, 29) == 0x20000000);
    vstd::arithmetic::power::lemma_pow_adds(2, 28, 29);
    assert(pow(2, 57) == 0x200000000000000) by (nonlinear_arith)
        requires
            pow(2, 57) == pow(2, 28) * pow(2, 29),
            pow(2, 28) == 0x10000000,
            pow(2, 29) == 0x20000000,
    ;
    vstd::arithmetic::power::lemma_pow_adds(2, 56, 57);
    assert(pow(2, 113) == 0x20000000000000000000000000000) by (nonlinear_arith)
        requires
            pow(2, 113) == pow(2, 56) * pow(2, 57),
            pow(2, 56) == 0x100000000000000,
            pow(2, 57) == 0x200000000000000,
    ;
    assert(pow(8, 37) == 0x8000000000000000000000000000);
    assert(pow(8, 38) == 0x40000000000000000000000000000);
}

/// The limits of the quad format in the radix 9.
proof fn lemma_quad_limits_9()
    ensures
        is_exponent_limit(113, -16494, 16383, 9, -35, 35),
        is_mantissa_limit(113, 9, 35),
{
    reveal_with_fuel(pow, 52);
    reveal_with_fuel(odd_part, 6);
    assert(pow(2, 28) == 0x10000000);
    vstd::arithmetic::power::lemma_pow_adds(2, 28, 28);
    assert(pow(2, 56) == 0x100000000000000) by (nonlinear_arith)
        requires
            pow(2, 56) == pow(2, 28) * pow(2, 28),
            pow(2, 28) == 0x10000000,
            pow(2, 28) == 0x10000000,
    ;
    assert(pow(2, 29) == 0x20000000);
    vstd::arithmetic::power::lemma_pow_adds(2, 28, 29);
    assert(pow(2, 57) == 0x200000000000000) by (nonlinear_arith)
        requires
            pow(2, 57) == pow(2, 28) * pow(2, 29),
            pow(2, 28) == 0x10000000,
            pow(2, 29) == 0x20000000,
    ;
    vstd::arithmetic::power::lemma_pow_adds(2, 56, 57);
    assert(pow(2, 113) == 0x20000000000000000000000000000) by (nonlinear_arith)
        requires
            pow(2, 113) == pow(2, 56) * pow(2, 57),
            pow(2, 56) == 0x100000000000000,
            pow(2, 57) == 0x200000000000000,
    ;
    assert(odd_part(9) == 9);
    assert(pow(9, 35) == 0x7b6a43a7ef901fd29f05f9e837d9);
    assert(pow(9, 36) == 0x456bc60e76c111e679735c929f6a1);
}

/// The limits of the quad format in the radix 10.
proof fn lemma_quad_limits_10()
    ensures
        is_exponent_limit(113, -16494, 16383, 10, -48, 48),
        is_mantissa_limit(113, 10, 34),
{
    reveal_with_fuel(pow, 52);
    reveal_with_fuel(odd_part, 6);
    assert(pow(2, 28) == 0x10000000);
    vstd::arithmetic::power::lemma_pow_adds(2, 28, 28);
    assert(pow(2, 56) == 0x100000000000000) by (nonlinear_arith)
        requires
            pow(2, 56) == pow(2, 28) * pow(2, 28),
            pow(2, 28) == 0x10000000,
            pow(2, 28) == 0x10000000,
    ;
    assert(pow(2, 29) == 0x20000000);
    vstd::arithmetic::power::lemma_pow_adds(2, 28, 29);
    assert(pow(2, 57) == 0x200000000000000) by (nonlinear_arith)
        requires
            pow(2, 57) == pow(2, 28) * pow(2, 29),
            pow(2, 28) == 0x10000000,
            pow(2, 29) == 0x20000000,
    ;
    vstd::arithmetic::power::lemma_pow_adds(2, 56, 57);
    assert(pow(2, 113) == 0x20000000000000000000000000000) by (nonlinear_arith)
        requires
            pow(2, 113) == pow(2, 56) * pow(2, 57),
            pow(2, 56) == 0x100000000000000,
            pow(2, 57) == 0x200000000000000,
    ;
    assert(odd_part(10) == 5);
    assert(pow(5, 48) == 0xaf298d050e4395d69670b12b7f41);
    assert(pow(5, 49) == 0x36bcfc1194751ed30f03375d97c45);
    assert(pow(10, 34) == 0x1ed09bead87c0378d8e6400000000);
    assert(pow(10, 35) == 0x13426172c74d822b878fe800000000);
}

/// The limits of the quad format in the radix 11.
proof fn lemma_quad_limits_11()
    ensures
        is_exponent_limit(113, -16494, 16383, 11, -32, 32),
        is_mantissa_limit(113, 11, 32),
{
    reveal_with_fuel(pow, 52);
    reveal_with_fuel(odd_part, 6);
    assert(pow(2, 28) == 0x10000000);
    vstd::arithmetic::power::lemma_pow_adds(2, 28, 28);
    assert(pow(2, 56) == 0x100000000000000) by (nonlinear_arith)
        requires
            pow(2, 56) == pow(2, 28) * pow(2, 28),
            pow(2, 28) == 0x10000000,
            pow(2, 28) == 0x10000000,
    ;
    assert(pow(2, 29) == 0x20000000);
    vstd::arithmetic::power::lemma_pow_adds(2, 28, 29);
    assert(pow(2, 57) == 0x200000000000000) by (nonlinear_arith)
        requires
            pow(2, 57) == pow(2, 28) * pow(2, 29),
            pow(2, 28) == 0x10000000,
            pow(2, 29) == 0x20000000,
    ;
    vstd::arithmetic::power::lemma_pow_adds(2, 56, 57);
    assert(pow(2, 113) == 0x20000000000000000000000000000) by (nonlinear_arith)
        requires
            pow(2, 113) == pow(2, 56) * pow(2, 57),
            pow(2, 56) == 0x100000000000000,
            pow(2, 57) == 0x200000000000000,
    ;
    assert(odd_part(11) == 11);
    assert(pow(11, 32) == 0x681955362721ce00ddaaab61c581);
    assert(pow(11, 33) == 0x47916a953ae73da0986555d337c8b);
}

/// The limits of the quad format in the radix 12.
proof fn lemma_quad_limits_12()
    ensures
        is_exponent_limit(113, -16494, 16383, 12, -71, 71),
        is_mantissa_limit(113, 12, 31),
{
    reveal_with_fuel(pow, 52);
    reveal_with_fuel(odd_part, 6);
    assert(pow(2, 28) == 0x10000000);
    vstd::arithmetic::power::lemma_pow_adds(2, 28, 28);
    assert(pow(2, 56) == 0x100000000000000) by (nonlinear_arith)
        requires
            pow(2, 56) == pow(2, 28) * pow(2, 28),
            pow(2, 28) == 0x10000000,
            pow(2, 28) == 0x10000000,
    ;
    assert(pow(2, 29) == 0x20000000);
    vstd::arithmetic::power::lemma_pow_adds(2, 28, 29);
    assert(pow(2, 57) == 0x200000000000000) by (nonlinear_arith)
        requires
            pow(2, 57) == pow(2, 28) * pow(2, 29),
            pow(2, 28) == 0x10000000,
            pow(2, 29) == 0x20000000,
    ;
    vstd::arithmetic::power::lemma_pow_adds(2, 56, 57);
    assert(pow(2, 113) == 0x20000000000000000000000000000) by (nonlinear_arith)
        requires
            pow(2, 113) == pow(2, 56) * pow(2, 57),
            pow(2, 56) == 0x100000000000000,
            pow(2, 57) == 0x200000000000000,
    ;
    assert(odd_part(12) == 3);
    assert(pow(3, 35) == 0xb1bf6cd930979b);
    assert(pow(3, 36) == 0x2153e468b91c6d1);
    vstd::arithmetic::power::lemma_pow_adds(3, 35, 36);
    assert(pow(3, 71) == 0x1723ecaf7ceb05f77dd11edb8a78b) by (nonlinear_arith)
        requires
            pow(3, 71) == pow(3, 35) * pow(3, 36),
            pow(3, 35) == 0xb1bf6cd930979b,
            pow(3, 36) == 0x2153e468b91c6d1,
    ;
    vstd::arithmetic::power::lemma_pow_adds(3, 36, 36);
    assert(pow(3, 72) == 0x456bc60e76c111e679735c929f6a1) by (nonlinear_arith)
        requires
            pow(3, 72) == pow(3, 36) * pow(3, 36),
            pow(3, 36) == 0x2153e468b91c6d1,
            pow(3, 36) == 0x2153e468b91c6d1,
    ;
    assert(pow(12, 31) == 0x8c7152d7da8ac000000000000000);
    assert(pow(12, 32) == 0x6954fe21e3e810000000000000000);
}

/// The limits of the quad format in the radix 13.
proof fn lemma_quad_limits_13()
    ensures
        is_exponent_limit(113, -16494, 16383, 13, -30, 30),
        is_mantissa_limit(113, 13, 30),
{
    reveal_with_fuel(pow, 52);
    reveal_with_fuel(odd_part, 6);
    assert(pow(2, 28) == 0x10000000);
    vstd::arithmetic::power::lemma_pow_adds(2, 28, 28);
    assert(pow(2, 56) == 0x100000000000000) by (nonlinear_arith)
        requires
            pow(2, 56) == pow(2, 28) * pow(2, 28),
            pow(2, 28) == 0x10000000,
            pow(2, 28) == 0x10000000,
    ;
    assert(pow(2, 29) == 0x20000000);
    vstd::arithmetic::power::lemma_pow_adds(2, 28, 29);
    assert(pow(2, 57) == 0x200000000000000) by (nonlinear_arith)
        requires
            pow(2, 57) == pow(2, 28) * pow(2, 29),
            pow(2, 28) == 0x10000000,
            pow(2, 29) == 0x20000000,
    ;
    vstd::arithmetic::power::lemma_pow_adds(2, 56, 57);
    assert(pow(2, 113) == 0x20000000000000000000000000000) by (nonlinear_arith)
        requires
            pow(2, 113) == pow(2, 56) * pow(2, 57),
            pow(2, 56) == 0x100000000000000,
            pow(2, 57) == 0x200000000000000,
    ;
    assert(odd_part(13) == 13);
    assert(pow(13, 30) == 0x812cfe81668f644c573270b90819);
    assert(pow(13, 31) == 0x68f48ec92354817e06d8fb9656945);
}

/// The limits of the quad format in the radix 14.
proof fn lemma_quad_limits_14()
    ensures
        is_exponent_limit(113, -16494, 16383, 14, -40, 40),
        is_mantissa_limit(113, 14, 29),
{
    reveal_with_fuel(pow, 52);
    reveal_with_fuel(odd_part, 6);
    assert(pow(2, 28) == 0x10000000);
    vstd::arithmetic::power::lemma_pow_adds(2, 28, 28);
    assert(pow(2, 56) == 0x100000000000000) by (nonlinear_arith)
        requires
            pow(2, 56) == pow(2, 28) * pow(2, 28),
            pow(2, 28) == 0x10000000,
            pow(2, 28) == 0x10000000,
    ;
    assert(pow(2, 29) == 0x20000000);
    vstd::arithmetic::power::lemma_pow_adds(2, 28, 29);
    assert(pow(2, 57) == 0x200000000000000) by (nonlinear_arith)
        requires
            pow(2, 57) == pow(2, 28) * pow(2, 29),
            pow(2, 28) == 0x10000000,
            pow(2, 29) == 0x20000000,
    ;
    vstd::arithmetic::power::lemma_pow_adds(2, 56, 57);
    assert(pow(2, 113) == 0x20000000000000000000000000000) by (nonlinear_arith)
        requires
            pow(2, 113) == pow(2, 56) * pow(2, 57),
            pow(2, 56) == 0x100000000000000,
            pow(2, 57) == 0x200000000000000,
    ;
    assert(odd_part(14) == 7);
    assert(pow(7, 40) == 0x139e862f1509ba9c74345f78771c1);
    assert(pow(7, 41) == 0x8955ab4993441a472d6e9c4b41c47);
    assert(pow(14, 29) == 0x553aee1ae407c69226ece0000000);
    assert(pow(14, 30) == 0x4a9390578786cdbfe20f440000000);
}

/// The limits of the quad format in the radix 15.
proof fn lemma_quad_limits_15()
    ensures
        is_exponent_limit(113, -16494, 16383, 15, -28, 28),
        is_mantissa_limit(113, 15, 28),
{
    reveal_with_fuel(pow, 52);
    reveal_with_fuel(odd_part, 6);
    assert(pow(2, 28) == 0x10000000);
    vstd::arithmetic::power::lemma_pow_adds(2, 28, 28);
    assert(pow(2, 56) == 0x100000000000000) by (nonlinear_arith)
        requires
            pow(2, 56) == pow(2, 28) * pow(2, 28),
            pow(2, 28) == 0x10000000,
            pow(2, 28) == 0x10000000,
    ;
    assert(pow(2, 29) == 0x20000000);
    vstd::arithmetic::power::lemma_pow_adds(2, 28, 29);
    assert(pow(2, 57) == 0x200000000000000) by (nonlinear_arith)
        requires
            pow(2, 57) == pow(2, 28) * pow(2, 29),
            pow(2, 28) == 0x10000000,
            pow(2, 29) == 0x20000000,
    ;
    vstd::arithmetic::power::lemma_pow_adds(2, 56, 57);
    assert(pow(2, 113) == 0x20000000000000000000000000000) by (nonlinear_arith)
        requires
            pow(2, 113) == pow(2, 56) * pow(2, 57),
            pow(2, 56) == 0x100000000000000,
            pow(2, 57) == 0x200000000000000,
    ;
    assert(odd_part(15) == 15);
    assert(pow(15, 28) == 0x2a049db9edbccb18f65e74afb841);
    assert(pow(15, 29) == 0x276453de4ee0fe6766f88d64bcbcf);
}

/// The limits of the quad format in the radix 16.
proof fn lemma_quad_limits_16()
    ensures
        is_exponent_limit(113, -16494, 16383, 16, -4123, 4095),
        is_mantissa_limit(113, 16, 28),
{
    reveal_with_fuel(pow, 52);
    reveal_with_fuel(odd_part, 6);
    assert(pow(2, 28) == 0x10000000);
    vstd::arithmetic::power::lemma_pow_adds(2, 28, 28);
    assert(pow(2, 56) == 0x100000000000000) by (nonlinear_arith)
        requires
            pow(2, 56) == pow(2, 28) * pow(2, 28),
            pow(2, 28) == 0x10000000,
            pow(2, 28) == 0x10000000,
    ;
    assert(pow(2, 29) == 0x20000000);
    vstd::arithmetic::power::lemma_pow_adds(2, 28, 29);
    assert(pow(2, 57) == 0x200000000000000) by (nonlinear_arith)
        requires
            pow(2, 57) == pow(2, 28) * pow(2, 29),
            pow(2, 28) == 0x10000000,
            pow(2, 29) == 0x20000000,
    ;
    vstd::arithmetic::power::lemma_pow_adds(2, 56, 57);
    assert(pow(2, 113) == 0x20000000000000000000000000000) by (nonlinear_arith)
        requires
            pow(2, 113) == pow(2, 56) * pow(2, 57),
            pow(2, 56) == 0x100000000000000,
            pow(2, 57) == 0x200000000000000,
    ;
    assert(pow(16, 28) == 0x10000000000000000000000000000);
    assert(pow(16, 29) == 0x100000000000000000000000000000);
}

/// The limits of the quad format in the radix 17.
proof fn lemma_quad_limits_17()
    ensures
        is_exponent_limit(113, -16494, 16383, 17, -27, 27),
        is_mantissa_limit(113, 17, 27),
{
    reveal_with_fuel(pow, 52);
    reveal_with_fuel(odd_part, 6);
    assert(pow(2, 28) == 0x10000000);
    vstd::arithmetic::power::lemma_pow_adds(2, 28, 28);
    assert(pow(2, 56) == 0x100000000000000) by (nonlinear_arith)
        requires
            pow(2, 56) == pow(2, 28) * pow(2, 28),
            pow(2, 28) == 0x10000000,
            pow(2, 28) == 0x10000000,
    ;
    assert(pow(2, 29) == 0x20000000);
    vstd::arithmetic::power::lemma_pow_adds(2, 28, 29);
    assert(pow(2, 57) == 0x200000000000000) by (nonlinear_arith)
        requires
            pow(2, 57) == pow(2, 28) * pow(2, 29),
            pow(2, 28) == 0x10000000,
            pow(2, 29) == 0x20000000,
    ;
    vstd::arithmetic::power::lemma_pow_adds(2, 56, 57);
    assert(pow(2, 113) == 0x20000000000000000000000000000) by (nonlinear_arith)
        requires
            pow(2, 113) == pow(2, 56) * pow(2, 57),
            pow(2, 56) == 0x100000000000000,
            pow(2, 57) == 0x200000000000000,
    ;
    assert(odd_part(17) == 17);
    assert(pow(17, 27) == 0x523979e9087a3ddda92124e630b1);
    assert(pow(17, 28) == 0x575d11879901e1bb83b3373493bc1);
}

/// The limits of the quad format in the radix 18.
proof fn lemma_quad_limits_18()
    ensures
        is_exponent_limit(113, -16494, 16383, 18, -35, 35),
        is_mantissa_limit(113, 18, 27),
{
    reveal_with_fuel(pow, 52);
    reveal_with_fuel(odd_part, 6);
    assert(pow(2, 28) == 0x10000000);
    vstd::arithmetic::power::lemma_pow_adds(2, 28, 28);
    assert(pow(2, 56) == 0x100000000000000) by (nonlinear_arith)
        requires
            pow(2, 56) == pow(2, 28) * pow(2, 28),
            pow(2, 28) == 0x10000000,
            pow(2, 28) == 0x10000000,
    ;
    assert(pow(2, 29) == 0x20000000);
    vstd::arithmetic::power::lemma_pow_adds(2, 28, 29);
    assert(pow(2, 57) == 0x200000000000000) by (nonlinear_arith)
        requires
            pow(2, 57) == pow(2, 28) * pow(2, 29),
            pow(2, 28) == 0x10000000,
            pow(2, 29) == 0x20000000,
    ;
    vstd::arithmetic::power::lemma_pow_adds(2, 56, 57);
    assert(pow(2, 113) == 0x20000000000000000000000000000) by (nonlinear_arith)
        requires
            pow(2, 113) == pow(2, 56) * pow(2, 57),
            pow(2, 56) == 0x100000000000000,
            pow(2, 57) == 0x200000000000000,
    ;
    assert(odd_part(18) == 9);
    assert(pow(9, 35) == 0x7b6a43a7ef901fd29f05f9e837d9);
    assert(pow(9, 36) == 0x456bc60e76c111e679735c929f6a1);
    assert(pow(18, 27) == 0x180cd7c79aad1080fa894c8000000);
    assert(pow(18, 28) == 0x1b0e72c08e02b29119da7610000000);
}

/// The limits of the quad format in the radix 19.
proof fn lemma_quad_limits_19()
    ensures
        is_exponent_limit(113, -16494, 16383, 19, -26, 26),
        is_mantissa_limit(113, 19, 26),
{
    reveal_with_fuel(pow, 52);
    reveal_with_fuel(odd_part, 6);
    assert(pow(2, 28) == 0x10000000);
    vstd::arithmetic::power::lemma_pow_adds(2, 28, 28);
    assert(pow(2, 56) == 0x100000000000000) by (nonlinear_arith)
        requires
            pow(2, 56) == pow(2, 28) * pow(2, 28),
            pow(2, 28) == 0x10000000,
            pow(2, 28) == 0x10000000,
    ;
    assert(pow(2, 29) == 0x20000000);
    vstd::arithmetic::power::lemma_pow_adds(2, 28, 29);
    assert(pow(2, 57) == 0x200000000000000) by (nonlinear_arith)
        requires
            pow(2, 57) == pow(2, 28) * pow(2, 29),
            pow(2, 28) == 0x10000000,
            pow(2, 29) == 0x20000000,
    ;
    vstd::arithmetic::power::lemma_pow_adds(2, 56, 57);
    assert(pow(2, 113) == 0x20000000000000000000000000000) by (nonlinear_arith)
        requires
            pow(2, 113) == pow(2, 56) * pow(2, 57),
            pow(2, 56) == 0x100000000000000,
            pow(2, 57) == 0x200000000000000,
    ;
    assert(odd_part(19) == 19);
    assert(pow(19, 26) == 0x5731052da2e5b10cb302ed0eedc9);
    assert(pow(19, 27) == 0x678a36263170c23f14937981ba5eb);
}

/// The limits of the quad format in the radix 20.
proof fn lemma_quad_limits_20()
    ensures
        is_exponent_limit(113, -16494, 16383, 20, -48, 48),
        is_mantissa_limit(113, 20, 26),
{
    reveal_with_fuel(pow, 52);
    reveal_with_fuel(odd_part, 6);
    assert(pow(2, 28) == 0x10000000);
    vstd::arithmetic::power::lemma_pow_adds(2, 28, 28);
    assert(pow(2, 56) == 0x100000000000000) by (nonlinear_arith)
        requires
            pow(2, 56) == pow(2, 28) * pow(2, 28),
            pow(2, 28) == 0x10000000,
            pow(2, 28) == 0x10000000,
    ;
    assert(pow(2, 29) == 0x20000000);
    vstd::arithmetic::power::lemma_pow_adds(2, 28, 29);
    assert(pow(2, 57) == 0x200000000000000) by (nonlinear_arith)
        requires
            pow(2, 57) == pow(2, 28) * pow(2, 29),
            pow(2, 28) == 0x10000000,
            pow(2, 29) == 0x20000000,
    ;
    vstd::arithmetic::power::lemma_pow_adds(2, 56, 57);
    assert(pow(2, 113) == 0x20000000000000000000000000000) by (nonlinear_arith)
        requires
            pow(2, 113) == pow(2, 56) * pow(2, 57),
            pow(2, 56) == 0x100000000000000,
            pow(2, 57) == 0x200000000000000,
    ;
    assert(odd_part(20) == 5);
    assert(pow(5, 48) == 0xaf298d050e4395d69670b12b7f41);
    assert(pow(5, 49) == 0x36bcfc1194751ed30f03375d97c45);
    assert(pow(20, 26) == 0x14adf4b7320334b90000000000000);
    assert(pow(20, 27) == 0x19d971e4fe8401e740000000000000);
}

/// The limits of the quad format in the radix 21.
proof fn lemma_quad_limits_21()
    ensures
        is_exponent_limit(113, -16494, 16383, 21, -25, 25),
        is_mantissa_limit(113, 21, 25),
{
    reveal_with_fuel(pow, 52);
    reveal_with_fuel(odd_part, 6);
    assert(pow(2, 28) == 0x10000000);
    vstd::arithmetic::power::lemma_pow_adds(2, 28, 28);
    assert(pow(2, 56) == 0x100000000000000) by (nonlinear_arith)
        requires
            pow(2, 56) == pow(2, 28) * pow(2, 28),
            pow(2, 28) == 0x10000000,
            pow(2, 28) == 0x10000000,
    ;
    assert(pow(2, 29) == 0x20000000);
    vstd::arithmetic::power::lemma_pow_adds(2, 28, 29);
    assert(pow(2, 57) == 0x200000000000000) by (nonlinear_arith)
        requires
            pow(2, 57) == pow(2, 28) * pow(2, 29),
            pow(2, 28) == 0x10000000,
            pow(2, 29) == 0x20000000,
    ;
    vstd::arithmetic::power::lemma_pow_adds(2, 56, 57);
    assert(pow(2, 113) == 0x20000000000000000000000000000) by (nonlinear_arith)
        requires
            pow(2, 113) == pow(2, 56) * pow(2, 57),
            pow(2, 56) == 0x100000000000000,
            pow(2, 57) == 0x200000000000000,
    ;
    assert(odd_part(21) == 21);
    assert(pow(21, 25) == 0x3805c5623c235c464b5a91556bb5);
    assert(pow(21, 26) == 0x49879310eeee691c42e6dec01d5d9);
}

/// The limits of the quad format in the radix 22.
proof fn lemma_quad_limits_22()
    ensures
        is_exponent_limit(113, -16494, 16383, 22, -32, 32),
        is_mantissa_limit(113, 22, 25),
{
    reveal_with_fuel(pow, 52);
    reveal_with_fuel(odd_part, 6);
    assert(pow(2, 28) == 0x10000000);
    vstd::arithmetic::power::lemma_pow_adds(2, 28, 28);
    assert(pow(2, 56) == 0x100000000000000) by (nonlinear_arith)
        requires
            pow(2, 56) == pow(2, 28) * pow(2, 28),
            pow(2, 28) == 0x10000000,
            pow(2, 28) == 0x10000000,
    ;
    assert(pow(2, 29) == 0x20000000);
    vstd::arithmetic::power::lemma_pow_adds(2, 28, 29);
    assert(pow(2, 57) == 0x200000000000000) by (nonlinear_arith)
        requires
            pow(2, 57) == pow(2, 28) * pow(2, 29),
            pow(2, 28) == 0x10000000,
            pow(2, 29) == 0x20000000,
    ;
    vstd::arithmetic::power::lemma_pow_adds(2, 56, 57);
    assert(pow(2, 113) == 0x20000000000000000000000000000) by (nonlinear_arith)
        requires
            pow(2, 113) == pow(2, 56) * pow(2, 57),
            pow(2, 56) == 0x100000000000000,
            pow(2, 57) == 0x200000000000000,
    ;
    assert(odd_part(22) == 11);
    assert(pow(11, 32) == 0x681955362721ce00ddaaab61c581);
    assert(pow(11, 33) == 0x47916a953ae73da0986555d337c8b);
    assert(pow(22, 25) == 0xb33ec3b8d9239d121956d6000000);
    assert(pow(22, 26) == 0xf6764d1e2a90f7f8e2d7664000000);
}

/// The limits of the quad format in the radix 23.
proof fn lemma_quad_limits_23()
    ensures
        is_exponent_limit(113, -16494, 16383, 23, -24, 24),
        is_mantissa_limit(113, 23, 24),
{
    reveal_with_fuel(pow, 52);
    reveal_with_fuel(odd_part, 6);
    assert(pow(2, 28) == 0x10000000);
    vstd::arithmetic::power::lemma_pow_adds(2, 28, 28);
    assert(pow(2, 56) == 0x100000000000000) by (nonlinear_arith)
        requires
            pow(2, 56) == pow(2, 28) * pow(2, 28),
            pow(2, 28) == 0x10000000,
            pow(2, 28) == 0x10000000,
    ;
    assert(pow(2, 29) == 0x20000000);
    vstd::arithmetic::power::lemma_pow_adds(2, 28, 29);
    assert(pow(2, 57) == 0x200000000000000) by (nonlinear_arith)
        requires
            pow(2, 57) == pow(2, 28) * pow(2, 29),
            pow(2, 28) == 0x10000000,
            pow(2, 29) == 0x20000000,
    ;
    vstd::arithmetic::power::lemma_pow_adds(2, 56, 57);
    assert(pow(2, 113) == 0x20000000000000000000000000000) by (nonlinear_arith)
        requires
            pow(2, 113) == pow(2, 56) * pow(2, 57),
            pow(2, 56) == 0x100000000000000,
            pow(2, 57) == 0x200000000000000,
    ;
    assert(odd_part(23) == 23);
    assert(pow(23, 24) == 0x17ad9de924458933ffd92a3d9ac1);
    assert(pow(23, 25) == 0x220992ff2423f53abfc82cb88e757);
}

/// The limits of the quad format in the radix 24.
proof fn lemma_quad_limits_24()
    ensures
        is_exponent_limit(113, -16494, 16383, 24, -71, 71),
        is_mantissa_limit(113, 24, 24),
{
    reveal_with_fuel(pow, 52);
    reveal_with_fuel(odd_part, 6);
    assert(pow(2, 28) == 0x10000000);
    vstd::arithmetic::power::lemma_pow_adds(2, 28, 28);
    assert(pow(2, 56) == 0x100000000000000) by (nonlinear_arith)
        requires
            pow(2, 56) == pow(2, 28) * pow(2, 28),
            pow(2, 28) == 0x10000000,
            pow(2, 28) == 0x10000000,
    ;
    assert(pow(2, 29) == 0x20000000);
    vstd::arithmetic::power::lemma_pow_adds(2, 28, 29);
    assert(pow(2, 57) == 0x200000000000000) by (nonlinear_arith)
        requires
            pow(2, 57) == pow(2, 28) * pow(2, 29),
            pow(2, 28) == 0x10000000,
            pow(2, 29) == 0x20000000,
    ;
    vstd::arithmetic::power::lemma_pow_adds(2, 56, 57);
    assert(pow(2, 113) == 0x20000000000000000000000000000) by (nonlinear_arith)
        requires
            pow(2, 113) == pow(2, 56) * pow(2, 57),
            pow(2, 56) == 0x100000000000000,
            pow(2, 57) == 0x200000000000000,
    ;
    assert(odd_part(24) == 3);
    assert(pow(3, 35) == 0xb1bf6cd930979b);
    assert(pow(3, 36) == 0x2153e468b91c6d1);
    vstd::arithmetic::power::lemma_pow_adds(3, 35, 36);
    assert(pow(3, 71) == 0x1723ecaf7ceb05f77dd11edb8a78b) by (nonlinear_arith)
        requires
            pow(3, 71) == pow(3, 35) * pow(3, 36),
            pow(3, 35) == 0xb1bf6cd930979b,
            pow(3, 36) == 0x2153e468b91c6d1,
    ;
    vstd::arithmetic::power::lemma_pow_adds(3, 36, 36);
    assert(pow(3, 72) == 0x456bc60e76c111e679735c929f6a1) by (nonlinear_arith)
        requires
            pow(3, 72) == pow(3, 36) * pow(3, 36),
            pow(3, 36) == 0x2153e468b91c6d1,
            pow(3, 36) == 0x2153e468b91c6d1,
    ;
    assert(pow(24, 24) == 0x41c21cb8e1000000000000000000);
    assert(pow(24, 25) == 0x62a32b15518000000000000000000);
}

/// The limits of the quad format in the radix 25.
proof fn lemma_quad_limits_25()
    ensures
        is_exponent_limit(113, -16494, 16383, 25, -24, 24),
        is_mantissa_limit(113, 25, 24),
{
    reveal_with_fuel(pow, 52);
    reveal_with_fuel(odd_part, 6);
    assert(pow(2, 28) == 0x10000000);
    vstd::arithmetic::power::lemma_pow_adds(2, 28, 28);
    assert(pow(2, 56) == 0x100000000000000) by (nonlinear_arith)
        requires
            pow(2, 56) == pow(2, 28) * pow(2, 28),
            pow(2, 28) == 0x10000000,
            pow(2, 28) == 0x10000000,
    ;
    assert(pow(2, 29) == 0x20000000);
    vstd::arithmetic::power::lemma_pow_adds(2, 28, 29);
    assert(pow(2, 57) == 0x200000000000000) by (nonlinear_arith)
        requires
            pow(2, 57) == pow(2, 28) * pow(2, 29),
            pow(2, 28) == 0x10000000,
            pow(2, 29) == 0x20000000,
    ;
    vstd::arithmetic::power::lemma_pow_adds(2, 56, 57);
    assert(pow(2, 113) == 0x20000000000000000000000000000) by (nonlinear_arith)
        requires
            pow(2, 113) == pow(2, 56) * pow(2, 57),
            pow(2, 56) == 0x100000000000000,
            pow(2, 57) == 0x200000000000000,
    ;
    assert(odd_part(25) == 25);
    assert(pow(25, 24) == 0xaf298d050e4395d69670b12b7f41);
    assert(pow(25, 25) == 0x111b0ec57e6499a1f4b1014d3f6d59);
}

/// The limits of the quad format in the radix 26.
proof fn lemma_quad_limits_26()
    ensures
        is_exponent_limit(113, -16494, 16383, 26, -30, 30),
        is_mantissa_limit(113, 26, 24),
{
    reveal_with_fuel(pow, 52);
    reveal_with_fuel(odd_part, 6);
    assert(pow(2, 28) == 0x10000000);
    vstd::arithmetic::power::lemma_pow_adds(2, 28, 28);
    assert(pow(2, 56) == 0x100000000000000) by (nonlinear_arith)
        requires
            pow(2, 56) == pow(2, 28) * pow(2, 28),
            pow(2, 28) == 0x10000000,
            pow(2, 28) == 0x10000000,
    ;
    assert(pow(2, 29) == 0x20000000);
    vstd::arithmetic::power::lemma_pow_adds(2, 28, 29);
    assert(pow(2, 57) == 0x200000000000000) by (nonlinear_arith)
        requires
            pow(2, 57) == pow(2, 28) * pow(2, 29),
            pow(2, 28) == 0x10000000,
            pow(2, 29) == 0x20000000,
    ;
    vstd::arithmetic::power::lemma_pow_adds(2, 56, 57);
    assert(pow(2, 113) == 0x20000000000000000000000000000) by (nonlinear_arith)
        requires
            pow(2, 113) == pow(2, 56) * pow(2, 57),
            pow(2, 56) == 0x100000000000000,
            pow(2, 57) == 0x200000000000000,
    ;
    assert(odd_part(26) == 13);
    assert(pow(13, 30) == 0x812cfe81668f644c573270b90819);
    assert(pow(13, 31) == 0x68f48ec92354817e06d8fb9656945);
    assert(pow(26, 24) == 0x1c0fe88b92c79cf80e9bc61000000);
    assert(pow(26, 25) == 0x2d99d9e2ce845f1317bd21da000000);
}

/// The limits of the quad format in the radix 27.
proof fn lemma_quad_limits_27()
    ensures
        is_exponent_limit(113, -16494, 16383, 27, -23, 23),
        is_mantissa_limit(113, 27, 23),
{
    reveal_with_fuel(pow, 52);
    reveal_with_fuel(odd_part, 6);
    assert(pow(2, 28) == 0x10000000);
    vstd::arithmetic::power::lemma_pow_adds(2, 28, 28);
    assert(pow(2, 56) == 0x100000000000000) by (nonlinear_arith)
        requires
            pow(2, 56) == pow(2, 28) * pow(2, 28),
            pow(2, 28) == 0x10000000,
            pow(2, 28) == 0x10000000,
    ;
    assert(pow(2, 29) == 0x20000000);
    vstd::arithmetic::power::lemma_pow_adds(2, 28, 29);
    assert(pow(2, 57) == 0x200000000000000) by (nonlinear_arith)
        requires
            pow(2, 57) == pow(2, 28) * pow(2, 29),
            pow(2, 28) == 0x10000000,
            pow(2, 29) == 0x20000000,
    ;
    vstd::arithmetic::power::lemma_pow_adds(2, 56, 57);
    assert(pow(2, 113) == 0x20000000000000000000000000000) by (nonlinear_arith)
        requires
            pow(2, 113) == pow(2, 56) * pow(2, 57),
            pow(2, 56) == 0x100000000000000,
            pow(2, 57) == 0x200000000000000,
    ;
    assert(odd_part(27) == 27);
    assert(pow(27, 23) == 0x29236be2a5300a9b8a57534d67f3);
    assert(pow(27, 24) == 0x456bc60e76c111e679735c929f6a1);
}

/// The limits of the quad format in the radix 28.
proof fn lemma_quad_limits_28()
    ensures
        is_exponent_limit(113, -16494, 16383, 28, -40, 40),
        is_mantissa_limit(113, 28, 23),
{
    reveal_with_fuel(pow, 52);
    reveal_with_fuel(odd_part, 6);
    assert(pow(2, 28) == 0x10000000);
    vstd::arithmetic::power::lemma_pow_adds(2, 28, 28);
    assert(pow(2, 56) == 0x100000000000000) by (nonlinear_arith)
        requires
            pow(2, 56) == pow(2, 28) * pow(2, 28),
            pow(2, 28) == 0x10000000,
            pow(2, 28) == 0x10000000,
    ;
    assert(pow(2, 29) == 0x20000000);
    vstd::arithmetic::power::lemma_pow_adds(2, 28, 29);
    assert(pow(2, 57) == 0x200000000000000) by (nonlinear_arith)
        requires
            pow(2, 57) == pow(2, 28) * pow(2, 29),
            pow(2, 28) == 0x10000000,
            pow(2, 29) == 0x20000000,
    ;
    vstd::arithmetic::power::lemma_pow_adds(2, 56, 57);
    assert(pow(2, 113) == 0x20000000000000000000000000000) by (nonlinear_arith)
        requires
            pow(2, 113) == pow(2, 56) * pow(2, 57),
            pow(2, 56) == 0x100000000000000,
            pow(2, 57) == 0x200000000000000,
    ;
    assert(odd_part(28) == 7);
    assert(pow(7, 40) == 0x139e862f1509ba9c74345f78771c1);
    assert(pow(7, 41) == 0x8955ab4993441a472d6e9c4b41c47);
    assert(pow(28, 23) == 0x5ef454accc3c29ddc00000000000);
    assert(pow(28, 24) == 0xa62b942e656949441000000000000);
}

/// The limits of the quad format in the radix 29.
proof fn lemma_quad_limits_29()
    ensures
        is_exponent_limit(113, -16494, 16383, 29, -23, 23),
        is_mantissa_limit(113, 29, 23),
{
    reveal_with_fuel(pow, 52);
    reveal_with_fuel(odd_part, 6);
    assert(pow(2, 28) == 0x10000000);
    vstd::arithmetic::power::lemma_pow_adds(2, 28, 28);
    assert(pow(2, 56) == 0x100000000000000) by (nonlinear_arith)
        requires
            pow(2, 56) == pow(2, 28) * pow(2, 28),
            pow(2, 28) == 0x10000000,
            pow(2, 28) == 0x10000000,
    ;
    assert(pow(2, 29) == 0x20000000);
    vstd::arithmetic::power::lemma_pow_adds(2, 28, 29);
    assert(pow(2, 57) == 0x200000000000000) by (nonlinear_arith)
        requires
            pow(2, 57) == pow(2, 28) * pow(2, 29),
            pow(2, 28) == 0x10000000,
            pow(2, 29) == 0x20000000,
    ;
    vstd::arithmetic::power::lemma_pow_adds(2, 56, 57);
    assert(pow(2, 113) == 0x20000000000000000000000000000) by (nonlinear_arith)
        requires
            pow(2, 113) == pow(2, 56) * pow(2, 57),
            pow(2, 56) == 0x100000000000000,
            pow(2, 57) == 0x200000000000000,
    ;
    assert(odd_part(29) == 29);
    assert(pow(29, 23) == 0xd4d4ace7873f21038c00f73c4395);
    assert(pow(29, 24) == 0x181c17963a5226bd66dc1c01d3a7e1);
}

/// The limits of the quad format in the radix 30.
proof fn lemma_quad_limits_30()
    ensures
        is_exponent_limit(113, -16494, 16383, 30, -28, 28),
        is_mantissa_limit(113, 30, 23),
{
    reveal_with_fuel(pow, 52);
    reveal_with_fuel(odd_part, 6);
    assert(pow(2, 28) == 0x10000000);
    vstd::arithmetic::power::lemma_pow_adds(2, 28, 28);
    assert(pow(2, 56) == 0x100000000000000) by (nonlinear_arith)
        requires
            pow(2, 56) == pow(2, 28) * pow(2, 28),
            pow(2, 28) == 0x10000000,
            pow(2, 28) == 0x10000000,
    ;
    assert(pow(2, 29) == 0x20000000);
    vstd::arithmetic::power::lemma_pow_adds(2, 28, 29);
    assert(pow(2, 57) == 0x200000000000000) by (nonlinear_arith)
        requires
            pow(2, 57) == pow(2, 28) * pow(2, 29),
            pow(2, 28) == 0x10000000,
            pow(2, 29) == 0x20000000,
    ;
    vstd::arithmetic::power::lemma_pow_adds(2, 56, 57);
    assert(pow(2, 113) == 0x20000000000000000000000000000) by (nonlinear_arith)
        requires
            pow(2, 113) == pow(2, 56) * pow(2, 57),
            pow(2, 56) == 0x100000000000000,
            pow(2, 57) == 0x200000000000000,
    ;
    assert(odd_part(30) == 15);
    assert(pow(15, 28) == 0x2a049db9edbccb18f65e74afb841);
    assert(pow(15, 29) == 0x276453de4ee0fe6766f88d64bcbcf);
    assert(pow(30, 23) == 0x1d02965b0fb0fb708f35a37800000);
    assert(pow(30, 24) == 0x3664d9eabd6bd7730c849281000000);
}

/// The limits of the quad format in the radix 31.
proof fn lemma_quad_limits_31()
    ensures
        is_exponent_limit(113, -16494, 16383, 31, -22, 22),
        is_mantissa_limit(113, 31, 22),
{
    reveal_with_fuel(pow, 52);
    reveal_with_fuel(odd_part, 6);
    assert(pow(2, 28) == 0x10000000);
    vstd::arithmetic::power::lemma_pow_adds(2, 28, 28);
    assert(pow(2, 56) == 0x100000000000000) by (nonlinear_arith)
        requires
            pow(2, 56) == pow(2, 28) * pow(2, 28),
            pow(2, 28) == 0x10000000,
            pow(2, 28) == 0x10000000,
    ;
    assert(pow(2, 29) == 0x20000000);
    vstd::arithmetic::power::lemma_pow_adds(2, 28, 29);
    assert(pow(2, 57) == 0x200000000000000) by (nonlinear_arith)
        requires
            pow(2, 57) == pow(2, 28) * pow(2, 29),
            pow(2, 28) == 0x10000000,
            pow(2, 29) == 0x20000000,
    ;
    vstd::arithmetic::power::lemma_pow_adds(2, 56, 57);
    assert(pow(2, 113) == 0x20000000000000000000000000000) by (nonlinear_arith)
        requires
            pow(2, 113) == pow(2, 56) * pow(2, 57),
            pow(2, 56) == 0x100000000000000,
            pow(2, 57) == 0x200000000000000,
    ;
    assert(odd_part(31) == 31);
    assert(pow(31, 22) == 0x1fd4800d310c1dc310914a319941);
    assert(pow(31, 23) == 0x3dabb8198f0779a9f0197fc018edf);
}

/// The limits of the quad format in the radix 32.
proof fn lemma_quad_limits_32()
    ensures
        is_exponent_limit(113, -16494, 16383, 32, -3298, 3276),
        is_mantissa_limit(113, 32, 22),
{
    reveal_with_fuel(pow, 52);
    reveal_with_fuel(odd_part, 6);
    assert(pow(2, 28) == 0x10000000);
    vstd::arithmetic::power::lemma_pow_adds(2, 28, 28);
    assert(pow(2, 56) == 0x100000000000000) by (nonlinear_arith)
        requires
            pow(2, 56) == pow(2, 28) * pow(2, 28),
            pow(2, 28) == 0x10000000,
            pow(2, 28) == 0x10000000,
    ;
    assert(pow(2, 29) == 0x20000000);
    vstd::arithmetic::power::lemma_pow_adds(2, 28, 29);
    assert(pow(2, 57) == 0x200000000000000) by (nonlinear_arith)
        requires
            pow(2, 57) == pow(2, 28) * pow(2, 29),
            pow(2, 28) == 0x10000000,
            pow(2, 29) == 0x20000000,
    ;
    vstd::arithmetic::power::lemma_pow_adds(2, 56, 57);
    assert(pow(2, 113) == 0x20000000000000000000000000000) by (nonlinear_arith)
        requires
            pow(2, 113) == pow(2, 56) * pow(2, 57),
            pow(2, 56) == 0x100000000000000,
            pow(2, 57) == 0x200000000000000,
    ;
    assert(pow(32, 22) == 0x4000000000000000000000000000);
    assert(pow(32, 23) == 0x80000000000000000000000000000);
}

/// The limits of the quad format in the radix 33.
proof fn lemma_quad_limits_33()
    ensures
        is_exponent_limit(113, -16494, 16383, 33, -22, 22),
        is_mantissa_limit(113, 33, 22),
{
    reveal_with_fuel(pow, 52);
    reveal_with_fuel(odd_part, 6);
    assert(pow(2, 28) == 0x10000000);
    vstd::arithmetic::power::lemma_pow_adds(2, 28, 28);
    assert(pow(2, 56) == 0x100000000000000) by (nonlinear_arith)
        requires
            pow(2, 56) == pow(2, 28) * pow(2, 28),
            pow(2, 28) == 0x10000000,
            pow(2, 28) == 0x10000000,
    ;
    assert(pow(2, 29) == 0x20000000);
    vstd::arithmetic::power::lemma_pow_adds(2, 28, 29);
    assert(pow(2, 57) == 0x200000000000000) by (nonlinear_arith)
        requires
            pow(2, 57) == pow(2, 28) * pow(2, 29),
            pow(2, 28) == 0x10000000,
            pow(2, 29) == 0x20000000,
    ;
    vstd::arithmetic::power::lemma_pow_adds(2, 56, 57);
    assert(pow(2, 113) == 0x20000000000000000000000000000) by (nonlinear_arith)
        requires
            pow(2, 113) == pow(2, 56) * pow(2, 57),
            pow(2, 56) == 0x100000000000000,
            pow(2, 57) == 0x200000000000000,
    ;
    assert(odd_part(33) == 33);
    assert(pow(33, 22) == 0x7df2614e98019bafb52cc8359ec1);
    assert(pow(33, 23) == 0x103c3e8b21983511a65ac5cee976e1);
}

/// The limits of the quad format in the radix 34.
proof fn lemma_quad_limits_34()
    ensures
        is_exponent_limit(113, -16494, 16383, 34, -27, 27),
        is_mantissa_limit(113, 34, 22),
{
    reveal_with_fuel(pow, 52);
    reveal_with_fuel(odd_part, 6);
    assert(pow(2, 28) == 0x10000000);
    vstd::arithmetic::power::lemma_pow_adds(2, 28, 28);
    assert(pow(2, 56) == 0x100000000000000) by (nonlinear_arith)
        requires
            pow(2, 56) == pow(2, 28) * pow(2, 28),
            pow(2, 28) == 0x10000000,
            pow(2, 28) == 0x10000000,
    ;
    assert(pow(2, 29) == 0x20000000);
    vstd::arithmetic::power::lemma_pow_adds(2, 28, 29);
    assert(pow(2, 57) == 0x200000000000000) by (nonlinear_arith)
        requires
            pow(2, 57) == pow(2, 28) * pow(2, 29),
            pow(2, 28) == 0x10000000,
            pow(2, 29) == 0x20000000,
    ;
    vstd::arithmetic::power::lemma_pow_adds(2, 56, 57);
    assert(pow(2, 113) == 0x20000000000000000000000000000) by (nonlinear_arith)
        requires
            pow(2, 113) == pow(2, 56) * pow(2, 57),
            pow(2, 56) == 0x100000000000000,
            pow(2, 57) == 0x200000000000000,
    ;
    assert(odd_part(34) == 17);
    assert(pow(17, 27) == 0x523979e9087a3ddda92124e630b1);
    assert(pow(17, 28) == 0x575d11879901e1bb83b3373493bc1);
    assert(pow(34, 22) == 0xf2e4d747d2fca9bff50a18400000);
    assert(pow(34, 23) == 0x204264978a058e8b7e8b5738800000);
}

/// The limits of the quad format in the radix 35.
proof fn lemma_quad_limits_35()
    ensures
        is_exponent_limit(113, -16494, 16383, 35, -22, 22),
        is_mantissa_limit(113, 35, 22),
{
    reveal_with_fuel(pow, 52);
    reveal_with_fuel(odd_part, 6);
    assert(pow(2, 28) == 0x10000000);
    vstd::arithmetic::power::lemma_pow_adds(2, 28, 28);
    assert(pow(2, 56) == 0x100000000000000) by (nonlinear_arith)
        requires
            pow(2, 56) == pow(2, 28) * pow(2, 28),
            pow(2, 28) == 0x10000000,
            pow(2, 28) == 0x10000000,
    ;
    assert(pow(2, 29) == 0x20000000);
    vstd::arithmetic::power::lemma_pow_adds(2, 28, 29);
    assert(pow(2, 57) == 0x200000000000000) by (nonlinear_arith)
        requires
            pow(2, 57) == pow(2, 28) * pow(2, 29),
            pow(2, 28) == 0x10000000,
            pow(2, 29) == 0x20000000,
    ;
    vstd::arithmetic::power::lemma_pow_adds(2, 56, 57);
    assert(pow(2, 113) == 0x20000000000000000000000000000) by (nonlinear_arith)
        requires
            pow(2, 113) == pow(2, 56) * pow(2, 57),
            pow(2, 56) == 0x100000000000000,
            pow(2, 57) == 0x200000000000000,
    ;
    assert(odd_part(35) == 35);
    assert(pow(35, 22) == 0x1cb98e5bd17e6093b9d1a733dc059);
    assert(pow(35, 23) == 0x3ed5e768da447343267a9dc1714c2b);
}

/// The limits of the quad format in the radix 36.
proof fn lemma_quad_limits_36()
    ensures
        is_exponent_limit(113, -16494, 16383, 36, -35, 35),
        is_mantissa_limit(113, 36, 21),
{
    reveal_with_fuel(pow, 52);
    reveal_with_fuel(odd_part, 6);
    assert(pow(2, 28) == 0x10000000);
    vstd::arithmetic::power::lemma_pow_adds(2, 28, 28);
    assert(pow(2, 56) == 0x100000000000000) by (nonlinear_arith)
        requires
            pow(2, 56) == pow(2, 28) * pow(2, 28),
            pow(2, 28) == 0x10000000,
            pow(2, 28) == 0x10000000,
    ;
    assert(pow(2, 29) == 0x20000000);
    vstd::arithmetic::power::lemma_pow_adds(2, 28, 29);
    assert(pow(2, 57) == 0x200000000000000) by (nonlinear_arith)
        requires
            pow(2, 57) == pow(2, 28) * pow(2, 29),
            pow(2, 28) == 0x10000000,
            pow(2, 29) == 0x20000000,
    ;
    vstd::arithmetic::power::lemma_pow_adds(2, 56, 57);
    assert(pow(2, 113) == 0x20000000000000000000000000000) by (nonlinear_arith)
        requires
            pow(2, 113) == pow(2, 56) * pow(2, 57),
            pow(2, 56) == 0x100000000000000,
            pow(2, 57) == 0x200000000000000,
    ;
    assert(odd_part(36) == 9);
    assert(pow(9, 35) == 0x7b6a43a7ef901fd29f05f9e837d9);
    assert(pow(9, 36) == 0x456bc60e76c111e679735c929f6a1);
    assert(pow(36, 21) == 0x17b9f95b8dc87ca4a40000000000);
    assert(pow(36, 22) == 0x3562710dff0318727100000000000);
}

/// The entries of the table of exponent limits of the quad format are the limits.
pub proof fn lemma_quad_exponent_limits()
    ensures
        is_exponent_limit(113, -16494, 16383, 2, -16494, 16383),
        is_exponent_limit(113, -16494, 16383, 3, -71, 71),
        is_exponent_limit(113, -16494, 16383, 4, -8247, 8191),
        is_exponent_limit(113, -16494, 16383, 5, -48, 48),
        is_exponent_limit(113, -16494, 16383, 6, -71, 71),
        is_exponent_limit(113, -16494, 16383, 7, -40, 40),
        is_exponent_limit(113, -16494, 16383, 8, -5498, 5461),
        is_exponent_limit(113, -16494, 16383, 9, -35, 35),
        is_exponent_limit(113, -16494, 16383, 10, -48, 48),
        is_exponent_limit(113, -16494, 16383, 11, -32, 32),
        is_exponent_limit(113, -16494, 16383, 12, -71, 71),
        is_exponent_limit(113, -16494, 16383, 13, -30, 30),
        is_exponent_limit(113, -16494, 16383, 14, -40, 40),
        is_exponent_limit(113, -16494, 16383, 15, -28, 28),
        is_exponent_limit(113, -16494, 16383, 16, -4123, 4095),
        is_exponent_limit(113, -16494, 16383, 17, -27, 27),
        is_exponent_limit(113, -16494, 16383, 18, -35, 35),
        is_exponent_limit(113, -16494, 16383, 19, -26, 26),
        is_exponent_limit(113, -16494, 16383, 20, -48, 48),
        is_exponent_limit(113, -16494, 16383, 21, -25, 25),
        is_exponent_limit(113, -16494, 16383, 22, -32, 32),
        is_exponent_limit(113, -16494, 16383, 23, -24, 24),
        is_exponent_limit(113, -16494, 16383, 24, -71, 71),
        is_exponent_limit(113, -16494, 16383, 25, -24, 24),
        is_exponent_limit(113, -16494, 16383, 26, -30, 30),
        is_exponent_limit(113, -16494, 16383, 27, -23, 23),
        is_exponent_limit(113, -16494, 16383, 28, -40, 40),
        is_exponent_limit(113, -16494, 16383, 29, -23, 23),
        is_exponent_limit(113, -16494, 16383, 30, -28, 28),
        is_exponent_limit(113, -16494, 16383, 31, -22, 22),
        is_exponent_limit(113, -16494, 16383, 32, -3298, 3276),
        is_exponent_limit(113, -16494, 16383, 33, -22, 22),
        is_exponent_limit(113, -16494, 16383, 34, -27, 27),
        is_exponent_limit(113, -16494, 16383, 35, -22, 22),
        is_exponent_limit(113, -16494, 16383, 36, -35, 35),
{
    lemma_quad_limits_2();
    lemma_quad_limits_3();
    lemma_quad_limits_4();
    lemma_quad_limits_5();
    lemma_quad_limits_6();
    lemma_quad_limits_7();
    lemma_quad_limits_8();
    lemma_quad_limits_9();
    lemma_quad_limits_10();
    lemma_quad_limits_11();
    lemma_quad_limits_12();
    lemma_quad_limits_13();
    lemma_quad_limits_14();
    lemma_quad_limits_15();
    lemma_quad_limits_16();
    lemma_quad_limits_17();
    lemma_quad_limits_18();
    lemma_quad_limits_19();
    lemma_quad_limits_20();
    lemma_quad_limits_21();
    lemma_quad_limits_22();
    lemma_quad_limits_23();
    lemma_quad_limits_24();
    lemma_quad_limits_25();
    lemma_quad_limits_26();
    lemma_quad_limits_27();
    lemma_quad_limits_28();
    lemma_quad_limits_29();
    lemma_quad_limits_30();
    lemma_quad_limits_31();
    lemma_quad_limits_32();
    lemma_quad_limits_33();
    lemma_quad_limits_34();
    lemma_quad_limits_35();
    lemma_quad_limits_36();
}

/// The entries of the table of mantissa limits of the quad format are the limits.
pub proof fn lemma_quad_mantissa_limits()
    ensures
        is_mantissa_limit(113, 2, 113),
        is_mantissa_limit(113, 3, 71),
        is_mantissa_limit(113, 4, 56),
        is_mantissa_limit(113, 5, 48),
        is_mantissa_limit(113, 6, 43),
        is_mantissa_limit(113, 7, 40),
        is_mantissa_limit(113, 8, 37),
        is_mantissa_limit(113, 9, 35),
        is_mantissa_limit(113, 10, 34),
        is_mantissa_limit(113, 11, 32),
        is_mantissa_limit(113, 12, 31),
        is_mantissa_limit(113, 13, 30),
        is_mantissa_limit(113, 14, 29),
        is_mantissa_limit(113, 15, 28),
        is_mantissa_limit(113, 16, 28),
        is_mantissa_limit(113, 17, 27),
        is_mantissa_limit(113, 18, 27),
        is_mantissa_limit(113, 19, 26),
        is_mantissa_limit(113, 20, 26),
        is_mantissa_limit(113, 21, 25),
        is_mantissa_limit(113, 22, 25),
        is_mantissa_limit(113, 23, 24),
        is_mantissa_limit(113, 24, 24),
        is_mantissa_limit(113, 25, 24),
        is_mantissa_limit(113, 26, 24),
        is_mantissa_limit(113, 27, 23),
        is_mantissa_limit(113, 28, 23),
        is_mantissa_limit(113, 29, 23),
        is_mantissa_limit(113, 30, 23),
        is_mantissa_limit(113, 31, 22),
        is_mantissa_limit(113, 32, 22),
        is_mantissa_limit(113, 33, 22),
        is_mantissa_limit(113, 34, 22),
        is_mantissa_limit(113, 35, 22),
        is_mantissa_limit(113, 36, 21),
{
    lemma_quad_limits_2();
    lemma_quad_limits_3();
    lemma_quad_limits_4();
    lemma_quad_limits_5();
    lemma_quad_limits_6();
    lemma_quad_limits_7();
    lemma_quad_limits_8();
    lemma_quad_limits_9();
    lemma_quad_limits_10();
    lemma_quad_limits_11();
    lemma_quad_limits_12();
    lemma_quad_limits_13();
    lemma_quad_limits_14();
    lemma_quad_limits_15();
    lemma_quad_limits_16();
    lemma_quad_limits_17();
    lemma_quad_limits_18();
    lemma_quad_limits_19();
    lemma_quad_limits_20();
    lemma_quad_limits_21();
    lemma_quad_limits_22();
    lemma_quad_limits_23();
    lemma_quad_limits_24();
    lemma_quad_limits_25();
    lemma_quad_limits_26();
    lemma_quad_limits_27();
    lemma_quad_limits_28();
    lemma_quad_limits_29();
    lemma_quad_limits_30();
    lemma_quad_limits_31();
    lemma_quad_limits_32();
    lemma_quad_limits_33();
    lemma_quad_limits_34();
    lemma_quad_limits_35();
    lemma_quad_limits_36();
}

impl ExactExponent for Float128 {
    open spec fn spec_precision() -> nat {
        113
    }

    open spec fn spec_least_exponent() -> int {
        -16494
    }

    open spec fn spec_greatest_exponent() -> int {
        16383
    }

    open spec fn spec_exponent_limit(radix: u32) -> (int, int) {
        spec_quad_exponent_limit(radix)
    }

    fn exponent_limit(radix: u32) -> (r: (i32, i32)) {
        proof {
            lemma_quad_exponent_limits();
        }
        match radix {
            2 => (-16494, 16383),
            3 => (-71, 71),
            4 => (-8247, 8191),
            5 => (-48, 48),
            6 => (-71, 71),
            7 => (-40, 40),
            8 => (-5498, 5461),
            9 => (-35, 35),
            10 => (-48, 48),
            11 => (-32, 32),
            12 => (-71, 71),
            13 => (-30, 30),
            14 => (-40, 40),
            15 => (-28, 28),
            16 => (-4123, 4095),
            17 => (-27, 27),
            18 => (-35, 35),
            19 => (-26, 26),
            20 => (-48, 48),
            21 => (-25, 25),
            22 => (-32, 32),
            23 => (-24, 24),
            24 => (-71, 71),
            25 => (-24, 24),
            26 => (-30, 30),
            27 => (-23, 23),
            28 => (-40, 40),
            29 => (-23, 23),
            30 => (-28, 28),
            31 => (-22, 22),
            32 => (-3298, 3276),
            33 => (-22, 22),
            34 => (-27, 27),
            35 => (-22, 22),
            _ => (-35, 35),
        }
    }

    fn mantissa_limit(radix: u32) -> (r: i32) {
        proof {
            lemma_quad_mantissa_limits();
        }
        match radix {
            2 => 113,
            3 => 71,
            4 => 56,
            5 => 48,
            6 => 43,
            7 => 40,
            8 => 37,
            9 => 35,
            10 => 34,
            11 => 32,
            12 => 31,
            13 => 30,
            14 => 29,
            15 => 28,
            16 => 28,
            17 => 27,
            18 => 27,
            19 => 26,
            20 => 26,
            21 => 25,
            22 => 25,
            23 => 24,
            24 => 24,
            25 => 24,
            26 => 24,
            27 => 23,
            28 => 23,
            29 => 23,
            30 => 23,
            31 => 22,
            32 => 22,
            33 => 22,
            34 => 22,
            35 => 22,
            _ => 21,
        }
    }
}

} // verus!

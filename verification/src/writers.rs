//! Writing the integer types.

use vstd::arithmetic::power::pow;
use vstd::arithmetic::power2::pow2;
use vstd::prelude::*;

use crate::digit::is_radix;
use crate::itoa::{digits_of, integer_text, lemma_digits_bound, write_integer};
use crate::options::WriteIntegerOptions;
use crate::traits::ToLexical;

verus! {

/// A number below two to the `bits` has at most `bits` digits in any
/// radix.
pub proof fn lemma_binary_size(n: nat, radix: u32, bits: nat)
    requires
        is_radix(radix),
        bits >= 1,
        n < pow2(bits),
    ensures
        1 <= digits_of(n, radix).len() <= bits,
{
    crate::atof::lemma_pow_at_least_pow2(radix, bits);
    lemma_digits_bound(n, radix, bits);
}

/// Two to the hundred and twenty-eighth.
pub proof fn lemma_pow2_128()
    ensures
        pow2(128) == 0x1_0000_0000_0000_0000_0000_0000_0000_0000,
{
    vstd::arithmetic::power2::lemma2_to64_rest();
    vstd::arithmetic::power2::lemma_pow2_adds(64, 64);
    assert(pow2(128) == 0x1_0000_0000_0000_0000_0000_0000_0000_0000) by (nonlinear_arith)
        requires
            pow2(128) == pow2(64) * pow2(64),
            pow2(64) == 0x1_0000_0000_0000_0000,
    ;
}

/// The magnitude of an `u8` has at most 3 digits in decimal and 8 in
/// any radix.
proof fn lemma_size_u8(magnitude: nat, radix: u32)
    requires
        is_radix(radix),
        magnitude <= 0xff,
    ensures
        1 <= digits_of(magnitude, radix).len() <= (if radix == 10 {
            3nat
        } else {
            8nat
        }),
{
    if radix == 10 {
        reveal_with_fuel(pow, 4);
        assert(pow(10, 3) > 0xff);
        lemma_digits_bound(magnitude, radix, 3);
    } else {
        vstd::arithmetic::power2::lemma2_to64();
        vstd::arithmetic::power2::lemma2_to64_rest();
        lemma_pow2_128();
        lemma_binary_size(magnitude, radix, 8);
    }
}

impl ToLexical for u8 {
    type Options = WriteIntegerOptions;

    open spec fn spec_formatted_size() -> usize {
        8
    }

    open spec fn spec_formatted_size_decimal() -> usize {
        3
    }

    open spec fn spec_required_size(options: WriteIntegerOptions) -> nat {
        Self::spec_required_size_in(options.spec_radix())
    }

    open spec fn spec_required_size_in(radix: u32) -> nat {
        if radix == 10 {
            Self::spec_formatted_size_decimal() as nat
        } else {
            Self::spec_formatted_size() as nat
        }
    }

    open spec fn is_text(self, options: WriteIntegerOptions, text: Seq<u8>) -> bool {
        text == integer_text(self as int, options.spec_radix())
    }

    open spec fn is_text_in(self, radix: u32, text: Seq<u8>) -> bool {
        text == integer_text(self as int, radix)
    }

    fn formatted_size() -> (r: usize) {
        8
    }

    fn formatted_size_decimal() -> (r: usize) {
        3
    }

    fn to_lexical(self, bytes: &mut [u8]) -> (len: usize) {
        let negative = false;
        let magnitude: u128 = self as u128;
        proof {
            lemma_size_u8(magnitude as nat, 10);
        }
        write_integer(negative, magnitude, 10, bytes)
    }

    fn to_lexical_with_options(self, bytes: &mut [u8], options: &WriteIntegerOptions) -> (len:
        usize) {
        proof {
            use_type_invariant(options);
        }
        let radix = options.radix();
        let negative = false;
        let magnitude: u128 = self as u128;
        proof {
            lemma_size_u8(magnitude as nat, radix);
        }
        write_integer(negative, magnitude, radix, bytes)
    }

    fn to_lexical_radix(self, radix: u8, bytes: &mut [u8]) -> (len: usize) {
        let radix = radix as u32;
        let negative = false;
        let magnitude: u128 = self as u128;
        proof {
            lemma_size_u8(magnitude as nat, radix);
        }
        write_integer(negative, magnitude, radix, bytes)
    }
}

/// The magnitude of an `u16` has at most 5 digits in decimal and 16 in
/// any radix.
proof fn lemma_size_u16(magnitude: nat, radix: u32)
    requires
        is_radix(radix),
        magnitude <= 0xffff,
    ensures
        1 <= digits_of(magnitude, radix).len() <= (if radix == 10 {
            5nat
        } else {
            16nat
        }),
{
    if radix == 10 {
        reveal_with_fuel(pow, 6);
        assert(pow(10, 5) > 0xffff);
        lemma_digits_bound(magnitude, radix, 5);
    } else {
        vstd::arithmetic::power2::lemma2_to64();
        vstd::arithmetic::power2::lemma2_to64_rest();
        lemma_pow2_128();
        lemma_binary_size(magnitude, radix, 16);
    }
}

impl ToLexical for u16 {
    type Options = WriteIntegerOptions;

    open spec fn spec_formatted_size() -> usize {
        16
    }

    open spec fn spec_formatted_size_decimal() -> usize {
        5
    }

    open spec fn spec_required_size(options: WriteIntegerOptions) -> nat {
        Self::spec_required_size_in(options.spec_radix())
    }

    open spec fn spec_required_size_in(radix: u32) -> nat {
        if radix == 10 {
            Self::spec_formatted_size_decimal() as nat
        } else {
            Self::spec_formatted_size() as nat
        }
    }

    open spec fn is_text(self, options: WriteIntegerOptions, text: Seq<u8>) -> bool {
        text == integer_text(self as int, options.spec_radix())
    }

    open spec fn is_text_in(self, radix: u32, text: Seq<u8>) -> bool {
        text == integer_text(self as int, radix)
    }

    fn formatted_size() -> (r: usize) {
        16
    }

    fn formatted_size_decimal() -> (r: usize) {
        5
    }

    fn to_lexical(self, bytes: &mut [u8]) -> (len: usize) {
        let negative = false;
        let magnitude: u128 = self as u128;
        proof {
            lemma_size_u16(magnitude as nat, 10);
        }
        write_integer(negative, magnitude, 10, bytes)
    }

    fn to_lexical_with_options(self, bytes: &mut [u8], options: &WriteIntegerOptions) -> (len:
        usize) {
        proof {
            use_type_invariant(options);
        }
        let radix = options.radix();
        let negative = false;
        let magnitude: u128 = self as u128;
        proof {
            lemma_size_u16(magnitude as nat, radix);
        }
        write_integer(negative, magnitude, radix, bytes)
    }

    fn to_lexical_radix(self, radix: u8, bytes: &mut [u8]) -> (len: usize) {
        let radix = radix as u32;
        let negative = false;
        let magnitude: u128 = self as u128;
        proof {
            lemma_size_u16(magnitude as nat, radix);
        }
        write_integer(negative, magnitude, radix, bytes)
    }
}

/// The magnitude of an `u32` has at most 10 digits in decimal and 32 in
/// any radix.
proof fn lemma_size_u32(magnitude: nat, radix: u32)
    requires
        is_radix(radix),
        magnitude <= 0xffffffff,
    ensures
        1 <= digits_of(magnitude, radix).len() <= (if radix == 10 {
            10nat
        } else {
            32nat
        }),
{
    if radix == 10 {
        reveal_with_fuel(pow, 11);
        assert(pow(10, 10) > 0xffffffff);
        lemma_digits_bound(magnitude, radix, 10);
    } else {
        vstd::arithmetic::power2::lemma2_to64();
        vstd::arithmetic::power2::lemma2_to64_rest();
        lemma_pow2_128();
        lemma_binary_size(magnitude, radix, 32);
    }
}

impl ToLexical for u32 {
    type Options = WriteIntegerOptions;

    open spec fn spec_formatted_size() -> usize {
        32
    }

    open spec fn spec_formatted_size_decimal() -> usize {
        10
    }

    open spec fn spec_required_size(options: WriteIntegerOptions) -> nat {
        Self::spec_required_size_in(options.spec_radix())
    }

    open spec fn spec_required_size_in(radix: u32) -> nat {
        if radix == 10 {
            Self::spec_formatted_size_decimal() as nat
        } else {
            Self::spec_formatted_size() as nat
        }
    }

    open spec fn is_text(self, options: WriteIntegerOptions, text: Seq<u8>) -> bool {
        text == integer_text(self as int, options.spec_radix())
    }

    open spec fn is_text_in(self, radix: u32, text: Seq<u8>) -> bool {
        text == integer_text(self as int, radix)
    }

    fn formatted_size() -> (r: usize) {
        32
    }

    fn formatted_size_decimal() -> (r: usize) {
        10
    }

    fn to_lexical(self, bytes: &mut [u8]) -> (len: usize) {
        let negative = false;
        let magnitude: u128 = self as u128;
        proof {
            lemma_size_u32(magnitude as nat, 10);
        }
        write_integer(negative, magnitude, 10, bytes)
    }

    fn to_lexical_with_options(self, bytes: &mut [u8], options: &WriteIntegerOptions) -> (len:
        usize) {
        proof {
            use_type_invariant(options);
        }
        let radix = options.radix();
        let negative = false;
        let magnitude: u128 = self as u128;
        proof {
            lemma_size_u32(magnitude as nat, radix);
        }
        write_integer(negative, magnitude, radix, bytes)
    }

    fn to_lexical_radix(self, radix: u8, bytes: &mut [u8]) -> (len: usize) {
        let radix = radix as u32;
        let negative = false;
        let magnitude: u128 = self as u128;
        proof {
            lemma_size_u32(magnitude as nat, radix);
        }
        write_integer(negative, magnitude, radix, bytes)
    }
}

/// The magnitude of an `u64` has at most 20 digits in decimal and 64 in
/// any radix.
proof fn lemma_size_u64(magnitude: nat, radix: u32)
    requires
        is_radix(radix),
        magnitude <= 0xffffffffffffffff,
    ensures
        1 <= digits_of(magnitude, radix).len() <= (if radix == 10 {
            20nat
        } else {
            64nat
        }),
{
    if radix == 10 {
        reveal_with_fuel(pow, 21);
        assert(pow(10, 20) > 0xffffffffffffffff);
        lemma_digits_bound(magnitude, radix, 20);
    } else {
        vstd::arithmetic::power2::lemma2_to64();
        vstd::arithmetic::power2::lemma2_to64_rest();
        lemma_pow2_128();
        lemma_binary_size(magnitude, radix, 64);
    }
}

impl ToLexical for u64 {
    type Options = WriteIntegerOptions;

    open spec fn spec_formatted_size() -> usize {
        64
    }

    open spec fn spec_formatted_size_decimal() -> usize {
        20
    }

    open spec fn spec_required_size(options: WriteIntegerOptions) -> nat {
        Self::spec_required_size_in(options.spec_radix())
    }

    open spec fn spec_required_size_in(radix: u32) -> nat {
        if radix == 10 {
            Self::spec_formatted_size_decimal() as nat
        } else {
            Self::spec_formatted_size() as nat
        }
    }

    open spec fn is_text(self, options: WriteIntegerOptions, text: Seq<u8>) -> bool {
        text == integer_text(self as int, options.spec_radix())
    }

    open spec fn is_text_in(self, radix: u32, text: Seq<u8>) -> bool {
        text == integer_text(self as int, radix)
    }

    fn formatted_size() -> (r: usize) {
        64
    }

    fn formatted_size_decimal() -> (r: usize) {
        20
    }

    fn to_lexical(self, bytes: &mut [u8]) -> (len: usize) {
        let negative = false;
        let magnitude: u128 = self as u128;
        proof {
            lemma_size_u64(magnitude as nat, 10);
        }
        write_integer(negative, magnitude, 10, bytes)
    }

    fn to_lexical_with_options(self, bytes: &mut [u8], options: &WriteIntegerOptions) -> (len:
        usize) {
        proof {
            use_type_invariant(options);
        }
        let radix = options.radix();
        let negative = false;
        let magnitude: u128 = self as u128;
        proof {
            lemma_size_u64(magnitude as nat, radix);
        }
        write_integer(negative, magnitude, radix, bytes)
    }

    fn to_lexical_radix(self, radix: u8, bytes: &mut [u8]) -> (len: usize) {
        let radix = radix as u32;
        let negative = false;
        let magnitude: u128 = self as u128;
        proof {
            lemma_size_u64(magnitude as nat, radix);
        }
        write_integer(negative, magnitude, radix, bytes)
    }
}

/// The magnitude of an `usize` has at most 20 digits in decimal and 64 in
/// any radix.
proof fn lemma_size_usize(magnitude: nat, radix: u32)
    requires
        is_radix(radix),
        magnitude <= 0xffffffffffffffff,
    ensures
        1 <= digits_of(magnitude, radix).len() <= (if radix == 10 {
            20nat
        } else {
            64nat
        }),
{
    if radix == 10 {
        reveal_with_fuel(pow, 21);
        assert(pow(10, 20) > 0xffffffffffffffff);
        lemma_digits_bound(magnitude, radix, 20);
    } else {
        vstd::arithmetic::power2::lemma2_to64();
        vstd::arithmetic::power2::lemma2_to64_rest();
        lemma_pow2_128();
        lemma_binary_size(magnitude, radix, 64);
    }
}

impl ToLexical for usize {
    type Options = WriteIntegerOptions;

    open spec fn spec_formatted_size() -> usize {
        64
    }

    open spec fn spec_formatted_size_decimal() -> usize {
        20
    }

    open spec fn spec_required_size(options: WriteIntegerOptions) -> nat {
        Self::spec_required_size_in(options.spec_radix())
    }

    open spec fn spec_required_size_in(radix: u32) -> nat {
        if radix == 10 {
            Self::spec_formatted_size_decimal() as nat
        } else {
            Self::spec_formatted_size() as nat
        }
    }

    open spec fn is_text(self, options: WriteIntegerOptions, text: Seq<u8>) -> bool {
        text == integer_text(self as int, options.spec_radix())
    }

    open spec fn is_text_in(self, radix: u32, text: Seq<u8>) -> bool {
        text == integer_text(self as int, radix)
    }

    fn formatted_size() -> (r: usize) {
        64
    }

    fn formatted_size_decimal() -> (r: usize) {
        20
    }

    fn to_lexical(self, bytes: &mut [u8]) -> (len: usize) {
        let negative = false;
        let magnitude: u128 = self as u128;
        proof {
            lemma_size_usize(magnitude as nat, 10);
        }
        write_integer(negative, magnitude, 10, bytes)
    }

    fn to_lexical_with_options(self, bytes: &mut [u8], options: &WriteIntegerOptions) -> (len:
        usize) {
        proof {
            use_type_invariant(options);
        }
        let radix = options.radix();
        let negative = false;
        let magnitude: u128 = self as u128;
        proof {
            lemma_size_usize(magnitude as nat, radix);
        }
        write_integer(negative, magnitude, radix, bytes)
    }

    fn to_lexical_radix(self, radix: u8, bytes: &mut [u8]) -> (len: usize) {
        let radix = radix as u32;
        let negative = false;
        let magnitude: u128 = self as u128;
        proof {
            lemma_size_usize(magnitude as nat, radix);
        }
        write_integer(negative, magnitude, radix, bytes)
    }
}

/// The magnitude of an `u128` has at most 39 digits in decimal and 128 in
/// any radix.
proof fn lemma_size_u128(magnitude: nat, radix: u32)
    requires
        is_radix(radix),
        magnitude <= 0xffffffffffffffffffffffffffffffff,
    ensures
        1 <= digits_of(magnitude, radix).len() <= (if radix == 10 {
            39nat
        } else {
            128nat
        }),
{
    if radix == 10 {
        reveal_with_fuel(pow, 40);
        assert(pow(10, 39) > 0xffffffffffffffffffffffffffffffff);
        lemma_digits_bound(magnitude, radix, 39);
    } else {
        vstd::arithmetic::power2::lemma2_to64();
        vstd::arithmetic::power2::lemma2_to64_rest();
        lemma_pow2_128();
        lemma_binary_size(magnitude, radix, 128);
    }
}

impl ToLexical for u128 {
    type Options = WriteIntegerOptions;

    open spec fn spec_formatted_size() -> usize {
        128
    }

    open spec fn spec_formatted_size_decimal() -> usize {
        39
    }

    open spec fn spec_required_size(options: WriteIntegerOptions) -> nat {
        Self::spec_required_size_in(options.spec_radix())
    }

    open spec fn spec_required_size_in(radix: u32) -> nat {
        if radix == 10 {
            Self::spec_formatted_size_decimal() as nat
        } else {
            Self::spec_formatted_size() as nat
        }
    }

    open spec fn is_text(self, options: WriteIntegerOptions, text: Seq<u8>) -> bool {
        text == integer_text(self as int, options.spec_radix())
    }

    open spec fn is_text_in(self, radix: u32, text: Seq<u8>) -> bool {
        text == integer_text(self as int, radix)
    }

    fn formatted_size() -> (r: usize) {
        128
    }

    fn formatted_size_decimal() -> (r: usize) {
        39
    }

    fn to_lexical(self, bytes: &mut [u8]) -> (len: usize) {
        let negative = false;
        let magnitude: u128 = self as u128;
        proof {
            lemma_size_u128(magnitude as nat, 10);
        }
        write_integer(negative, magnitude, 10, bytes)
    }

    fn to_lexical_with_options(self, bytes: &mut [u8], options: &WriteIntegerOptions) -> (len:
        usize) {
        proof {
            use_type_invariant(options);
        }
        let radix = options.radix();
        let negative = false;
        let magnitude: u128 = self as u128;
        proof {
            lemma_size_u128(magnitude as nat, radix);
        }
        write_integer(negative, magnitude, radix, bytes)
    }

    fn to_lexical_radix(self, radix: u8, bytes: &mut [u8]) -> (len: usize) {
        let radix = radix as u32;
        let negative = false;
        let magnitude: u128 = self as u128;
        proof {
            lemma_size_u128(magnitude as nat, radix);
        }
        write_integer(negative, magnitude, radix, bytes)
    }
}

/// The magnitude of an `i8` has at most 3 digits in decimal and 8 in
/// any radix.
proof fn lemma_size_i8(magnitude: nat, radix: u32)
    requires
        is_radix(radix),
        magnitude <= 0x80,
    ensures
        1 <= digits_of(magnitude, radix).len() <= (if radix == 10 {
            3nat
        } else {
            8nat
        }),
{
    if radix == 10 {
        reveal_with_fuel(pow, 4);
        assert(pow(10, 3) > 0x80);
        lemma_digits_bound(magnitude, radix, 3);
    } else {
        vstd::arithmetic::power2::lemma2_to64();
        vstd::arithmetic::power2::lemma2_to64_rest();
        lemma_pow2_128();
        lemma_binary_size(magnitude, radix, 8);
    }
}

impl ToLexical for i8 {
    type Options = WriteIntegerOptions;

    open spec fn spec_formatted_size() -> usize {
        9
    }

    open spec fn spec_formatted_size_decimal() -> usize {
        4
    }

    open spec fn spec_required_size(options: WriteIntegerOptions) -> nat {
        Self::spec_required_size_in(options.spec_radix())
    }

    open spec fn spec_required_size_in(radix: u32) -> nat {
        if radix == 10 {
            Self::spec_formatted_size_decimal() as nat
        } else {
            Self::spec_formatted_size() as nat
        }
    }

    open spec fn is_text(self, options: WriteIntegerOptions, text: Seq<u8>) -> bool {
        text == integer_text(self as int, options.spec_radix())
    }

    open spec fn is_text_in(self, radix: u32, text: Seq<u8>) -> bool {
        text == integer_text(self as int, radix)
    }

    fn formatted_size() -> (r: usize) {
        9
    }

    fn formatted_size_decimal() -> (r: usize) {
        4
    }

    fn to_lexical(self, bytes: &mut [u8]) -> (len: usize) {
        let negative = self < 0;
        let magnitude: u128 = if negative {
            (-(self + 1)) as u128 + 1
        } else {
            self as u128
        };
        proof {
            lemma_size_i8(magnitude as nat, 10);
        }
        write_integer(negative, magnitude, 10, bytes)
    }

    fn to_lexical_with_options(self, bytes: &mut [u8], options: &WriteIntegerOptions) -> (len:
        usize) {
        proof {
            use_type_invariant(options);
        }
        let radix = options.radix();
        let negative = self < 0;
        let magnitude: u128 = if negative {
            (-(self + 1)) as u128 + 1
        } else {
            self as u128
        };
        proof {
            lemma_size_i8(magnitude as nat, radix);
        }
        write_integer(negative, magnitude, radix, bytes)
    }

    fn to_lexical_radix(self, radix: u8, bytes: &mut [u8]) -> (len: usize) {
        let radix = radix as u32;
        let negative = self < 0;
        let magnitude: u128 = if negative {
            (-(self + 1)) as u128 + 1
        } else {
            self as u128
        };
        proof {
            lemma_size_i8(magnitude as nat, radix);
        }
        write_integer(negative, magnitude, radix, bytes)
    }
}

/// The magnitude of an `i16` has at most 5 digits in decimal and 16 in
/// any radix.
proof fn lemma_size_i16(magnitude: nat, radix: u32)
    requires
        is_radix(radix),
        magnitude <= 0x8000,
    ensures
        1 <= digits_of(magnitude, radix).len() <= (if radix == 10 {
            5nat
        } else {
            16nat
        }),
{
    if radix == 10 {
        reveal_with_fuel(pow, 6);
        assert(pow(10, 5) > 0x8000);
        lemma_digits_bound(magnitude, radix, 5);
    } else {
        vstd::arithmetic::power2::lemma2_to64();
        vstd::arithmetic::power2::lemma2_to64_rest();
        lemma_pow2_128();
        lemma_binary_size(magnitude, radix, 16);
    }
}

impl ToLexical for i16 {
    type Options = WriteIntegerOptions;

    open spec fn spec_formatted_size() -> usize {
        17
    }

    open spec fn spec_formatted_size_decimal() -> usize {
        6
    }

    open spec fn spec_required_size(options: WriteIntegerOptions) -> nat {
        Self::spec_required_size_in(options.spec_radix())
    }

    open spec fn spec_required_size_in(radix: u32) -> nat {
        if radix == 10 {
            Self::spec_formatted_size_decimal() as nat
        } else {
            Self::spec_formatted_size() as nat
        }
    }

    open spec fn is_text(self, options: WriteIntegerOptions, text: Seq<u8>) -> bool {
        text == integer_text(self as int, options.spec_radix())
    }

    open spec fn is_text_in(self, radix: u32, text: Seq<u8>) -> bool {
        text == integer_text(self as int, radix)
    }

    fn formatted_size() -> (r: usize) {
        17
    }

    fn formatted_size_decimal() -> (r: usize) {
        6
    }

    fn to_lexical(self, bytes: &mut [u8]) -> (len: usize) {
        let negative = self < 0;
        let magnitude: u128 = if negative {
            (-(self + 1)) as u128 + 1
        } else {
            self as u128
        };
        proof {
            lemma_size_i16(magnitude as nat, 10);
        }
        write_integer(negative, magnitude, 10, bytes)
    }

    fn to_lexical_with_options(self, bytes: &mut [u8], options: &WriteIntegerOptions) -> (len:
        usize) {
        proof {
            use_type_invariant(options);
        }
        let radix = options.radix();
        let negative = self < 0;
        let magnitude: u128 = if negative {
            (-(self + 1)) as u128 + 1
        } else {
            self as u128
        };
        proof {
            lemma_size_i16(magnitude as nat, radix);
        }
        write_integer(negative, magnitude, radix, bytes)
    }

    fn to_lexical_radix(self, radix: u8, bytes: &mut [u8]) -> (len: usize) {
        let radix = radix as u32;
        let negative = self < 0;
        let magnitude: u128 = if negative {
            (-(self + 1)) as u128 + 1
        } else {
            self as u128
        };
        proof {
            lemma_size_i16(magnitude as nat, radix);
        }
        write_integer(negative, magnitude, radix, bytes)
    }
}

/// The magnitude of an `i32` has at most 10 digits in decimal and 32 in
/// any radix.
proof fn lemma_size_i32(magnitude: nat, radix: u32)
    requires
        is_radix(radix),
        magnitude <= 0x80000000,
    ensures
        1 <= digits_of(magnitude, radix).len() <= (if radix == 10 {
            10nat
        } else {
            32nat
        }),
{
    if radix == 10 {
        reveal_with_fuel(pow, 11);
        assert(pow(10, 10) > 0x80000000);
        lemma_digits_bound(magnitude, radix, 10);
    } else {
        vstd::arithmetic::power2::lemma2_to64();
        vstd::arithmetic::power2::lemma2_to64_rest();
        lemma_pow2_128();
        lemma_binary_size(magnitude, radix, 32);
    }
}

impl ToLexical for i32 {
    type Options = WriteIntegerOptions;

    open spec fn spec_formatted_size() -> usize {
        33
    }

    open spec fn spec_formatted_size_decimal() -> usize {
        11
    }

    open spec fn spec_required_size(options: WriteIntegerOptions) -> nat {
        Self::spec_required_size_in(options.spec_radix())
    }

    open spec fn spec_required_size_in(radix: u32) -> nat {
        if radix == 10 {
            Self::spec_formatted_size_decimal() as nat
        } else {
            Self::spec_formatted_size() as nat
        }
    }

    open spec fn is_text(self, options: WriteIntegerOptions, text: Seq<u8>) -> bool {
        text == integer_text(self as int, options.spec_radix())
    }

    open spec fn is_text_in(self, radix: u32, text: Seq<u8>) -> bool {
        text == integer_text(self as int, radix)
    }

    fn formatted_size() -> (r: usize) {
        33
    }

    fn formatted_size_decimal() -> (r: usize) {
        11
    }

    fn to_lexical(self, bytes: &mut [u8]) -> (len: usize) {
        let negative = self < 0;
        let magnitude: u128 = if negative {
            (-(self + 1)) as u128 + 1
        } else {
            self as u128
        };
        proof {
            lemma_size_i32(magnitude as nat, 10);
        }
        write_integer(negative, magnitude, 10, bytes)
    }

    fn to_lexical_with_options(self, bytes: &mut [u8], options: &WriteIntegerOptions) -> (len:
        usize) {
        proof {
            use_type_invariant(options);
        }
        let radix = options.radix();
        let negative = self < 0;
        let magnitude: u128 = if negative {
            (-(self + 1)) as u128 + 1
        } else {
            self as u128
        };
        proof {
            lemma_size_i32(magnitude as nat, radix);
        }
        write_integer(negative, magnitude, radix, bytes)
    }

    fn to_lexical_radix(self, radix: u8, bytes: &mut [u8]) -> (len: usize) {
        let radix = radix as u32;
        let negative = self < 0;
        let magnitude: u128 = if negative {
            (-(self + 1)) as u128 + 1
        } else {
            self as u128
        };
        proof {
            lemma_size_i32(magnitude as nat, radix);
        }
        write_integer(negative, magnitude, radix, bytes)
    }
}

/// The magnitude of an `i64` has at most 19 digits in decimal and 64 in
/// any radix.
proof fn lemma_size_i64(magnitude: nat, radix: u32)
    requires
        is_radix(radix),
        magnitude <= 0x8000000000000000,
    ensures
        1 <= digits_of(magnitude, radix).len() <= (if radix == 10 {
            19nat
        } else {
            64nat
        }),
{
    if radix == 10 {
        reveal_with_fuel(pow, 20);
        assert(pow(10, 19) > 0x8000000000000000);
        lemma_digits_bound(magnitude, radix, 19);
    } else {
        vstd::arithmetic::power2::lemma2_to64();
        vstd::arithmetic::power2::lemma2_to64_rest();
        lemma_pow2_128();
        lemma_binary_size(magnitude, radix, 64);
    }
}

impl ToLexical for i64 {
    type Options = WriteIntegerOptions;

    open spec fn spec_formatted_size() -> usize {
        65
    }

    open spec fn spec_formatted_size_decimal() -> usize {
        20
    }

    open spec fn spec_required_size(options: WriteIntegerOptions) -> nat {
        Self::spec_required_size_in(options.spec_radix())
    }

    open spec fn spec_required_size_in(radix: u32) -> nat {
        if radix == 10 {
            Self::spec_formatted_size_decimal() as nat
        } else {
            Self::spec_formatted_size() as nat
        }
    }

    open spec fn is_text(self, options: WriteIntegerOptions, text: Seq<u8>) -> bool {
        text == integer_text(self as int, options.spec_radix())
    }

    open spec fn is_text_in(self, radix: u32, text: Seq<u8>) -> bool {
        text == integer_text(self as int, radix)
    }

    fn formatted_size() -> (r: usize) {
        65
    }

    fn formatted_size_decimal() -> (r: usize) {
        20
    }

    fn to_lexical(self, bytes: &mut [u8]) -> (len: usize) {
        let negative = self < 0;
        let magnitude: u128 = if negative {
            (-(self + 1)) as u128 + 1
        } else {
            self as u128
        };
        proof {
            lemma_size_i64(magnitude as nat, 10);
        }
        write_integer(negative, magnitude, 10, bytes)
    }

    fn to_lexical_with_options(self, bytes: &mut [u8], options: &WriteIntegerOptions) -> (len:
        usize) {
        proof {
            use_type_invariant(options);
        }
        let radix = options.radix();
        let negative = self < 0;
        let magnitude: u128 = if negative {
            (-(self + 1)) as u128 + 1
        } else {
            self as u128
        };
        proof {
            lemma_size_i64(magnitude as nat, radix);
        }
        write_integer(negative, magnitude, radix, bytes)
    }

    fn to_lexical_radix(self, radix: u8, bytes: &mut [u8]) -> (len: usize) {
        let radix = radix as u32;
        let negative = self < 0;
        let magnitude: u128 = if negative {
            (-(self + 1)) as u128 + 1
        } else {
            self as u128
        };
        proof {
            lemma_size_i64(magnitude as nat, radix);
        }
        write_integer(negative, magnitude, radix, bytes)
    }
}

/// The magnitude of an `isize` has at most 19 digits in decimal and 64 in
/// any radix.
proof fn lemma_size_isize(magnitude: nat, radix: u32)
    requires
        is_radix(radix),
        magnitude <= 0x8000000000000000,
    ensures
        1 <= digits_of(magnitude, radix).len() <= (if radix == 10 {
            19nat
        } else {
            64nat
        }),
{
    if radix == 10 {
        reveal_with_fuel(pow, 20);
        assert(pow(10, 19) > 0x8000000000000000);
        lemma_digits_bound(magnitude, radix, 19);
    } else {
        vstd::arithmetic::power2::lemma2_to64();
        vstd::arithmetic::power2::lemma2_to64_rest();
        lemma_pow2_128();
        lemma_binary_size(magnitude, radix, 64);
    }
}

impl ToLexical for isize {
    type Options = WriteIntegerOptions;

    open spec fn spec_formatted_size() -> usize {
        65
    }

    open spec fn spec_formatted_size_decimal() -> usize {
        20
    }

    open spec fn spec_required_size(options: WriteIntegerOptions) -> nat {
        Self::spec_required_size_in(options.spec_radix())
    }

    open spec fn spec_required_size_in(radix: u32) -> nat {
        if radix == 10 {
            Self::spec_formatted_size_decimal() as nat
        } else {
            Self::spec_formatted_size() as nat
        }
    }

    open spec fn is_text(self, options: WriteIntegerOptions, text: Seq<u8>) -> bool {
        text == integer_text(self as int, options.spec_radix())
    }

    open spec fn is_text_in(self, radix: u32, text: Seq<u8>) -> bool {
        text == integer_text(self as int, radix)
    }

    fn formatted_size() -> (r: usize) {
        65
    }

    fn formatted_size_decimal() -> (r: usize) {
        20
    }

    fn to_lexical(self, bytes: &mut [u8]) -> (len: usize) {
        let negative = self < 0;
        let magnitude: u128 = if negative {
            (-(self + 1)) as u128 + 1
        } else {
            self as u128
        };
        proof {
            lemma_size_isize(magnitude as nat, 10);
        }
        write_integer(negative, magnitude, 10, bytes)
    }

    fn to_lexical_with_options(self, bytes: &mut [u8], options: &WriteIntegerOptions) -> (len:
        usize) {
        proof {
            use_type_invariant(options);
        }
        let radix = options.radix();
        let negative = self < 0;
        let magnitude: u128 = if negative {
            (-(self + 1)) as u128 + 1
        } else {
            self as u128
        };
        proof {
            lemma_size_isize(magnitude as nat, radix);
        }
        write_integer(negative, magnitude, radix, bytes)
    }

    fn to_lexical_radix(self, radix: u8, bytes: &mut [u8]) -> (len: usize) {
        let radix = radix as u32;
        let negative = self < 0;
        let magnitude: u128 = if negative {
            (-(self + 1)) as u128 + 1
        } else {
            self as u128
        };
        proof {
            lemma_size_isize(magnitude as nat, radix);
        }
        write_integer(negative, magnitude, radix, bytes)
    }
}

/// The magnitude of an `i128` has at most 39 digits in decimal and 128 in
/// any radix.
proof fn lemma_size_i128(magnitude: nat, radix: u32)
    requires
        is_radix(radix),
        magnitude <= 0x80000000000000000000000000000000,
    ensures
        1 <= digits_of(magnitude, radix).len() <= (if radix == 10 {
            39nat
        } else {
            128nat
        }),
{
    if radix == 10 {
        reveal_with_fuel(pow, 40);
        assert(pow(10, 39) > 0x80000000000000000000000000000000);
        lemma_digits_bound(magnitude, radix, 39);
    } else {
        vstd::arithmetic::power2::lemma2_to64();
        vstd::arithmetic::power2::lemma2_to64_rest();
        lemma_pow2_128();
        lemma_binary_size(magnitude, radix, 128);
    }
}

impl ToLexical for i128 {
    type Options = WriteIntegerOptions;

    open spec fn spec_formatted_size() -> usize {
        129
    }

    open spec fn spec_formatted_size_decimal() -> usize {
        40
    }

    open spec fn spec_required_size(options: WriteIntegerOptions) -> nat {
        Self::spec_required_size_in(options.spec_radix())
    }

    open spec fn spec_required_size_in(radix: u32) -> nat {
        if radix == 10 {
            Self::spec_formatted_size_decimal() as nat
        } else {
            Self::spec_formatted_size() as nat
        }
    }

    open spec fn is_text(self, options: WriteIntegerOptions, text: Seq<u8>) -> bool {
        text == integer_text(self as int, options.spec_radix())
    }

    open spec fn is_text_in(self, radix: u32, text: Seq<u8>) -> bool {
        text == integer_text(self as int, radix)
    }

    fn formatted_size() -> (r: usize) {
        129
    }

    fn formatted_size_decimal() -> (r: usize) {
        40
    }

    fn to_lexical(self, bytes: &mut [u8]) -> (len: usize) {
        let negative = self < 0;
        let magnitude: u128 = if negative {
            (-(self + 1)) as u128 + 1
        } else {
            self as u128
        };
        proof {
            lemma_size_i128(magnitude as nat, 10);
        }
        write_integer(negative, magnitude, 10, bytes)
    }

    fn to_lexical_with_options(self, bytes: &mut [u8], options: &WriteIntegerOptions) -> (len:
        usize) {
        proof {
            use_type_invariant(options);
        }
        let radix = options.radix();
        let negative = self < 0;
        let magnitude: u128 = if negative {
            (-(self + 1)) as u128 + 1
        } else {
            self as u128
        };
        proof {
            lemma_size_i128(magnitude as nat, radix);
        }
        write_integer(negative, magnitude, radix, bytes)
    }

    fn to_lexical_radix(self, radix: u8, bytes: &mut [u8]) -> (len: usize) {
        let radix = radix as u32;
        let negative = self < 0;
        let magnitude: u128 = if negative {
            (-(self + 1)) as u128 + 1
        } else {
            self as u128
        };
        proof {
            lemma_size_i128(magnitude as nat, radix);
        }
        write_integer(negative, magnitude, radix, bytes)
    }
}

} // verus!

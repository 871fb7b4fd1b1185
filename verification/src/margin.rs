//! The values that round to a float: whatever lies less than a unit from the
//! float, where the unit is half the gap to its nearer neighbour, rounds to
//! it.

use vstd::arithmetic::power2::pow2;
use vstd::prelude::*;

use crate::convert::{
    has_ulp_exponent, is_ulp_exponent, lemma_scaled_den_positive, lemma_ulp_exponent_exists,
    rounded_units, lemma_scaled_ratio, lemma_ulp_exponent_is_unique, rounded, rounded_bits,
    scaled_den, scaled_num, ulp_exponent,
};
use crate::float::FloatLayout;
use crate::rounding::RoundingKind;

verus! {

/// Whether the float with the mantissa `mant` and the exponent `exp` is the
/// least of its binade, with floats of another binade below it: the gap to
/// the float below is half the gap to the float above.
pub open spec fn is_boundary(layout: FloatLayout, mant: nat, exp: int) -> bool {
    mant == layout.spec_hidden_bit() && exp > layout.spec_denormal_exponent()
}

/// The exponent of the unit of a float: half the lesser of its gaps is
/// two to this exponent.
pub open spec fn unit_exponent(layout: FloatLayout, mant: nat, exp: int) -> int {
    if is_boundary(layout, mant, exp) {
        exp - 2
    } else {
        exp - 1
    }
}

/// The float in units.
pub open spec fn in_units(layout: FloatLayout, mant: nat, exp: int) -> nat {
    if is_boundary(layout, mant, exp) {
        4 * mant
    } else {
        2 * mant
    }
}

/// How many units the values that round to a float may lie above it: the
/// gap above the least float of a binade is twice the gap below it.
pub open spec fn upper_units(layout: FloatLayout, mant: nat, exp: int) -> nat {
    if is_boundary(layout, mant, exp) {
        2
    } else {
        1
    }
}

/// Whether `num / den`, in units of two to the `g`, lies less than one
/// unit below `w` units or less than `upper` units above them, or, with
/// `closed`, not more than that.
pub open spec fn within_unit(w: nat, g: int, upper: nat, num: nat, den: nat, closed: bool) -> bool {
    if closed {
        &&& (w - 1) * scaled_den(den, g) <= scaled_num(num, g)
        &&& scaled_num(num, g) <= (w + upper) * scaled_den(den, g)
    } else {
        &&& (w - 1) * scaled_den(den, g) < scaled_num(num, g)
        &&& scaled_num(num, g) < (w + upper) * scaled_den(den, g)
    }
}

/// Whether `mant` and `exp` are the mantissa and exponent of a finite
/// float of `layout` that is not zero.
pub open spec fn is_finite_float(layout: FloatLayout, mant: nat, exp: int) -> bool {
    &&& 0 < mant < 2 * layout.spec_hidden_bit()
    &&& layout.spec_denormal_exponent() <= exp < layout.spec_max_exponent()
    &&& (mant >= layout.spec_hidden_bit() || exp == layout.spec_denormal_exponent())
}

/// The bits of the finite float with the mantissa `mant` and the exponent
/// `exp`.
pub open spec fn float_bits(layout: FloatLayout, mant: nat, exp: int) -> nat {
    ((exp - layout.spec_denormal_exponent()) * layout.spec_hidden_bit() + mant) as nat
}

/// A quotient is known from the multiples of the divisor around the
/// dividend.
proof fn lemma_quotient(n: nat, d: nat, q: nat)
    requires
        d > 0,
        q * d <= n < (q + 1) * d,
    ensures
        n / d == q,
        n % d == n - q * d,
{
    assert((q + 1) * d == q * d + d) by (nonlinear_arith);
    vstd::arithmetic::div_mod::lemma_fundamental_div_mod_converse(
        n as int,
        d as int,
        q as int,
        (n - q * d) as int,
    );
}

/// What lies in the gap above a float and less than half the gap from it
/// rounds down to it; what lies in the gap below it and less than half that
/// gap from it rounds up to it. Here the value is given in the units of
/// the last place, `sn / sd`, and `half` says on which side of `q + 1/2` it
/// lies.
proof fn lemma_rounds_at(
    layout: FloatLayout,
    num: nat,
    den: nat,
    t: int,
    q: nat,
    up: bool,
)
    requires
        den > 0,
        num > 0,
        num < den * pow2(layout.spec_overflow_exponent()),
        t >= layout.spec_denormal_exponent(),
        q < 2 * layout.spec_hidden_bit(),
        q >= layout.spec_hidden_bit() || t == layout.spec_denormal_exponent(),
        scaled_den(den, t) > 0,
        q * scaled_den(den, t) <= scaled_num(num, t) < (q + 1) * scaled_den(den, t),
        up ==> 2 * (scaled_num(num, t) - q * scaled_den(den, t)) > scaled_den(den, t) || (2 * (
        scaled_num(num, t) - q * scaled_den(den, t)) == scaled_den(den, t) && q % 2 == 1),
        !up ==> 2 * (scaled_num(num, t) - q * scaled_den(den, t)) < scaled_den(den, t) || (2 * (
        scaled_num(num, t) - q * scaled_den(den, t)) == scaled_den(den, t) && q % 2 == 0),
        (t - layout.spec_denormal_exponent()) * layout.spec_hidden_bit() + q + (if up {
            1int
        } else {
            0int
        }) < layout.spec_infinity_bits(),
    ensures
        rounded(layout, RoundingKind::NearestTieEven, false, num, den) == (t
            - layout.spec_denormal_exponent()) * layout.spec_hidden_bit() + q + (if up {
            1int
        } else {
            0int
        }),
        has_ulp_exponent(layout, num, den),
{
    let sn = scaled_num(num, t);
    let sd = scaled_den(den, t);
    lemma_quotient(sn, sd, q);
    assert(is_ulp_exponent(layout, num, den, t));
    lemma_ulp_exponent_is_unique(layout, num, den, t, ulp_exponent(layout, num, den));
    assert(RoundingKind::NearestTieEven.rounds_up(false, q, sn % sd, sd) == up);
}

/// A value below two to the exponent of the mantissa's top is below the
/// least power of two that is not finite.
proof fn lemma_not_overflowing(layout: FloatLayout, num: nat, den: nat, t: int, top: nat)
    requires
        den > 0,
        layout.spec_denormal_exponent() <= t < layout.spec_max_exponent(),
        top <= 2 * layout.spec_hidden_bit(),
        scaled_num(num, t) < top * scaled_den(den, t),
    ensures
        num < den * pow2(layout.spec_overflow_exponent()),
{
    layout.lemma_layout();
    let size = layout.spec_mantissa_size();
    let overflow = layout.spec_overflow_exponent();
    let hidden = layout.spec_hidden_bit();
    vstd::arithmetic::power2::lemma_pow2_unfold(size + 1);
    vstd::arithmetic::power2::lemma_pow2_pos(overflow);
    if t >= 0 {
        vstd::arithmetic::power2::lemma_pow2_adds(size + 1, t as nat);
        if size + 1 + t < overflow {
            vstd::arithmetic::power2::lemma_pow2_strictly_increases(
                (size + 1 + t) as nat,
                overflow,
            );
        }
        vstd::arithmetic::power2::lemma_pow2_pos(t as nat);
        if t == 0 {
            vstd::arithmetic::power2::lemma2_to64();
            assert(den * pow2(0) == den) by (nonlinear_arith)
                requires
                    pow2(0) == 1,
            ;
        }
        assert(num < den * pow2(overflow)) by (nonlinear_arith)
            requires
                num < top * (den * pow2(t as nat)),
                top <= pow2(size + 1),
                pow2(size + 1) * pow2(t as nat) <= pow2(overflow),
                den > 0,
                pow2(t as nat) > 0,
        ;
    } else {
        let down = (-t) as nat;
        vstd::arithmetic::power2::lemma_pow2_pos(down);
        if down <= size + 1 {
            vstd::arithmetic::power2::lemma_pow2_adds((size + 1 - down) as nat, down);
            if size + 1 - down < overflow {
                vstd::arithmetic::power2::lemma_pow2_strictly_increases(
                    (size + 1 - down) as nat,
                    overflow,
                );
            }
            let rest = pow2((size + 1 - down) as nat);
            assert(num < den * pow2(overflow)) by (nonlinear_arith)
                requires
                    num * pow2(down) < top * den,
                    top <= rest * pow2(down),
                    rest <= pow2(overflow),
                    den > 0,
                    pow2(down) > 0,
            ;
        } else {
            vstd::arithmetic::power2::lemma_pow2_strictly_increases(size + 1, down);
            assert(num < den * pow2(overflow)) by (nonlinear_arith)
                requires
                    num * pow2(down) < top * den,
                    top <= pow2(down),
                    pow2(overflow) >= 1,
                    den > 0,
                    pow2(down) > 0,
            ;
        }
    }
}

/// What is written of a float is read as the float: a value that lies
/// less than half a gap from a finite float, on either side, rounds to
/// that float, to nearest with ties to even; and so does a value that lies
/// half a gap from a float with an even mantissa.
pub proof fn lemma_within_unit_rounds(
    layout: FloatLayout,
    mant: nat,
    exp: int,
    num: nat,
    den: nat,
    closed: bool,
)
    requires
        is_finite_float(layout, mant, exp),
        den > 0,
        closed ==> mant % 2 == 0,
        within_unit(
            in_units(layout, mant, exp),
            unit_exponent(layout, mant, exp),
            upper_units(layout, mant, exp),
            num,
            den,
            closed,
        ),
    ensures
        rounded(layout, RoundingKind::NearestTieEven, false, num, den) == float_bits(
            layout,
            mant,
            exp,
        ),
        has_ulp_exponent(layout, num, den),
{
    layout.lemma_layout();
    let hidden = layout.spec_hidden_bit();
    let least = layout.spec_denormal_exponent();
    let g = unit_exponent(layout, mant, exp);
    let w = in_units(layout, mant, exp);
    let yn = scaled_num(num, g);
    let yd = scaled_den(den, g);
    vstd::arithmetic::power2::lemma_pow2_pos(vstd::math::abs(g));
    vstd::arithmetic::power2::lemma_pow2_pos(vstd::math::abs(exp));
    vstd::arithmetic::power2::lemma_pow2_pos(vstd::math::abs(exp - 1));
    vstd::arithmetic::power2::lemma2_to64();
    assert(yd > 0) by (nonlinear_arith)
        requires
            den > 0,
            yd == den || (yd == den * pow2(vstd::math::abs(g)) && pow2(vstd::math::abs(g)) > 0),
    ;
    assert(yn > 0) by (nonlinear_arith)
        requires
            (w - 1) * yd <= yn,
            w >= 2,
            yd > 0,
    ;
    assert(num > 0) by (nonlinear_arith)
        requires
            yn > 0,
            yn == num || yn == num * pow2(vstd::math::abs(g)),
    ;
    let full = layout.spec_max_exponent() - least + 1;
    match layout {
        FloatLayout::Single => {
            assert(layout.spec_infinity_bits() == full * hidden) by (nonlinear_arith)
                requires
                    layout.spec_infinity_bits() == 0x7F80_0000,
                    full == 255,
                    hidden == 0x80_0000,
            ;
        },
        FloatLayout::Double => {
            assert(layout.spec_infinity_bits() == full * hidden) by (nonlinear_arith)
                requires
                    layout.spec_infinity_bits() == 0x7FF0_0000_0000_0000,
                    full == 2047,
                    hidden == 0x10_0000_0000_0000,
            ;
        },
    }
    assert((exp - least) * hidden + mant < layout.spec_infinity_bits() && (exp - least) * hidden
        + mant == (exp - 1 - least) * hidden + (mant + hidden))
        by (nonlinear_arith)
        requires
            mant < 2 * hidden,
            least <= exp < layout.spec_max_exponent(),
            layout.spec_infinity_bits() == full * hidden,
            full == layout.spec_max_exponent() - least + 1,
            hidden >= 2,
    ;
    if is_boundary(layout, mant, exp) && yn < w * yd {
        // Below the least float of a binade: the last place is that of the
        // binade below.
        let t = exp - 1;
        let sn = scaled_num(num, t);
        let sd = scaled_den(den, t);
        lemma_scaled_ratio(num, den, g, t);
        assert(sd > 0) by (nonlinear_arith)
            requires
                den > 0,
                sd == den || (sd == den * pow2(vstd::math::abs(t)) && pow2(vstd::math::abs(t))
                    > 0),
        ;
        let q = (2 * mant - 1) as nat;
        assert(q * sd <= sn && sn < (q + 1) * sd && 2 * (sn - q * sd) >= sd) by (nonlinear_arith)
            requires
                yn * sd == sn * yd * 2,
                (4 * mant - 1) * yd <= yn,
                yn < 4 * mant * yd,
                q == 2 * mant - 1,
                yd > 0,
                sd > 0,
        ;
        lemma_not_overflowing(layout, num, den, t, q + 1);
        lemma_rounds_at(layout, num, den, t, q, true);
    } else {
        let t = exp;
        let sn = scaled_num(num, t);
        let sd = scaled_den(den, t);
        lemma_scaled_ratio(num, den, g, t);
        assert(sd > 0) by (nonlinear_arith)
            requires
                den > 0,
                sd == den || (sd == den * pow2(vstd::math::abs(t)) && pow2(vstd::math::abs(t))
                    > 0),
        ;
        let c: nat = if is_boundary(layout, mant, exp) {
            4
        } else {
            2
        };
        assert(pow2((t - g) as nat) == c);
        if yn >= w * yd {
            let q = mant;
            let upper = upper_units(layout, mant, exp);
            assert(q * sd <= sn && sn < (q + 1) * sd && 2 * (sn - q * sd) <= sd && (!closed
                ==> 2 * (sn - q * sd) < sd)) by (nonlinear_arith)
                requires
                    yn * sd == sn * yd * c,
                    w == c * mant,
                    (c == 2 && upper == 1) || (c == 4 && upper == 2),
                    w * yd <= yn,
                    yn <= (w + upper) * yd,
                    !closed ==> yn < (w + upper) * yd,
                    q == mant,
                    yd > 0,
                    sd > 0,
            ;
            lemma_not_overflowing(layout, num, den, t, q + 1);
            lemma_rounds_at(layout, num, den, t, q, false);
        } else {
            let q = (mant - 1) as nat;
            assert(q * sd <= sn && sn < (q + 1) * sd && 2 * (sn - q * sd) >= sd && (!closed
                ==> 2 * (sn - q * sd) > sd)) by (nonlinear_arith)
                requires
                    yn * sd == sn * yd * 2,
                    (2 * mant - 1) * yd <= yn,
                    !closed ==> (2 * mant - 1) * yd < yn,
                    yn < 2 * mant * yd,
                    q == mant - 1,
                    mant >= 1,
                    yd > 0,
                    sd > 0,
            ;
            lemma_not_overflowing(layout, num, den, t, q + 1);
            lemma_rounds_at(layout, num, den, t, q, true);
        }
    }
}

/// The bits of a finite magnitude that is not zero stand for the mantissa
/// and exponent of a finite float, and are the bits of that float.
pub proof fn lemma_decode_finite(layout: FloatLayout, bits: nat)
    requires
        0 < bits < layout.spec_infinity_bits(),
    ensures
        ({
            let (mant, exp) = layout.decode(bits);
            &&& is_finite_float(layout, mant, exp)
            &&& float_bits(layout, mant, exp) == bits
        }),
{
    let hidden = layout.spec_hidden_bit();
    let field = bits / hidden;
    let fraction = bits % hidden;
    vstd::arithmetic::div_mod::lemma_fundamental_div_mod(bits as int, hidden as int);
    vstd::arithmetic::div_mod::lemma_mod_bound(bits as int, hidden as int);
    let full = layout.spec_max_exponent() + layout.spec_exponent_bias();
    match layout {
        FloatLayout::Single => {
            assert(layout.spec_infinity_bits() == full * hidden) by (nonlinear_arith)
                requires
                    layout.spec_infinity_bits() == 0x7F80_0000,
                    full == 255,
                    hidden == 0x80_0000,
            ;
        },
        FloatLayout::Double => {
            assert(layout.spec_infinity_bits() == full * hidden) by (nonlinear_arith)
                requires
                    layout.spec_infinity_bits() == 0x7FF0_0000_0000_0000,
                    full == 2047,
                    hidden == 0x10_0000_0000_0000,
            ;
        },
    }
    assert(field < full) by (nonlinear_arith)
        requires
            bits == hidden * field + fraction,
            fraction >= 0,
            bits < full * hidden,
            hidden > 0,
    ;
    assert(field * hidden == (field - 1) * hidden + hidden && hidden * field == field * hidden)
        by (nonlinear_arith);
    assert(0 * hidden == 0);
}

/// The bits of a finite float that is not zero are not zero and are below
/// those of infinity.
pub proof fn lemma_float_bits_are_finite(layout: FloatLayout, mant: nat, exp: int)
    requires
        is_finite_float(layout, mant, exp),
    ensures
        0 < float_bits(layout, mant, exp) < layout.spec_infinity_bits(),
{
    let hidden = layout.spec_hidden_bit();
    let least = layout.spec_denormal_exponent();
    let full = layout.spec_max_exponent() - least + 1;
    match layout {
        FloatLayout::Single => {
            assert(layout.spec_infinity_bits() == full * hidden) by (nonlinear_arith)
                requires
                    layout.spec_infinity_bits() == 0x7F80_0000,
                    full == 255,
                    hidden == 0x80_0000,
            ;
        },
        FloatLayout::Double => {
            assert(layout.spec_infinity_bits() == full * hidden) by (nonlinear_arith)
                requires
                    layout.spec_infinity_bits() == 0x7FF0_0000_0000_0000,
                    full == 2047,
                    hidden == 0x10_0000_0000_0000,
            ;
        },
    }
    assert(0 < (exp - least) * hidden + mant && (exp - least) * hidden + mant < full * hidden)
        by (nonlinear_arith)
        requires
            0 < mant < 2 * hidden,
            0 <= exp - least <= full - 2,
            hidden >= 2,
    ;
}

/// Only what lies near a float rounds to it: a value that rounds to a
/// finite float, to nearest with ties to even, lies less than half a gap
/// from the float, on either side, or half a gap from it where its
/// mantissa is even.
pub proof fn lemma_rounds_only_within_unit(
    layout: FloatLayout,
    mant: nat,
    exp: int,
    num: nat,
    den: nat,
)
    requires
        is_finite_float(layout, mant, exp),
        den > 0,
        rounded(layout, RoundingKind::NearestTieEven, false, num, den) == float_bits(
            layout,
            mant,
            exp,
        ),
    ensures
        within_unit(
            in_units(layout, mant, exp),
            unit_exponent(layout, mant, exp),
            upper_units(layout, mant, exp),
            num,
            den,
            mant % 2 == 0,
        ),
{
    layout.lemma_layout();
    lemma_float_bits_are_finite(layout, mant, exp);
    vstd::arithmetic::power2::lemma2_to64();
    let hidden = layout.spec_hidden_bit();
    let least = layout.spec_denormal_exponent();
    let g = unit_exponent(layout, mant, exp);
    let w = in_units(layout, mant, exp);
    let upper = upper_units(layout, mant, exp);
    let closed = mant % 2 == 0;
    lemma_ulp_exponent_exists(layout, num, den);
    let t = ulp_exponent(layout, num, den);
    let sn = scaled_num(num, t);
    let sd = scaled_den(den, t);
    lemma_scaled_den_positive(den, t);
    lemma_scaled_den_positive(den, g);
    let q = sn / sd;
    let r = sn % sd;
    vstd::arithmetic::div_mod::lemma_fundamental_div_mod(sn as int, sd as int);
    vstd::arithmetic::div_mod::lemma_mod_bound(sn as int, sd as int);
    let up = RoundingKind::NearestTieEven.rounds_up(false, q, r, sd);
    let rounded_mantissa = rounded_units(RoundingKind::NearestTieEven, false, sn, sd);
    assert((t - least) * hidden + rounded_mantissa == (exp - least) * hidden + mant);
    // The exponents differ by one at most, and by none unless the float is
    // the least of its binade.
    assert(t == exp || (t == exp - 1 && mant == hidden && rounded_mantissa == 2 * hidden))
        by (nonlinear_arith)
        requires
            (t - least) * hidden + rounded_mantissa == (exp - least) * hidden + mant,
            rounded_mantissa <= 2 * hidden,
            q <= rounded_mantissa <= q + 1,
            q >= hidden || t == least,
            0 < mant < 2 * hidden,
            mant >= hidden || exp == least,
            t >= least,
            exp >= least,
            hidden >= 2,
    ;
    let yn = scaled_num(num, g);
    let yd = scaled_den(den, g);
    lemma_scaled_ratio(num, den, g, t);
    if t == exp - 1 {
        assert(pow2((t - g) as nat) == 2);
        assert((w - 1) * yd <= yn && yn <= (w + upper) * yd) by (nonlinear_arith)
            requires
                yn * sd == sn * yd * 2,
                sn == sd * q + r,
                0 <= r < sd,
                q + 1 == 2 * hidden,
                2 * r >= sd,
                w == 4 * hidden,
                upper >= 0,
                yd > 0,
                sd > 0,
        ;
    } else {
        assert((exp - least) * hidden + rounded_mantissa == (exp - least) * hidden + mant);
        assert(rounded_mantissa == mant);
        let c: nat = if is_boundary(layout, mant, exp) {
            4
        } else {
            2
        };
        assert(pow2((t - g) as nat) == c);
        if up {
            // Rounded up: the float is not the least of its binade, where
            // the quotient would fall out of the binade.
            assert(q + 1 == mant);
            assert(c == 2);
            assert((w - 1) * yd <= yn && yn <= (w + upper) * yd && (!closed ==> (w - 1) * yd < yn
                && yn < (w + upper) * yd)) by (nonlinear_arith)
                requires
                    yn * sd == sn * yd * 2,
                    sn == sd * q + r,
                    0 <= r < sd,
                    q + 1 == mant,
                    2 * r > sd || (2 * r == sd && closed),
                    w == 2 * mant,
                    upper == 1,
                    yd > 0,
                    sd > 0,
            ;
        } else {
            assert(q == mant);
            assert((w - 1) * yd <= yn && yn <= (w + upper) * yd && (!closed ==> (w - 1) * yd < yn
                && yn < (w + upper) * yd)) by (nonlinear_arith)
                requires
                    yn * sd == sn * yd * c,
                    sn == sd * q + r,
                    0 <= r < sd,
                    q == mant,
                    2 * r < sd || (2 * r == sd && closed),
                    w == c * mant,
                    (c == 2 && upper == 1) || (c == 4 && upper == 2),
                    mant >= 1,
                    yd > 0,
                    sd > 0,
            ;
        }
    }
}

} // verus!

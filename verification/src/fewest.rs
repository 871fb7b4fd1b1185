//! That the digits of a float are the fewest: no number of fewer digits is
//! read as the float.

use vstd::arithmetic::power::pow;
use vstd::arithmetic::power2::pow2;
use vstd::prelude::*;

use crate::atof::{float_den, float_num};
use crate::convert::{scaled_den, scaled_num};
use crate::digit::is_radix;
use crate::float::FloatLayout;
use crate::margin::{
    float_bits, in_units, is_finite_float, lemma_rounds_only_within_unit, unit_exponent,
    upper_units, within_unit,
};
use crate::shortest::{
    digits_value, is_between, is_nearer_total, is_nearest_total, is_read_as, is_within_steps,
    lemma_power_link,
};

verus! {

/// Whether each of `digits` is a digit of `radix`.
pub open spec fn are_digits(digits: Seq<u8>, radix: u32) -> bool {
    forall|i: int| 0 <= i < digits.len() ==> digits[i] < radix
}

/// Whether no fewer than `count` digits of `radix` are read as the float of
/// `layout` with the magnitude `bits`, wherever their point stands.
pub open spec fn is_fewest(count: nat, radix: u32, layout: FloatLayout, bits: nat) -> bool {
    forall|other: Seq<u8>, point: int|
        other.len() < count && are_digits(other, radix) ==> !#[trigger] is_read_as(
            other,
            point,
            radix,
            layout,
            bits,
        )
}

/// The number that digits make is less than the radix to their count.
pub proof fn lemma_digits_below(digits: Seq<u8>, radix: u32)
    requires
        is_radix(radix),
        are_digits(digits, radix),
    ensures
        digits_value(digits, radix) < pow(radix as int, digits.len()),
    decreases digits.len(),
{
    let r = radix as int;
    if digits.len() == 0 {
        vstd::arithmetic::power::lemma_pow0(r);
    } else {
        let front = digits.drop_last();
        lemma_digits_below(front, radix);
        vstd::arithmetic::power::lemma_pow_adds(r, front.len(), 1);
        vstd::arithmetic::power::lemma_pow1(r);
        let below = pow(r, front.len());
        assert(digits_value(front, radix) * r + digits.last() < below * r) by (nonlinear_arith)
            requires
                digits_value(front, radix) < below,
                0 <= digits.last() < r,
        ;
    }
}

/// The number that digits make, the first of them not zero, is at least the
/// radix to their count less one.
pub proof fn lemma_digits_at_least(digits: Seq<u8>, radix: u32)
    requires
        is_radix(radix),
        digits.len() >= 1,
        digits[0] > 0,
    ensures
        digits_value(digits, radix) >= pow(radix as int, (digits.len() - 1) as nat),
    decreases digits.len(),
{
    let r = radix as int;
    let front = digits.drop_last();
    if digits.len() == 1 {
        vstd::arithmetic::power::lemma_pow0(r);
        assert(digits_value(front, radix) == 0);
    } else {
        lemma_digits_at_least(front, radix);
        vstd::arithmetic::power::lemma_pow_adds(r, (front.len() - 1) as nat, 1);
        vstd::arithmetic::power::lemma_pow1(r);
        let below = pow(r, (front.len() - 1) as nat);
        assert(digits_value(front, radix) * r + digits.last() >= below * r) by (nonlinear_arith)
            requires
                digits_value(front, radix) >= below,
                digits.last() >= 0,
                r > 0,
        ;
    }
}

/// A number that is `n / q` steps, where a step is `step / s` units, lies
/// within the bounds of the float of `w` units only if `n * s` lies within
/// `w - 1` and `w + upper` times `step * q`.
proof fn lemma_within_unit_in_steps(
    w: nat,
    g: int,
    upper: nat,
    closed: bool,
    num: nat,
    den: nat,
    n: nat,
    q: nat,
    s: nat,
    step: nat,
    gm: nat,
    gp: nat,
    pu: nat,
    pd: nat,
)
    requires
        w >= 1,
        den > 0,
        q > 0,
        pd > 0,
        gp == pow2((if g > 0 {
            g
        } else {
            0
        }) as nat),
        gm == pow2((if g < 0 {
            -g
        } else {
            0
        }) as nat),
        s == gm * pu,
        step == gp * pd,
        num * q * pd == n * pu * den,
        within_unit(w, g, upper, num, den, closed),
    ensures
        (w - 1) * (step * q) <= n * s <= (w + upper) * (step * q),
        !closed ==> (w - 1) * (step * q) < n * s < (w + upper) * (step * q),
{
    let yn = scaled_num(num, g);
    let yd = scaled_den(den, g);
    vstd::arithmetic::power2::lemma2_to64();
    vstd::arithmetic::power2::lemma_pow2_pos(vstd::math::abs(g));
    assert(yn == num * gm) by {
        if g >= 0 {
            assert(num * 1 == num);
        }
    }
    assert(yd == den * gp) by {
        if g <= 0 {
            assert(den * 1 == den);
        }
    }
    let a = n * s;
    let b = step * q;
    let both = gm * gp;
    let left = num * q * pd;
    let right = n * pu * den;
    assert(yn * b == both * left) by (nonlinear_arith)
        requires
            yn == num * gm,
            b == (gp * pd) * q,
            both == gm * gp,
            left == num * q * pd,
    ;
    assert(a * yd == both * right) by (nonlinear_arith)
        requires
            yd == den * gp,
            a == n * (gm * pu),
            both == gm * gp,
            right == n * pu * den,
    ;
    assert(b > 0) by (nonlinear_arith)
        requires
            b == (gp * pd) * q,
            gp > 0,
            pd > 0,
            q > 0,
    ;
    assert(yd > 0) by (nonlinear_arith)
        requires
            yd == den * gp,
            den > 0,
            gp > 0,
    ;
    assert((w - 1) * b <= a && a <= (w + upper) * b) by (nonlinear_arith)
        requires
            yn * b == a * yd,
            (w - 1) * yd <= yn,
            yn <= (w + upper) * yd,
            b > 0,
            yd > 0,
    ;
    if !closed {
        assert((w - 1) * b < a && a < (w + upper) * b) by (nonlinear_arith)
            requires
                yn * b == a * yd,
                (w - 1) * yd < yn,
                yn < (w + upper) * yd,
                b > 0,
                yd > 0,
        ;
    }
}

/// Where the float lies between two neighbouring numbers of `count` digits,
/// so far from both that neither is near enough to it, no number of that
/// many digits or fewer is read as the float, wherever its point stands.
///
/// A number of digits on a coarser scale is one of the numbers of `count`
/// digits on this scale, and one on a finer scale is less than the least
/// number of `count` digits here.
pub proof fn lemma_fewer_digits_differ(
    layout: FloatLayout,
    mant: nat,
    exp: int,
    radix: u32,
    up: nat,
    down: nat,
    s: nat,
    m0: nat,
    count: nat,
    below: nat,
    other: Seq<u8>,
    point: int,
)
    requires
        is_radix(radix),
        is_finite_float(layout, mant, exp),
        s == pow2((if unit_exponent(layout, mant, exp) < 0 {
            -unit_exponent(layout, mant, exp)
        } else {
            0
        }) as nat) * pow(radix as int, up),
        m0 == pow2((if unit_exponent(layout, mant, exp) > 0 {
            unit_exponent(layout, mant, exp)
        } else {
            0
        }) as nat) * pow(radix as int, down),
        count >= 1,
        below >= pow(radix as int, (count - 1) as nat),
        is_between(
            below,
            in_units(layout, mant, exp),
            upper_units(layout, mant, exp),
            m0 * pow(radix as int, count),
            s,
            mant % 2 == 0,
        ),
        other.len() <= count,
        are_digits(other, radix),
    ensures
        !is_read_as(other, point, radix, layout, float_bits(layout, mant, exp)),
{
    if is_read_as(other, point, radix, layout, float_bits(layout, mant, exp)) {
        let r = radix as int;
        let g = unit_exponent(layout, mant, exp);
        let w = in_units(layout, mant, exp);
        let upper = upper_units(layout, mant, exp);
        let closed = mant % 2 == 0;
        let gm = pow2((if g < 0 {
            -g
        } else {
            0
        }) as nat);
        let gp = pow2((if g > 0 {
            g
        } else {
            0
        }) as nat);
        let value = digits_value(other, radix);
        let e = point - other.len();
        let num = float_num(value, radix, e);
        let den = float_den(radix, e);
        let delta = e - (up - down - count);
        let pu = pow(r, up) as nat;
        let pd = pow(r, down + count) as nat;
        let pc = pow(r, count);
        let step = (m0 * pc) as nat;
        layout.lemma_layout();
        vstd::arithmetic::power2::lemma2_to64();
        vstd::arithmetic::power2::lemma_pow2_pos(vstd::math::abs(g));
        vstd::arithmetic::power::lemma_pow_positive(r, up);
        vstd::arithmetic::power::lemma_pow_positive(r, down);
        vstd::arithmetic::power::lemma_pow_positive(r, count);
        vstd::arithmetic::power::lemma_pow_positive(r, down + count);
        vstd::arithmetic::power::lemma_pow_adds(r, down, count);
        assert(step == gp * pd && step > 0) by (nonlinear_arith)
            requires
                step == m0 * pc,
                m0 == gp * pow(r, down),
                pd == pow(r, down) * pc,
                gp > 0,
                pow(r, down) > 0,
                pc > 0,
        ;
        assert(s > 0) by (nonlinear_arith)
            requires
                s == gm * pu,
                gm > 0,
                pu > 0,
        ;
        if delta >= 0 {
            let scaled = pow(r, delta as nat) as nat;
            let n = value * scaled;
            vstd::arithmetic::power::lemma_pow_positive(r, delta as nat);
            vstd::arithmetic::power::lemma_pow_adds(r, up, delta as nat);
            lemma_power_link(value, radix, up + delta as nat, down, count);
            assert(up + delta as nat - down - count == e);
            assert(num * 1 * pd == n * pu * den) by (nonlinear_arith)
                requires
                    num * pd == value * pow(r, up + delta as nat) * den,
                    pow(r, up + delta as nat) == pu * scaled,
                    n == value * scaled,
            ;
            lemma_rounds_only_within_unit(layout, mant, exp, num, den);
            lemma_within_unit_in_steps(w, g, upper, closed, num, den, n, 1, s, step, gm, gp, pu, pd);
            assert(step * 1 == step);
            assert(false) by (nonlinear_arith)
                requires
                    (w - 1) * step <= n * s <= (w + upper) * step,
                    !closed ==> (w - 1) * step < n * s < (w + upper) * step,
                    below * s <= (w - 1) * step,
                    (below + 1) * s >= (w + upper) * step,
                    closed ==> below * s < (w - 1) * step,
                    closed ==> (below + 1) * s > (w + upper) * step,
                    n <= below || n >= below + 1,
                    s > 0,
            ;
        } else {
            let finer = (-delta) as nat;
            let q = pow(r, finer) as nat;
            vstd::arithmetic::power::lemma_pow_positive(r, finer);
            vstd::arithmetic::power::lemma_pow_adds(r, finer, down + count);
            lemma_power_link(value, radix, up, down + finer, count);
            assert(up - (down + finer) - count == e);
            assert(down + finer + count == finer + (down + count));
            assert(num * q * pd == value * pu * den) by (nonlinear_arith)
                requires
                    num * pow(r, down + finer + count) == value * pu * den,
                    pow(r, down + finer + count) == q * pd,
            ;
            lemma_rounds_only_within_unit(layout, mant, exp, num, den);
            lemma_within_unit_in_steps(
                w,
                g,
                upper,
                closed,
                num,
                den,
                value,
                q,
                s,
                step,
                gm,
                gp,
                pu,
                pd,
            );
            // The number is less than the least number of as many digits on
            // the scale of the float.
            lemma_digits_below(other, radix);
            if other.len() < count {
                vstd::arithmetic::power::lemma_pow_increases(r as nat, other.len(), count);
            }
            vstd::arithmetic::power::lemma_pow1(r);
            if finer > 1 {
                vstd::arithmetic::power::lemma_pow_increases(r as nat, 1, finer);
            }
            let least = pow(r, (count - 1) as nat);
            vstd::arithmetic::power::lemma_pow_adds(r, (count - 1) as nat, 1);
            vstd::arithmetic::power::lemma_pow_positive(r, (count - 1) as nat);
            assert(false) by (nonlinear_arith)
                requires
                    (w - 1) * (step * q) <= value * s,
                    below * s <= (w - 1) * step,
                    value < pc,
                    pc == least * r,
                    below >= least,
                    q >= r,
                    least > 0,
                    r > 0,
                    s > 0,
                    w >= 1,
                    step > 0,
            ;
        }
    }
}

/// Whether `num / den` is not farther from `w` units of two to the `g` than
/// `other / den` is, and is the larger of the two if it is as far.
pub open spec fn is_not_farther(w: nat, g: int, num: nat, other: nat, den: nat) -> bool {
    let a = scaled_num(num, g);
    let b = scaled_num(other, g);
    let c = scaled_den(den, g);
    if b < a {
        a + b <= 2 * w * c
    } else {
        b == a || a + b > 2 * w * c
    }
}

/// Whether `digits` with the point at `point` are the choice among the
/// digits of their count that are read as the float with the mantissa
/// `mant` and the exponent `exp`: none of those has its point further to
/// the right; of those with the point at the same place none is nearer the
/// float; and one that is as near is less.
pub open spec fn is_choice(
    digits: Seq<u8>,
    point: int,
    radix: u32,
    layout: FloatLayout,
    mant: nat,
    exp: int,
) -> bool {
    forall|other: Seq<u8>, q: int|
        other.len() == digits.len() && are_digits(other, radix) && other[0] > 0
            && #[trigger] is_read_as(other, q, radix, layout, float_bits(layout, mant, exp))
            ==> q < point || (q == point && is_not_farther(
            in_units(layout, mant, exp),
            unit_exponent(layout, mant, exp),
            float_num(digits_value(digits, radix), radix, point - digits.len()),
            float_num(digits_value(other, radix), radix, point - digits.len()),
            float_den(radix, point - digits.len()),
        ))
}

/// A number of digits, counted in units of the float, is as many steps as
/// its digits make.
proof fn lemma_scaled_in_steps(
    d: nat,
    g: int,
    radix: u32,
    up: nat,
    down: nat,
    n: nat,
    s: nat,
    m0: nat,
)
    requires
        is_radix(radix),
        s == pow2((if g < 0 {
            -g
        } else {
            0
        }) as nat) * pow(radix as int, up),
        m0 == pow2((if g > 0 {
            g
        } else {
            0
        }) as nat) * pow(radix as int, down),
    ensures
        scaled_num(float_num(d, radix, up - down - n), g) * (m0 * pow(radix as int, n)) == d * s
            * scaled_den(float_den(radix, up - down - n), g),
        scaled_den(float_den(radix, up - down - n), g) > 0,
        m0 * pow(radix as int, n) > 0,
        s > 0,
{
    let r = radix as int;
    let e = up - down - n;
    let num = float_num(d, radix, e);
    let den = float_den(radix, e);
    let gm = pow2((if g < 0 {
        -g
    } else {
        0
    }) as nat);
    let gp = pow2((if g > 0 {
        g
    } else {
        0
    }) as nat);
    let yn = scaled_num(num, g);
    let yd = scaled_den(den, g);
    let pu = pow(r, up);
    let pd = pow(r, down);
    let pn = pow(r, n);
    let pdn = pow(r, down + n);
    lemma_power_link(d, radix, up, down, n);
    vstd::arithmetic::power2::lemma2_to64();
    vstd::arithmetic::power2::lemma_pow2_pos(vstd::math::abs(g));
    vstd::arithmetic::power::lemma_pow_positive(r, up);
    vstd::arithmetic::power::lemma_pow_positive(r, down);
    vstd::arithmetic::power::lemma_pow_positive(r, n);
    vstd::arithmetic::power::lemma_pow_adds(r, down, n);
    assert(yn == num * gm) by {
        if g >= 0 {
            assert(num * 1 == num);
        }
    }
    assert(yd == den * gp) by {
        if g <= 0 {
            assert(den * 1 == den);
        }
    }
    let both = gm * gp;
    let left = num * pdn;
    let right = d * pu * den;
    assert(yn * (m0 * pn) == both * left) by (nonlinear_arith)
        requires
            yn == num * gm,
            m0 == gp * pd,
            pdn == pd * pn,
            both == gm * gp,
            left == num * pdn,
    ;
    assert(d * s * yd == both * right) by (nonlinear_arith)
        requires
            yd == den * gp,
            s == gm * pu,
            both == gm * gp,
            right == d * pu * den,
    ;
    assert(yd > 0 && m0 * pn > 0 && s > 0) by (nonlinear_arith)
        requires
            yd == den * gp,
            den > 0,
            gp > 0,
            gm > 0,
            m0 == gp * pd,
            pd > 0,
            pn > 0,
            s == gm * pu,
            pu > 0,
    ;
}

/// Digits of the same count that are read as the float have their point
/// not further to the right than the digits that are made, and where they
/// have it at the same place they are not nearer the float.
pub proof fn lemma_choice_of_one(
    layout: FloatLayout,
    mant: nat,
    exp: int,
    radix: u32,
    up: nat,
    down: nat,
    s: nat,
    m0: nat,
    digits: Seq<u8>,
    other: Seq<u8>,
    q: int,
)
    requires
        is_radix(radix),
        is_finite_float(layout, mant, exp),
        s == pow2((if unit_exponent(layout, mant, exp) < 0 {
            -unit_exponent(layout, mant, exp)
        } else {
            0
        }) as nat) * pow(radix as int, up),
        m0 == pow2((if unit_exponent(layout, mant, exp) > 0 {
            unit_exponent(layout, mant, exp)
        } else {
            0
        }) as nat) * pow(radix as int, down),
        (in_units(layout, mant, exp) + upper_units(layout, mant, exp)) * m0 <= s,
        mant % 2 == 0 ==> (in_units(layout, mant, exp) + upper_units(layout, mant, exp)) * m0 < s,
        is_nearest_total(
            digits_value(digits, radix),
            in_units(layout, mant, exp),
            upper_units(layout, mant, exp),
            m0 * pow(radix as int, digits.len()),
            s,
            mant % 2 == 0,
        ),
        other.len() == digits.len(),
        other.len() >= 1,
        are_digits(other, radix),
        other[0] > 0,
        is_read_as(other, q, radix, layout, float_bits(layout, mant, exp)),
    ensures
        q < up - down || (q == up - down && is_not_farther(
            in_units(layout, mant, exp),
            unit_exponent(layout, mant, exp),
            float_num(digits_value(digits, radix), radix, up - down - digits.len()),
            float_num(digits_value(other, radix), radix, up - down - digits.len()),
            float_den(radix, up - down - digits.len()),
        )),
{
    let r = radix as int;
    let g = unit_exponent(layout, mant, exp);
    let w = in_units(layout, mant, exp);
    let upper = upper_units(layout, mant, exp);
    let closed = mant % 2 == 0;
    let n = digits.len();
    let point = up - down;
    let total = digits_value(digits, radix);
    let value = digits_value(other, radix);
    let e = q - n;
    let num = float_num(value, radix, e);
    let den = float_den(radix, e);
    let gm = pow2((if g < 0 {
        -g
    } else {
        0
    }) as nat);
    let gp = pow2((if g > 0 {
        g
    } else {
        0
    }) as nat);
    let pu = pow(r, up) as nat;
    let pd = pow(r, down + n) as nat;
    let pn = pow(r, n);
    let step = (m0 * pn) as nat;
    layout.lemma_layout();
    vstd::arithmetic::power2::lemma2_to64();
    vstd::arithmetic::power2::lemma_pow2_pos(vstd::math::abs(g));
    vstd::arithmetic::power::lemma_pow_positive(r, up);
    vstd::arithmetic::power::lemma_pow_positive(r, down);
    vstd::arithmetic::power::lemma_pow_positive(r, n);
    vstd::arithmetic::power::lemma_pow_positive(r, down + n);
    vstd::arithmetic::power::lemma_pow_adds(r, down, n);
    assert(step == gp * pd && step > 0) by (nonlinear_arith)
        requires
            step == m0 * pn,
            m0 == gp * pow(r, down),
            pd == pow(r, down) * pn,
            gp > 0,
            pow(r, down) > 0,
            pn > 0,
    ;
    assert(s > 0) by (nonlinear_arith)
        requires
            s == gm * pu,
            gm > 0,
            pu > 0,
    ;
    if q > point {
        // The number is more than what lies near enough to the float.
        let delta = (q - point) as nat;
        let scaled = pow(r, delta) as nat;
        let count = value * scaled;
        vstd::arithmetic::power::lemma_pow_positive(r, delta);
        vstd::arithmetic::power::lemma_pow_adds(r, up, delta);
        lemma_power_link(value, radix, up + delta, down, n);
        assert(up + delta - down - n == e);
        assert(num * 1 * pd == count * pu * den) by (nonlinear_arith)
            requires
                num * pd == value * pow(r, up + delta) * den,
                pow(r, up + delta) == pu * scaled,
                count == value * scaled,
        ;
        lemma_rounds_only_within_unit(layout, mant, exp, num, den);
        lemma_within_unit_in_steps(w, g, upper, closed, num, den, count, 1, s, step, gm, gp, pu, pd);
        assert(step * 1 == step);
        lemma_digits_at_least(other, radix);
        vstd::arithmetic::power::lemma_pow_adds(r, (n - 1) as nat, 1);
        vstd::arithmetic::power::lemma_pow1(r);
        vstd::arithmetic::power::lemma_pow_positive(r, (n - 1) as nat);
        if delta > 1 {
            vstd::arithmetic::power::lemma_pow_increases(r as nat, 1, delta);
        }
        let least = pow(r, (n - 1) as nat);
        assert(false) by (nonlinear_arith)
            requires
                count * s <= (w + upper) * step,
                !closed ==> count * s < (w + upper) * step,
                (w + upper) * m0 <= s,
                closed ==> (w + upper) * m0 < s,
                step == m0 * pn,
                pn == least * r,
                count == value * scaled,
                value >= least,
                scaled >= r,
                least > 0,
                r > 0,
                s > 0,
                m0 >= 0,
                pn > 0,
        ;
    } else if q == point {
        lemma_power_link(value, radix, up, down, n);
        assert(num * 1 * pd == value * pu * den) by (nonlinear_arith)
            requires
                num * pd == value * pu * den,
        ;
        lemma_rounds_only_within_unit(layout, mant, exp, num, den);
        lemma_within_unit_in_steps(w, g, upper, closed, num, den, value, 1, s, step, gm, gp, pu, pd);
        assert(step * 1 == step);
        assert(is_within_steps(value, w, upper, step as int, s, closed));
        assert(is_nearer_total(total, value, w, step as int, s));
        lemma_scaled_in_steps(total, g, radix, up, down, n, s, m0);
        lemma_scaled_in_steps(value, g, radix, up, down, n, s, m0);
        let a = scaled_num(float_num(total, radix, point - n), g);
        let b = scaled_num(num, g);
        let c = scaled_den(den, g);
        assert(if b < a {
            a + b <= 2 * w * c
        } else {
            b == a || a + b > 2 * w * c
        }) by (nonlinear_arith)
            requires
                a * step == total * s * c,
                b * step == value * s * c,
                value < total ==> (total + value) * s <= 2 * w * step,
                value > total ==> (total + value) * s > 2 * w * step,
                step > 0,
                c > 0,
                s > 0,
        ;
    }
}

/// Digits of one count that make the same number are the same digits.
pub proof fn lemma_digits_are_one(a: Seq<u8>, b: Seq<u8>, radix: u32)
    requires
        is_radix(radix),
        a.len() == b.len(),
        are_digits(a, radix),
        are_digits(b, radix),
        digits_value(a, radix) == digits_value(b, radix),
    ensures
        a == b,
    decreases a.len(),
{
    if a.len() > 0 {
        let fa = a.drop_last();
        let fb = b.drop_last();
        let va = digits_value(fa, radix);
        let vb = digits_value(fb, radix);
        assert(va == vb && a.last() == b.last()) by (nonlinear_arith)
            requires
                va * radix + a.last() == vb * radix + b.last(),
                0 <= a.last() < radix,
                0 <= b.last() < radix,
                va >= 0,
                vb >= 0,
        ;
        lemma_digits_are_one(fa, fb, radix);
        assert(a == fa.push(a.last()));
        assert(b == fb.push(b.last()));
    } else {
        assert(a == b);
    }
}

/// The text of a float is one: digits that are read as the float, the
/// fewest that are, and the choice among those, are the same digits with
/// the point at the same place.
pub proof fn lemma_choice_is_one(
    layout: FloatLayout,
    mant: nat,
    exp: int,
    radix: u32,
    a: Seq<u8>,
    p: int,
    b: Seq<u8>,
    q: int,
)
    requires
        is_radix(radix),
        is_finite_float(layout, mant, exp),
        a.len() >= 1 && a[0] > 0 && are_digits(a, radix),
        b.len() >= 1 && b[0] > 0 && are_digits(b, radix),
        is_read_as(a, p, radix, layout, float_bits(layout, mant, exp)),
        is_read_as(b, q, radix, layout, float_bits(layout, mant, exp)),
        is_fewest(a.len(), radix, layout, float_bits(layout, mant, exp)),
        is_fewest(b.len(), radix, layout, float_bits(layout, mant, exp)),
        is_choice(a, p, radix, layout, mant, exp),
        is_choice(b, q, radix, layout, mant, exp),
    ensures
        a == b,
        p == q,
{
    let r = radix as int;
    let g = unit_exponent(layout, mant, exp);
    assert(a.len() == b.len());
    assert(p == q);
    let e = p - a.len();
    let va = digits_value(a, radix);
    let vb = digits_value(b, radix);
    let na = float_num(va, radix, e);
    let nb = float_num(vb, radix, e);
    let gm = pow2((if g < 0 {
        -g
    } else {
        0
    }) as nat);
    vstd::arithmetic::power2::lemma2_to64();
    vstd::arithmetic::power2::lemma_pow2_pos(vstd::math::abs(g));
    assert(scaled_num(na, g) == na * gm && scaled_num(nb, g) == nb * gm) by {
        if g >= 0 {
            assert(na * 1 == na && nb * 1 == nb);
        }
    }
    assert(scaled_num(na, g) == scaled_num(nb, g));
    assert(na == nb) by (nonlinear_arith)
        requires
            na * gm == nb * gm,
            gm > 0,
    ;
    if e >= 0 {
        let scale = pow(r, e as nat);
        vstd::arithmetic::power::lemma_pow_positive(r, e as nat);
        assert(va == vb) by (nonlinear_arith)
            requires
                va * scale == vb * scale,
                scale > 0,
        ;
    }
    lemma_digits_are_one(a, b, radix);
}

} // verus!

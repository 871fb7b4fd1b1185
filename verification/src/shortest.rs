//! The digits of a float: they are generated, by exact arithmetic, until
//! what is written lies so near the float that it is read as the float
//! again.

use vstd::arithmetic::power::pow;
use vstd::arithmetic::power2::pow2;
use vstd::prelude::*;

use crate::atof::{float_den, float_num, scale};
use crate::bignum::{Bigint, Order};
use crate::convert::{scaled_den, scaled_num};
use crate::digit::is_radix;
use crate::fewest::{
    are_digits, is_choice, is_fewest, is_not_farther, lemma_choice_of_one, lemma_digits_at_least,
    lemma_fewer_digits_differ,
};
use crate::float::FloatLayout;
use crate::convert::rounded;
use crate::margin::{
    float_bits, in_units, is_boundary, is_finite_float, lemma_float_bits_are_finite,
    lemma_within_unit_rounds, unit_exponent, upper_units, within_unit,
};
use crate::rounding::RoundingKind;

verus! {

/// The most digits that a float is written with.
pub const MAX_DIGITS: usize = 58;

/// The number that digit values make in `radix`, read from left to right.
pub open spec fn digits_value(digits: Seq<u8>, radix: u32) -> nat
    decreases digits.len(),
{
    if digits.len() == 0 {
        0
    } else {
        digits_value(digits.drop_last(), radix) * (radix as nat) + digits.last() as nat
    }
}

/// The digits of a number with the place of its point: the number is
/// `0.d1 d2 ... dn` times the radix to the `point`.
#[derive(Debug)]
pub struct Digits {
    /// The values of the digits, the most significant first.
    pub digits: Vec<u8>,
    /// The number of digits before the point; with a negative count, that
    /// many zeros stand between the point and the digits.
    pub point: i32,
}

impl Digits {
    /// Whether the digits are digits of `radix`, at least one and not too
    /// many, and the first is not zero.
    pub open spec fn is_valid(&self, radix: u32) -> bool {
        &&& 1 <= self.digits@.len() <= MAX_DIGITS
        &&& self.digits@[0] > 0
        &&& forall|i: int| 0 <= i < self.digits@.len() ==> self.digits@[i] < radix
        &&& -1200 <= self.point <= 1200
    }

    /// The exponent of the radix by which the digits, read as an integer,
    /// are scaled.
    pub open spec fn scale(&self) -> int {
        self.point - self.digits@.len()
    }

    /// Whether the number is less than half a gap from the float of
    /// `layout` with the mantissa `mant` and the exponent `exp`, or half a
    /// gap from it where the mantissa is even.
    pub open spec fn is_near(&self, layout: FloatLayout, mant: nat, exp: int, radix: u32) -> bool {
        within_unit(
            in_units(layout, mant, exp),
            unit_exponent(layout, mant, exp),
            upper_units(layout, mant, exp),
            float_num(digits_value(self.digits@, radix), radix, self.scale()),
            float_den(radix, self.scale()),
            mant % 2 == 0,
        )
    }
}

/// Whether the number that `digits` make with the point at `point` is read
/// as the float of `layout` with the magnitude `bits`: whether it rounds to
/// that float, to nearest with ties to even.
pub open spec fn is_read_as(
    digits: Seq<u8>,
    point: int,
    radix: u32,
    layout: FloatLayout,
    bits: nat,
) -> bool {
    rounded(
        layout,
        RoundingKind::NearestTieEven,
        false,
        float_num(digits_value(digits, radix), radix, point - digits.len()),
        float_den(radix, point - digits.len()),
    ) == bits
}

/// The number `d * r^e`, written as a ratio, with `r^(down + n)` to its
/// numerator is `d * r^up` with its denominator, where `e` is `up - down -
/// n`.
pub proof fn lemma_power_link(d: nat, radix: u32, up: nat, down: nat, n: nat)
    requires
        is_radix(radix),
    ensures
        float_num(d, radix, up - down - n) * pow(radix as int, down + n) == d * pow(
            radix as int,
            up,
        ) * float_den(radix, up - down - n),
        float_den(radix, up - down - n) > 0,
{
    let e = up - down - n;
    let r = radix as int;
    vstd::arithmetic::power::lemma_pow_positive(r, up);
    vstd::arithmetic::power::lemma_pow_positive(r, down + n);
    if e >= 0 {
        vstd::arithmetic::power::lemma_pow_positive(r, e as nat);
        vstd::arithmetic::power::lemma_pow_adds(r, e as nat, down + n);
        assert(d * pow(r, e as nat) * pow(r, down + n) == d * (pow(r, e as nat) * pow(
            r,
            down + n,
        ))) by (nonlinear_arith);
        assert(d * pow(r, up) * 1 == d * pow(r, up));
    } else {
        vstd::arithmetic::power::lemma_pow_positive(r, (-e) as nat);
        vstd::arithmetic::power::lemma_pow_adds(r, up, (-e) as nat);
        assert(d * pow(r, up) * pow(r, (-e) as nat) == d * (pow(r, up) * pow(r, (-e) as nat)))
            by (nonlinear_arith);
    }
}

/// Digits whose number, in units scaled by the radix, lies less than one
/// unit from the float, lie less than one unit from it as they are
/// written.
proof fn lemma_digits_within_unit(
    w: nat,
    g: int,
    d: nat,
    radix: u32,
    up: nat,
    down: nat,
    n: nat,
    s: nat,
    m0: nat,
    closed: bool,
    upper: nat,
)
    requires
        is_radix(radix),
        w >= 1,
        s == pow2((if g < 0 {
            -g
        } else {
            0
        }) as nat) * pow(radix as int, up),
        m0 == pow2((if g > 0 {
            g
        } else {
            0
        }) as nat) * pow(radix as int, down),
        (w - 1) * (m0 * pow(radix as int, n)) <= d * s,
        d * s <= (w + upper) * (m0 * pow(radix as int, n)),
        !closed ==> (w - 1) * (m0 * pow(radix as int, n)) < d * s,
        !closed ==> d * s < (w + upper) * (m0 * pow(radix as int, n)),
    ensures
        within_unit(
            w,
            g,
            upper,
            float_num(d, radix, up - down - n),
            float_den(radix, up - down - n),
            closed,
        ),
{
    let r = radix as int;
    let e = up - down - n;
    let num = float_num(d, radix, e);
    let den = float_den(radix, e);
    let gm = pow2((if g < 0 {
        -g
    } else {
        0
    }) as nat);
    let gp = pow2((if g > 0 {
        g
    } else {
        0
    }) as nat);
    let yn = scaled_num(num, g);
    let yd = scaled_den(den, g);
    let pu = pow(r, up);
    let pd = pow(r, down);
    let pn = pow(r, n);
    let pdn = pow(r, down + n);
    lemma_power_link(d, radix, up, down, n);
    vstd::arithmetic::power2::lemma2_to64();
    vstd::arithmetic::power2::lemma_pow2_pos(vstd::math::abs(g));
    vstd::arithmetic::power::lemma_pow_positive(r, up);
    vstd::arithmetic::power::lemma_pow_positive(r, down);
    vstd::arithmetic::power::lemma_pow_positive(r, n);
    vstd::arithmetic::power::lemma_pow_adds(r, down, n);
    assert(yn == num * gm) by {
        if g >= 0 {
            assert(num * 1 == num);
        }
    }
    assert(yd == den * gp) by {
        if g <= 0 {
            assert(den * 1 == den);
        }
    }
    let a = d * s;
    let b = m0 * pn;
    assert(yn * b == a * yd) by (nonlinear_arith)
        requires
            yn == num * gm,
            yd == den * gp,
            a == d * (gm * pu),
            b == (gp * pd) * pn,
            pdn == pd * pn,
            num * pdn == d * pu * den,
    ;
    assert(b > 0) by (nonlinear_arith)
        requires
            b == (gp * pd) * pn,
            gp > 0,
            pd > 0,
            pn > 0,
    ;
    assert(yd > 0) by (nonlinear_arith)
        requires
            yd == den * gp,
            den > 0,
            gp > 0,
    ;
    assert((w - 1) * yd <= yn && yn <= (w + upper) * yd) by (nonlinear_arith)
        requires
            yn * b == a * yd,
            (w - 1) * b <= a,
            a <= (w + upper) * b,
            b > 0,
            w >= 1,
            yd > 0,
    ;
    if !closed {
        assert((w - 1) * yd < yn && yn < (w + upper) * yd) by (nonlinear_arith)
            requires
                yn * b == a * yd,
                (w - 1) * b < a,
                a < (w + upper) * b,
                b > 0,
                w >= 1,
                yd > 0,
        ;
    }
}

/// Two to a power, at least as large as a smaller power of two.
proof fn lemma_pow2_monotone(a: nat, b: nat)
    requires
        a <= b,
    ensures
        pow2(a) <= pow2(b),
        pow2(a) >= 1,
{
    vstd::arithmetic::power2::lemma_pow2_pos(a);
    if a < b {
        vstd::arithmetic::power2::lemma_pow2_strictly_increases(a, b);
    }
}

/// A number that is at least a power of the radix is at least the same
/// power of two; so a number below a power of two leaves the exponent
/// below that of the power of two.
proof fn lemma_exponent_below(radix: u32, e: nat, value: nat, bound: nat)
    requires
        is_radix(radix),
        pow(radix as int, e) <= value,
        value < pow2(bound),
    ensures
        e < bound,
{
    crate::atof::lemma_pow_at_least_pow2(radix, e);
    if e >= bound {
        lemma_pow2_monotone(bound, e);
    }
}

/// The float in units, the unit, and the denominator of both: the float
/// is `r / s`, the unit is `m / s`.
fn setup(mant: u64, exp: i32, layout: FloatLayout) -> (out: (Bigint, Bigint, Bigint))
    requires
        is_finite_float(layout, mant as nat, exp as int),
    ensures
        ({
            let g = unit_exponent(layout, mant as nat, exp as int);
            let w = in_units(layout, mant as nat, exp as int);
            &&& out.1.value() == pow2((if g > 0 {
                g
            } else {
                0
            }) as nat)
            &&& out.2.value() == pow2((if g < 0 {
                -g
            } else {
                0
            }) as nat)
            &&& out.0.value() == w * out.1.value()
            &&& -1100 < g < 1100
            &&& 2 <= w < 0x80_0000_0000_0000
        }),
{
    let boundary = mant == layout.hidden_bit() && exp > layout.denormal_exponent();
    let w: u64 = if boundary {
        4 * mant
    } else {
        2 * mant
    };
    let g: i32 = if boundary {
        exp - 2
    } else {
        exp - 1
    };
    let mut r = Bigint::from_u64(w);
    let mut m = Bigint::from_u64(1);
    let mut s = Bigint::from_u64(1);
    proof {
        vstd::arithmetic::power2::lemma2_to64();
        vstd::arithmetic::power2::lemma_pow2(vstd::math::abs(g as int));
        assert(w * 1 == w);
    }
    if g >= 0 {
        scale(&mut r, 2, g as u128);
        scale(&mut m, 2, g as u128);
        proof {
            assert(1 * pow(2, g as nat) == pow(2, g as nat));
        }
    } else {
        scale(&mut s, 2, (-g) as u128);
        proof {
            assert(1 * pow(2, (-g) as nat) == pow(2, (-g) as nat));
        }
    }
    (r, m, s)
}

/// How many units the values that round to a float may lie above it: two
/// above the least float of a binade, one above any other.
pub open spec fn spec_upper(wide: bool) -> nat {
    if wide {
        2
    } else {
        1
    }
}

/// Whether the float of `w` units lies between the numbers `below` and
/// `below + 1`, counted in steps of `step / s` units, so far from both that
/// neither is near enough to it: whether `below` is at least one unit less
/// than the float and `below + 1` at least `upper` units more; with `closed`,
/// whether they are more than that.
pub open spec fn is_between(below: nat, w: nat, upper: nat, step: int, s: nat, closed: bool) -> bool {
    &&& below * s <= (w - 1) * step
    &&& (below + 1) * s >= (w + upper) * step
    &&& closed ==> below * s < (w - 1) * step
    &&& closed ==> (below + 1) * s > (w + upper) * step
}

/// Whether the number of `count` steps, where a step is `step / s` units,
/// lies less than one unit below the float of `w` units or less than
/// `upper` units above it, or, with `closed`, not more than that.
pub open spec fn is_within_steps(
    count: nat,
    w: nat,
    upper: nat,
    step: int,
    s: nat,
    closed: bool,
) -> bool {
    &&& (w - 1) * step <= count * s <= (w + upper) * step
    &&& !closed ==> (w - 1) * step < count * s < (w + upper) * step
}

/// Whether the number of `total` steps is not farther from the float of `w`
/// units than the number of `other` steps, and is the larger of the two if
/// it is as far.
pub open spec fn is_nearer_total(total: nat, other: nat, w: nat, step: int, s: nat) -> bool {
    &&& other < total ==> (total + other) * s <= 2 * w * step
    &&& other > total ==> (total + other) * s > 2 * w * step
}

/// Whether, of the numbers of steps that lie near enough to the float,
/// `total` is the nearest, and the larger of two that are equally near.
pub open spec fn is_nearest_total(
    total: nat,
    w: nat,
    upper: nat,
    step: int,
    s: nat,
    closed: bool,
) -> bool {
    forall|other: nat| #[trigger]
        is_within_steps(other, w, upper, step, s, closed) ==> is_nearer_total(
            total,
            other,
            w,
            step,
            s,
        )
}

/// Whether `a` is less than `b`, or, with `strict` not set, not more.
fn is_below(a: &Bigint, b: &Bigint, strict: bool) -> (r: bool)
    ensures
        r == (a.value() < b.value() || (!strict && a.value() == b.value())),
{
    match a.compare(b) {
        Order::Less => true,
        Order::Equal => !strict,
        Order::Greater => false,
    }
}

/// Scale the float and its unit, or their denominator, by the power of the
/// radix with which the float and one unit are not more than one and more
/// than one `radix`-th: the digits of the float then begin behind the
/// point.
fn place_point(
    r: Bigint,
    m: Bigint,
    s: Bigint,
    radix: u32,
    closed: bool,
    wide: bool,
    Ghost(w): Ghost<nat>,
    Ghost(g): Ghost<int>,
) -> (out: (Bigint, Bigint, Bigint, i32, Ghost<nat>, Ghost<nat>))
    requires
        is_radix(radix),
        2 <= w < 0x80_0000_0000_0000,
        -1100 < g < 1100,
        m.value() == pow2((if g > 0 {
            g
        } else {
            0
        }) as nat),
        s.value() == pow2((if g < 0 {
            -g
        } else {
            0
        }) as nat),
        r.value() == w * m.value(),
    ensures
        ({
            let (r2, m2, s2, point, up, down) = out;
            &&& s2.value() == pow2((if g < 0 {
                -g
            } else {
                0
            }) as nat) * pow(radix as int, up@)
            &&& m2.value() == pow2((if g > 0 {
                g
            } else {
                0
            }) as nat) * pow(radix as int, down@)
            &&& r2.value() == w * m2.value()
            &&& m2.value() > 0
            &&& point == up@ - down@
            &&& -1200 <= point <= 1200
            &&& r2.value() + spec_upper(wide) * m2.value() <= s2.value()
            &&& (r2.value() + spec_upper(wide) * m2.value()) * radix >= s2.value()
            &&& closed ==> r2.value() + spec_upper(wide) * m2.value() < s2.value()
            &&& !closed ==> (r2.value() + spec_upper(wide) * m2.value()) * radix > s2.value()
        }),
{
    let ghost gp = pow2((if g > 0 {
        g
    } else {
        0
    }) as nat);
    let ghost gm = pow2((if g < 0 {
        -g
    } else {
        0
    }) as nat);
    let mut r = r;
    let mut m = m;
    let mut s = s;
    let ghost upper = spec_upper(wide);
    let mut h = r.duplicate();
    h.add_assign(&m);
    if wide {
        h.add_assign(&m);
    }
    let mut point: i32 = 0;
    let ghost mut up: nat = 0;
    let ghost mut down: nat = 0;
    proof {
        vstd::arithmetic::power::lemma_pow0(radix as int);
        vstd::arithmetic::power2::lemma2_to64();
        vstd::arithmetic::power2::lemma2_to64_rest();
        assert(gp * 1 == gp && gm * 1 == gm);
        lemma_pow2_monotone((if g > 0 {
            g
        } else {
            0
        }) as nat, 1100);
        lemma_pow2_monotone((if g < 0 {
            -g
        } else {
            0
        }) as nat, 1100);
        vstd::arithmetic::power2::lemma_pow2_adds(56, 1100);
        lemma_pow2_monotone(1100, 1162);
        assert(h.value() == (w + upper) * gp && h.value() == w * gp + upper * gp)
            by (nonlinear_arith)
            requires
                h.value() == w * gp + gp || (h.value() == w * gp + gp + gp && upper == 2),
                upper == 1 || upper == 2,
                h.value() == w * gp + gp ==> upper == 1,
        ;
        assert(h.value() < pow2(1156)) by (nonlinear_arith)
            requires
                h.value() == (w + upper) * gp,
                w + upper < pow2(56),
                gp <= pow2(1100),
                pow2(1156) == pow2(56) * pow2(1100),
                gp > 0,
        ;
        vstd::arithmetic::power2::lemma_pow2_adds(6, 1156);
    }
    while !matches!(h.compare(&s), Order::Less)
        invariant
            is_radix(radix),
            point == up,
            up <= 1156,
            gm > 0,
            h.value() < pow2(1156),
            pow2(1162) == pow2(6) * pow2(1156),
            pow2(6) == 64,
            s.value() == gm * pow(radix as int, up),
            s.value() < pow2(1162),
            up > 0 ==> h.value() * radix >= s.value(),
        decreases 1156 - up,
    {
        proof {
            let power = pow(radix as int, up);
            vstd::arithmetic::power::lemma_pow_adds(radix as int, up, 1);
            vstd::arithmetic::power::lemma_pow1(radix as int);
            vstd::arithmetic::power::lemma_pow_positive(radix as int, up);
            assert(gm * power * radix == gm * (power * radix)) by (nonlinear_arith);
            assert(power <= s.value()) by (nonlinear_arith)
                requires
                    s.value() == gm * power,
                    gm >= 1,
                    power > 0,
            ;
            lemma_exponent_below(radix, up, s.value(), 1156);
            assert(s.value() * radix < pow2(1162) && h.value() * radix >= s.value() * radix
                && s.value() * radix > s.value()) by (nonlinear_arith)
                requires
                    power <= s.value() <= h.value(),
                    power > 0,
                    h.value() < pow2(1156),
                    2 <= radix <= 36,
                    pow2(6) == 64,
                    pow2(1162) == pow2(6) * pow2(1156),
            ;
            up = up + 1;
        }
        let ghost before = s.value();
        s.mul_add_small(radix, 0);
        point += 1;
        assert(s.value() == before * radix);
        assert(s.value() > before);
    }
    let mut hr = h.duplicate();
    hr.mul_add_small(radix, 0);
    while is_below(&hr, &s, closed)
        invariant
            is_radix(radix),
            point == up - down,
            up <= 1156,
            down <= 1162,
            gp > 0,
            w >= 2,
            s.value() < pow2(1162),
            m.value() == gp * pow(radix as int, down),
            r.value() == w * m.value(),
            upper == 1 || upper == 2,
            h.value() == r.value() + upper * m.value(),
            hr.value() == h.value() * radix,
            h.value() <= s.value(),
            closed ==> h.value() < s.value(),
        decreases 1162 - down,
    {
        proof {
            let power = pow(radix as int, down);
            vstd::arithmetic::power::lemma_pow_adds(radix as int, down, 1);
            vstd::arithmetic::power::lemma_pow1(radix as int);
            vstd::arithmetic::power::lemma_pow_positive(radix as int, down);
            assert(gp * power * radix == gp * (power * radix)) by (nonlinear_arith);
            assert(w * m.value() * radix == w * (m.value() * radix)) by (nonlinear_arith);
            assert(pow(radix as int, down + 1) <= hr.value() && hr.value() * radix > hr.value()
                && hr.value() == r.value() * radix + upper * (m.value() * radix))
                by (nonlinear_arith)
                requires
                    hr.value() == (r.value() + upper * m.value()) * radix,
                    upper >= 1,
                    r.value() == w * m.value(),
                    m.value() == gp * power,
                    pow(radix as int, down + 1) == power * radix,
                    gp >= 1,
                    w >= 2,
                    power > 0,
                    radix >= 2,
            ;
            lemma_exponent_below(radix, down + 1, hr.value(), 1162);
            down = down + 1;
        }
        let ghost before = hr.value();
        r.mul_add_small(radix, 0);
        m.mul_add_small(radix, 0);
        h = hr;
        hr = h.duplicate();
        hr.mul_add_small(radix, 0);
        point -= 1;
        assert(hr.value() == before * radix);
        assert(hr.value() > before);
    }
    proof {
        vstd::arithmetic::power::lemma_pow_positive(radix as int, down);
        assert(m.value() > 0) by (nonlinear_arith)
            requires
                m.value() == gp * pow(radix as int, down),
                gp > 0,
                pow(radix as int, down) > 0,
        ;
    }
    (r, m, s, point, Ghost(up), Ghost(down))
}

/// Generate the digits of the float `r / s` until what is written lies less
/// than the unit `m / s` from it.
///
/// Each turn makes the next digit of the float, by the largest multiple of
/// the denominator in the remainder times the radix. The digits end where
/// the remainder is less than the unit, so that the digits themselves lie
/// near enough, or more than the denominator less the unit, so that the
/// digits with one added to the last do.
fn generate(
    r: Bigint,
    m: Bigint,
    s: Bigint,
    radix: u32,
    closed: bool,
    wide: bool,
    Ghost(w): Ghost<nat>,
) -> (digits: Vec<u8>)
    requires
        is_radix(radix),
        w >= 2,
        m.value() > 0,
        r.value() == w * m.value(),
        r.value() + spec_upper(wide) * m.value() <= s.value(),
        (r.value() + spec_upper(wide) * m.value()) * radix >= s.value(),
        closed ==> r.value() + spec_upper(wide) * m.value() < s.value(),
        !closed ==> (r.value() + spec_upper(wide) * m.value()) * radix > s.value(),
    ensures
        digits@.len() >= 1,
        digits@[0] > 0,
        forall|i: int| 0 <= i < digits@.len() ==> digits@[i] < radix,
        (w - 1) * (m.value() * pow(radix as int, digits@.len())) <= digits_value(digits@, radix)
            * s.value(),
        digits_value(digits@, radix) * s.value() <= (w + spec_upper(wide)) * (m.value() * pow(
            radix as int,
            digits@.len(),
        )),
        !closed ==> (w - 1) * (m.value() * pow(radix as int, digits@.len())) < digits_value(
            digits@,
            radix,
        ) * s.value(),
        !closed ==> digits_value(digits@, radix) * s.value() < (w + spec_upper(wide)) * (
        m.value() * pow(radix as int, digits@.len())),
        digits@.len() >= 2 ==> pow(radix as int, (digits@.len() - 2) as nat) <= w + 2,
        digits@.len() >= 2 ==> is_between(
            digits_value(digits@.drop_last(), radix),
            w,
            spec_upper(wide),
            m.value() * pow(radix as int, (digits@.len() - 1) as nat),
            s.value(),
            closed,
        ),
        is_nearest_total(
            digits_value(digits@, radix),
            w,
            spec_upper(wide),
            m.value() * pow(radix as int, digits@.len()),
            s.value(),
            closed,
        ),
{
    let ghost r0 = r.value();
    let ghost m0 = m.value();
    let ghost sv = s.value();
    let ghost upper = spec_upper(wide);
    let mut rem = r;
    let mut unit = m;
    let mut digits: Vec<u8> = Vec::new();
    proof {
        vstd::arithmetic::power::lemma_pow0(radix as int);
        assert(r0 * 1 == 0 * sv + r0 && m0 * 1 == m0);
        assert(digits_value(digits@, radix) == 0);
    }
    loop
        invariant
            is_radix(radix),
            w >= 2,
            m0 > 0,
            r0 == w * m0,
            m0 == m.value(),
            sv == s.value(),
            sv > 0,
            upper == spec_upper(wide),
            (r0 + upper * m0) * radix >= sv,
            !closed ==> (r0 + upper * m0) * radix > sv,
            r0 * pow(radix as int, digits@.len()) == digits_value(digits@, radix) * sv
                + rem.value(),
            unit.value() == m0 * pow(radix as int, digits@.len()),
            rem.value() + upper * unit.value() <= sv,
            closed ==> rem.value() + upper * unit.value() < sv,
            digits@.len() >= 1 ==> rem.value() >= unit.value(),
            digits@.len() >= 1 && closed ==> rem.value() > unit.value(),
            digits@.len() >= 1 ==> digits@[0] > 0,
            forall|i: int| 0 <= i < digits@.len() ==> digits@[i] < radix,
        decreases sv - unit.value(),
    {
        let ghost count = digits@.len();
        let ghost power = pow(radix as int, count);
        let ghost value = digits_value(digits@, radix);
        let ghost r_before = rem.value();
        let ghost m_before = unit.value();
        proof {
            vstd::arithmetic::power::lemma_pow_adds(radix as int, count, 1);
            vstd::arithmetic::power::lemma_pow1(radix as int);
            vstd::arithmetic::power::lemma_pow_positive(radix as int, count);
            assert(m_before > 0) by (nonlinear_arith)
                requires
                    m_before == m0 * power,
                    m0 > 0,
                    power > 0,
            ;
        }
        rem.mul_add_small(radix, 0);
        unit.mul_add_small(radix, 0);
        let ghost r_scaled = rem.value();
        let mut d: u32 = 0;
        proof {
            assert(r_scaled == 0 * sv + rem.value());
            assert(r_scaled < radix * sv) by (nonlinear_arith)
                requires
                    r_scaled == r_before * radix,
                    r_before < sv,
                    radix > 0,
            ;
        }
        while !matches!(rem.compare(&s), Order::Less)
            invariant
                sv == s.value(),
                sv > 0,
                r_scaled == d * sv + rem.value(),
                r_scaled < radix * sv,
                d < radix,
                is_radix(radix),
            decreases rem.value(),
        {
            proof {
                assert(d + 1 < radix) by (nonlinear_arith)
                    requires
                        r_scaled == d * sv + rem.value(),
                        rem.value() >= sv,
                        r_scaled < radix * sv,
                        sv > 0,
                ;
                assert((d + 1) * sv == d * sv + sv) by (nonlinear_arith);
            }
            rem.sub_assign(&s);
            d += 1;
        }
        let low = match rem.compare(&unit) {
            Order::Less => true,
            Order::Equal => closed,
            Order::Greater => false,
        };
        let mut above = rem.duplicate();
        above.add_assign(&unit);
        if wide {
            above.add_assign(&unit);
            assert(above.value() == rem.value() + 2 * unit.value());
        } else {
            assert(above.value() == rem.value() + 1 * unit.value());
        }
        let high = match above.compare(&s) {
            Order::Less => false,
            Order::Equal => closed,
            Order::Greater => true,
        };
        proof {
            // The digits so far, with the new digit, and the remainder.
            assert(r0 * (power * radix) == (value * radix + d) * sv + rem.value())
                by (nonlinear_arith)
                requires
                    r0 * power == value * sv + r_before,
                    r_before * radix == d * sv + rem.value(),
            ;
            assert(unit.value() == m0 * (power * radix)) by (nonlinear_arith)
                requires
                    unit.value() == m_before * radix,
                    m_before == m0 * power,
            ;
            if high {
                // Adding one to the digit does not carry.
                assert(d + 1 < radix) by (nonlinear_arith)
                    requires
                        r_before * radix == d * sv + rem.value(),
                        unit.value() == m_before * radix,
                        r_before + upper * m_before <= sv,
                        closed ==> r_before + upper * m_before < sv,
                        rem.value() + upper * unit.value() >= sv,
                        !closed ==> rem.value() + upper * unit.value() > sv,
                        sv > 0,
                        radix > 0,
                ;
            }
            if count == 0 && d == 0 {
                // The first digit is not zero: it is rounded up.
                vstd::arithmetic::power::lemma_pow0(radix as int);
                assert(digits@.len() == 0 ==> value == 0);
                assert(value == 0 && power == 1);
                assert(r_before == r0 && m_before == m0) by (nonlinear_arith)
                    requires
                        r0 * power == value * sv + r_before,
                        m_before == m0 * power,
                        value == 0,
                        power == 1,
                ;
                assert(!low) by (nonlinear_arith)
                    requires
                        low ==> rem.value() <= unit.value(),
                        rem.value() == r0 * radix,
                        unit.value() == m0 * radix,
                        r0 == w * m0,
                        w >= 2,
                        m0 > 0,
                        radix > 0,
                ;
                assert(high) by (nonlinear_arith)
                    requires
                        above.value() > sv ==> high,
                        above.value() == sv && closed ==> high,
                        rem.value() == r0 * radix,
                        unit.value() == m0 * radix,
                        (r0 + upper * m0) * radix >= sv,
                        !closed ==> (r0 + upper * m0) * radix > sv,
                        above.value() == rem.value() + upper * unit.value(),
                ;
            }
        }
        if !low && !high {
            let ghost before = digits@;
            digits.push(d as u8);
            proof {
                assert(digits@.drop_last() == before);
                assert(unit.value() > m_before) by (nonlinear_arith)
                    requires
                        unit.value() == m_before * radix,
                        m_before > 0,
                        radix >= 2,
                ;
            }
        } else {
            let round_up = if low && high {
                let mut twice = rem.duplicate();
                twice.mul_add_small(2, 0);
                !matches!(twice.compare(&s), Order::Less)
            } else {
                high
            };
            let last = if round_up {
                d + 1
            } else {
                d
            };
            let ghost before = digits@;
            digits.push(last as u8);
            proof {
                assert(digits@.drop_last() == before);
                let total = digits_value(digits@, radix);
                let full = power * radix;
                assert(total == value * radix + last);
                assert(digits@.len() == count + 1);
                assert(pow(radix as int, digits@.len()) == full);
                assert(unit.value() > 0) by (nonlinear_arith)
                    requires
                        unit.value() == m_before * radix,
                        m_before > 0,
                        radix >= 2,
                ;
                assert((w - 1) * (m0 * full) <= total * sv && total * sv <= (w + upper) * (m0
                    * full)) by (nonlinear_arith)
                    requires
                        r0 * full == (value * radix + d) * sv + rem.value(),
                        unit.value() == m0 * full,
                        total == value * radix + last,
                        r0 == w * m0,
                        upper >= 1,
                        last == d || (last == d + 1 && rem.value() + upper * unit.value() >= sv),
                        last == d ==> rem.value() <= unit.value(),
                        rem.value() < sv,
                        rem.value() >= 0,
                        unit.value() > 0,
                        sv > 0,
                ;
                if !closed {
                    assert((w - 1) * (m0 * full) < total * sv && total * sv < (w + upper) * (m0
                        * full)) by (nonlinear_arith)
                        requires
                            r0 * full == (value * radix + d) * sv + rem.value(),
                            unit.value() == m0 * full,
                            total == value * radix + last,
                            r0 == w * m0,
                            upper >= 1,
                            last == d || (last == d + 1 && rem.value() + upper * unit.value()
                                > sv),
                            last == d ==> rem.value() < unit.value(),
                            rem.value() < sv,
                            rem.value() >= 0,
                            unit.value() > 0,
                            sv > 0,
                    ;
                }
                // Of the numbers that lie near enough, the digits make the
                // nearest: the remainder is less than half the denominator
                // where they are not rounded up; where they are, it is not,
                // or the digits as they are lie too far below.
                let step = m0 * full;
                let whole = value * radix + d;
                assert(w * step == whole * sv + rem.value()) by (nonlinear_arith)
                    requires
                        r0 * full == whole * sv + rem.value(),
                        r0 == w * m0,
                        step == m0 * full,
                ;
                assert(2 * rem.value() < sv || round_up) by (nonlinear_arith)
                    requires
                        !round_up ==> low,
                        !round_up && high ==> 2 * rem.value() < sv,
                        low ==> rem.value() <= unit.value(),
                        low && !closed ==> rem.value() < unit.value(),
                        !high ==> rem.value() + upper * unit.value() <= sv,
                        !high && closed ==> rem.value() + upper * unit.value() < sv,
                        upper >= 1,
                        unit.value() > 0,
                ;
                assert forall|other: nat| #[trigger]
                    is_within_steps(other, w, upper, step, sv, closed) implies is_nearer_total(
                    total,
                    other,
                    w,
                    step,
                    sv,
                ) by {
                    assert(is_nearer_total(total, other, w, step, sv)) by (nonlinear_arith)
                        requires
                            (w - 1) * step <= other * sv,
                            !closed ==> (w - 1) * step < other * sv,
                            w * step == whole * sv + rem.value(),
                            0 <= rem.value() < sv,
                            unit.value() == step,
                            total == whole || total == whole + 1,
                            total == whole ==> 2 * rem.value() < sv,
                            total == whole + 1 ==> 2 * rem.value() >= sv || (rem.value()
                                >= unit.value() && (closed ==> rem.value() > unit.value())),
                            sv > 0,
                    ;
                }
                if count >= 1 {
                    // The digits are few: the unit has not outgrown the
                    // denominator before the last digit.
                    vstd::arithmetic::power::lemma_pow_adds(radix as int, (count - 1) as nat, 1);
                    let below = pow(radix as int, (count - 1) as nat);
                    vstd::arithmetic::power::lemma_pow_positive(radix as int, (count - 1) as nat);
                    assert(below <= w + 2) by (nonlinear_arith)
                        requires
                            m_before == m0 * (below * radix),
                            m_before <= sv,
                            (w * m0 + upper * m0) * radix >= sv,
                            upper <= 2,
                            m0 > 0,
                            radix > 0,
                            below > 0,
                    ;
                    // No number of the digits before the last lies near
                    // enough: the float lies between two of them.
                    let step = m0 * power;
                    assert(value * sv <= (w - 1) * step && (value + 1) * sv >= (w + upper) * step
                        && (closed ==> value * sv < (w - 1) * step && (value + 1) * sv > (w
                        + upper) * step)) by (nonlinear_arith)
                        requires
                            r0 * power == value * sv + r_before,
                            r0 == w * m0,
                            m_before == m0 * power,
                            step == m0 * power,
                            r_before >= m_before,
                            closed ==> r_before > m_before,
                            r_before + upper * m_before <= sv,
                            closed ==> r_before + upper * m_before < sv,
                    ;
                }
            }
            return digits;
        }
    }
}

/// Make the digits of the finite float of `layout` with the mantissa
/// `mant` and the exponent `exp` in `radix`: the fewest digits that are
/// read as the float again; of those, the digits with the point furthest
/// to the right, and of those the nearest to the float, the larger of two
/// that are equally near.
pub fn shortest_digits(mant: u64, exp: i32, layout: FloatLayout, radix: u32) -> (out: Digits)
    requires
        is_radix(radix),
        is_finite_float(layout, mant as nat, exp as int),
    ensures
        out.is_valid(radix),
        out.is_near(layout, mant as nat, exp as int, radix),
        is_read_as(
            out.digits@,
            out.point as int,
            radix,
            layout,
            float_bits(layout, mant as nat, exp as int),
        ),
        out.digits@.len() >= 2 ==> pow(radix as int, (out.digits@.len() - 2) as nat) < pow2(56),
        is_fewest(
            out.digits@.len(),
            radix,
            layout,
            float_bits(layout, mant as nat, exp as int),
        ),
        is_choice(out.digits@, out.point as int, radix, layout, mant as nat, exp as int),
{
    let ghost w = in_units(layout, mant as nat, exp as int);
    let ghost g = unit_exponent(layout, mant as nat, exp as int);
    let closed = mant % 2 == 0;
    let wide = mant == layout.hidden_bit() && exp > layout.denormal_exponent();
    let (r, m, s) = setup(mant, exp, layout);
    let (r, m, s, point, Ghost(up), Ghost(down)) = place_point(
        r,
        m,
        s,
        radix,
        closed,
        wide,
        Ghost(w),
        Ghost(g),
    );
    let ghost sv = s.value();
    let ghost m0 = m.value();
    proof {
        assert((w + spec_upper(wide)) * m0 == r.value() + spec_upper(wide) * m0)
            by (nonlinear_arith)
            requires
                r.value() == w * m0,
        ;
    }
    let digits = generate(r, m, s, radix, closed, wide, Ghost(w));
    let out = Digits { digits, point };
    proof {
        let n = out.digits@.len();
        let value = digits_value(out.digits@, radix);
        lemma_digits_within_unit(w, g, value, radix, up, down, n, sv, m0, closed, spec_upper(wide));
        vstd::arithmetic::power::lemma_pow_positive(radix as int, vstd::math::abs(out.scale()));
        lemma_power_link(value, radix, up, down, n);
        lemma_within_unit_rounds(
            layout,
            mant as nat,
            exp as int,
            float_num(value, radix, out.scale()),
            float_den(radix, out.scale()),
            closed,
        );
        vstd::arithmetic::power2::lemma2_to64_rest();
        if n >= 2 {
            lemma_exponent_below(radix, (n - 2) as nat, w + 2, 56);
        }
        let front = out.digits@.drop_last();
        let below = digits_value(front, radix);
        if n >= 2 {
            lemma_digits_at_least(front, radix);
        }
        lemma_float_bits_are_finite(layout, mant as nat, exp as int);
        assert forall|other: Seq<u8>, q: int|
            other.len() == n && are_digits(other, radix) && other[0] > 0 && #[trigger] is_read_as(
                other,
                q,
                radix,
                layout,
                float_bits(layout, mant as nat, exp as int),
            ) implies q < out.point || (q == out.point && is_not_farther(
            w,
            g,
            float_num(value, radix, out.point - n),
            float_num(digits_value(other, radix), radix, out.point - n),
            float_den(radix, out.point - n),
        )) by {
            lemma_choice_of_one(
                layout,
                mant as nat,
                exp as int,
                radix,
                up,
                down,
                sv,
                m0,
                out.digits@,
                other,
                q,
            );
        }
        assert forall|other: Seq<u8>, point: int|
            other.len() < n && are_digits(other, radix) implies !#[trigger] is_read_as(
            other,
            point,
            radix,
            layout,
            float_bits(layout, mant as nat, exp as int),
        ) by {
            if n >= 2 {
                lemma_fewer_digits_differ(
                    layout,
                    mant as nat,
                    exp as int,
                    radix,
                    up,
                    down,
                    sv,
                    m0,
                    (n - 1) as nat,
                    below,
                    other,
                    point,
                );
            } else {
                assert(digits_value(other, radix) == 0);
                assert(float_num(0, radix, point - other.len()) == 0) by (nonlinear_arith)
                    requires
                        float_num(0, radix, point - other.len()) == 0 * pow(
                            radix as int,
                            (point - other.len()) as nat,
                        ) || float_num(0, radix, point - other.len()) == 0,
                ;
            }
        }
    }
    out
}

} // verus!

//! Exact conversion of a ratio of two big integers to a float: the float
//! that the ratio rounds to is found by long division, one bit at a time.

use vstd::arithmetic::power2::pow2;
use vstd::prelude::*;

use crate::bignum::{Bigint, Order};
use crate::float::FloatLayout;
use crate::rounding::{round_up, Remainder, RoundingKind};

verus! {

/// The numerator of `num / den` divided by two to the `e`.
pub open spec fn scaled_num(num: nat, e: int) -> nat {
    if e < 0 {
        num * pow2((-e) as nat)
    } else {
        num
    }
}

/// The denominator of `num / den` divided by two to the `e`.
pub open spec fn scaled_den(den: nat, e: int) -> nat {
    if e > 0 {
        den * pow2(e as nat)
    } else {
        den
    }
}

/// Whether two to the `e` is the unit in the last place of the floats of
/// `layout` around `num / den`: the ratio, counted in such units, fits the
/// mantissa, and fills it unless the unit is the least there is.
pub open spec fn is_ulp_exponent(layout: FloatLayout, num: nat, den: nat, e: int) -> bool {
    let quotient = scaled_num(num, e) / scaled_den(den, e);
    &&& e >= layout.spec_denormal_exponent()
    &&& quotient < 2 * layout.spec_hidden_bit()
    &&& (quotient >= layout.spec_hidden_bit() || e == layout.spec_denormal_exponent())
}

/// The mantissa that `n / d` units are rounded to under `kind`.
pub open spec fn rounded_units(kind: RoundingKind, negative: bool, n: nat, d: nat) -> nat {
    if kind.rounds_up(negative, n / d, n % d, d) {
        n / d + 1
    } else {
        n / d
    }
}

/// The bits of the magnitude that `num / den` rounds to, given the exponent
/// `e` of the unit in the last place: the ratio is counted in units, the
/// count is rounded to an integer as `kind` says, and the integer is put
/// above the exponent. A mantissa that rounding fills up carries into the
/// exponent; what is not finite is infinity.
pub open spec fn rounded_bits(
    layout: FloatLayout,
    kind: RoundingKind,
    negative: bool,
    num: nat,
    den: nat,
    e: int,
) -> nat {
    let mantissa = rounded_units(kind, negative, scaled_num(num, e), scaled_den(den, e));
    let bits = (e - layout.spec_denormal_exponent()) * layout.spec_hidden_bit() + mantissa;
    if bits >= layout.spec_infinity_bits() {
        layout.spec_infinity_bits()
    } else {
        bits as nat
    }
}

/// Whether `bits` is the magnitude of the float of `layout` that the value
/// `num / den`, with the sign that `negative` gives, rounds to under `kind`.
///
/// Zero is zero. A value from the least power of two on that is not finite
/// is infinity. Every other value is rounded in the units of its last place.
pub open spec fn rounds_to(
    layout: FloatLayout,
    kind: RoundingKind,
    negative: bool,
    num: nat,
    den: nat,
    bits: nat,
) -> bool {
    if num == 0 {
        bits == 0
    } else if num >= den * pow2(layout.spec_overflow_exponent()) {
        bits == layout.spec_infinity_bits()
    } else {
        exists|e: int| #[trigger]
            is_ulp_exponent(layout, num, den, e) && bits == rounded_bits(
                layout,
                kind,
                negative,
                num,
                den,
                e,
            )
    }
}

/// The exponent of the unit in the last place of the floats of `layout`
/// around `num / den`. There is one and only one for every value that is not
/// zero: see [`lemma_ulp_exponent_is_unique`].
pub open spec fn ulp_exponent(layout: FloatLayout, num: nat, den: nat) -> int {
    choose|e: int| is_ulp_exponent(layout, num, den, e)
}

/// The bits of the magnitude of the float of `layout` that the value
/// `num / den`, with the sign that `negative` gives, rounds to under `kind`.
///
/// Zero is zero. A value from the least power of two on that is not finite
/// is infinity. Every other value is rounded in the units of its last place.
pub open spec fn rounded(
    layout: FloatLayout,
    kind: RoundingKind,
    negative: bool,
    num: nat,
    den: nat,
) -> nat {
    if num == 0 {
        0
    } else if num >= den * pow2(layout.spec_overflow_exponent()) {
        layout.spec_infinity_bits()
    } else {
        rounded_bits(layout, kind, negative, num, den, ulp_exponent(layout, num, den))
    }
}

/// A value counted in units of two to the `low` is two to the `high - low`
/// times the value counted in units of two to the `high`.
pub proof fn lemma_scaled_ratio(num: nat, den: nat, low: int, high: int)
    requires
        low < high,
    ensures
        scaled_num(num, low) * scaled_den(den, high) == scaled_num(num, high) * scaled_den(
            den,
            low,
        ) * pow2((high - low) as nat),
{
    let gap = (high - low) as nat;
    if high <= 0 {
        vstd::arithmetic::power2::lemma_pow2_adds((-high) as nat, gap);
        assert(num * pow2((-low) as nat) * den == num * pow2((-high) as nat) * den * pow2(gap))
            by (nonlinear_arith)
            requires
                pow2((-low) as nat) == pow2((-high) as nat) * pow2(gap),
        ;
        if high == 0 {
            vstd::arithmetic::power2::lemma2_to64();
            assert(num * pow2(0) == num) by (nonlinear_arith)
                requires
                    pow2(0) == 1,
            ;
        }
    } else if low >= 0 {
        vstd::arithmetic::power2::lemma_pow2_adds(low as nat, gap);
        assert(num * (den * pow2(high as nat)) == num * (den * pow2(low as nat)) * pow2(gap))
            by (nonlinear_arith)
            requires
                pow2(high as nat) == pow2(low as nat) * pow2(gap),
        ;
        if low == 0 {
            vstd::arithmetic::power2::lemma2_to64();
            assert(den * pow2(0) == den) by (nonlinear_arith)
                requires
                    pow2(0) == 1,
            ;
        }
    } else {
        vstd::arithmetic::power2::lemma_pow2_adds((-low) as nat, high as nat);
        assert(num * pow2((-low) as nat) * (den * pow2(high as nat)) == num * den * pow2(gap))
            by (nonlinear_arith)
            requires
                pow2(gap) == pow2((-low) as nat) * pow2(high as nat),
        ;
    }
}

/// A value has at most one exponent of the unit in its last place: with a
/// larger unit the mantissa would not be filled, with a smaller one it
/// would not fit.
pub proof fn lemma_ulp_exponent_is_unique(layout: FloatLayout, num: nat, den: nat, e1: int, e2: int)
    requires
        den > 0,
        is_ulp_exponent(layout, num, den, e1),
        is_ulp_exponent(layout, num, den, e2),
    ensures
        e1 == e2,
{
    if e1 != e2 {
        let low = if e1 < e2 {
            e1
        } else {
            e2
        };
        let high = if e1 < e2 {
            e2
        } else {
            e1
        };
        let hidden = layout.spec_hidden_bit();
        let n1 = scaled_num(num, low);
        let d1 = scaled_den(den, low);
        let n2 = scaled_num(num, high);
        let d2 = scaled_den(den, high);
        let gap = pow2((high - low) as nat);
        lemma_scaled_ratio(num, den, low, high);
        vstd::arithmetic::power2::lemma_pow2_pos(vstd::math::abs(low));
        vstd::arithmetic::power2::lemma_pow2_pos(vstd::math::abs(high));
        vstd::arithmetic::power2::lemma2_to64();
        if high - low > 1 {
            vstd::arithmetic::power2::lemma_pow2_strictly_increases(1, (high - low) as nat);
        }
        assert(d1 > 0 && d2 > 0) by (nonlinear_arith)
            requires
                den > 0,
                d1 == den || (d1 == den * pow2(low as nat) && pow2(vstd::math::abs(low)) > 0 && low
                    > 0),
                d2 == den || (d2 == den * pow2(high as nat) && pow2(vstd::math::abs(high)) > 0
                    && high > 0),
        ;
        vstd::arithmetic::div_mod::lemma_fundamental_div_mod(n1 as int, d1 as int);
        vstd::arithmetic::div_mod::lemma_mod_bound(n1 as int, d1 as int);
        vstd::arithmetic::div_mod::lemma_fundamental_div_mod(n2 as int, d2 as int);
        vstd::arithmetic::div_mod::lemma_mod_bound(n2 as int, d2 as int);
        let q1 = n1 / d1;
        let q2 = n2 / d2;
        assert(n1 < 2 * hidden * d1) by (nonlinear_arith)
            requires
                n1 == d1 * q1 + n1 % d1,
                n1 % d1 < d1,
                q1 + 1 <= 2 * hidden,
                d1 > 0,
        ;
        assert(n2 >= hidden * d2) by (nonlinear_arith)
            requires
                n2 == d2 * q2 + n2 % d2,
                n2 % d2 >= 0,
                q2 >= hidden,
                d2 > 0,
        ;
        assert(false) by (nonlinear_arith)
            requires
                n1 * d2 == n2 * d1 * gap,
                n1 < 2 * hidden * d1,
                n2 >= hidden * d2,
                gap >= 2,
                d1 > 0,
                d2 > 0,
                hidden > 0,
        ;
    }
}

/// What `rounds_to` holds of is what `rounded` gives.
pub proof fn lemma_rounds_to_is_rounded(
    layout: FloatLayout,
    kind: RoundingKind,
    negative: bool,
    num: nat,
    den: nat,
    bits: nat,
)
    requires
        den > 0,
        rounds_to(layout, kind, negative, num, den, bits),
    ensures
        bits == rounded(layout, kind, negative, num, den),
{
    if num != 0 && num < den * pow2(layout.spec_overflow_exponent()) {
        let e = choose|e: int| #[trigger]
            is_ulp_exponent(layout, num, den, e) && bits == rounded_bits(
                layout,
                kind,
                negative,
                num,
                den,
                e,
            );
        lemma_ulp_exponent_is_unique(layout, num, den, e, ulp_exponent(layout, num, den));
    }
}

/// A value below half of the least float is rounded from zero: it is the
/// least float if it is rounded up and zero if it is not.
pub proof fn lemma_rounded_tiny(
    layout: FloatLayout,
    kind: RoundingKind,
    negative: bool,
    num: nat,
    den: nat,
)
    requires
        num > 0,
        2 * (num * pow2((-layout.spec_denormal_exponent()) as nat)) < den,
    ensures
        ({
            let rem = num * pow2((-layout.spec_denormal_exponent()) as nat);
            &&& Remainder::of(rem, den) == Remainder::BelowHalf
            &&& rounded(layout, kind, negative, num, den) == if kind.rounds_up(
                negative,
                0,
                rem,
                den,
            ) {
                1nat
            } else {
                0nat
            }
        }),
{
    let least = layout.spec_denormal_exponent();
    let scale = pow2((-least) as nat);
    let rem = num * scale;
    vstd::arithmetic::power2::lemma_pow2_pos((-least) as nat);
    vstd::arithmetic::power2::lemma_pow2_pos(layout.spec_overflow_exponent());
    assert(rem >= num && rem > 0) by (nonlinear_arith)
        requires
            rem == num * scale,
            scale >= 1,
            num > 0,
    ;
    assert(den * pow2(layout.spec_overflow_exponent()) >= den) by (nonlinear_arith)
        requires
            pow2(layout.spec_overflow_exponent()) >= 1,
    ;
    vstd::arithmetic::div_mod::lemma_fundamental_div_mod_converse(
        rem as int,
        den as int,
        0,
        rem as int,
    );
    assert(scaled_num(num, least) == rem);
    assert(scaled_den(den, least) == den);
    assert(is_ulp_exponent(layout, num, den, least));
    lemma_ulp_exponent_is_unique(layout, num, den, least, ulp_exponent(layout, num, den));
    assert((least - layout.spec_denormal_exponent()) * layout.spec_hidden_bit() == 0)
        by (nonlinear_arith)
        requires
            least - layout.spec_denormal_exponent() == 0,
    ;
}

/// Correct rounding. Counted in units of the last place, what a value is
/// rounded to lies less than one unit from the value, on the side that the
/// kind of rounding names. Rounded to nearest, it lies not more than half
/// a unit from the value, and where it lies half a unit from it, ties to
/// even give the even mantissa and ties away from zero the greater.
pub proof fn lemma_rounding_error(kind: RoundingKind, negative: bool, n: nat, d: nat)
    requires
        d > 0,
    ensures
        ({
            let m = rounded_units(kind, negative, n, d);
            &&& (m - 1) * d < n < (m + 1) * d
            &&& n % d == 0 ==> m * d == n
            &&& kind == RoundingKind::NearestTieEven ==> 2 * m * d - d <= 2 * n <= 2 * m * d + d
                && (2 * n == 2 * m * d + d || 2 * n == 2 * m * d - d ==> m % 2 == 0)
            &&& kind == RoundingKind::NearestTieAwayZero ==> 2 * m * d - d <= 2 * n < 2 * m * d
                + d
            &&& kind == RoundingKind::TowardZero ==> m * d <= n
            &&& kind == RoundingKind::TowardPositiveInfinity ==> (if negative {
                m * d <= n
            } else {
                n <= m * d
            })
            &&& kind == RoundingKind::TowardNegativeInfinity ==> (if negative {
                n <= m * d
            } else {
                m * d <= n
            })
        }),
{
    let q = n / d;
    let r = n % d;
    let m = rounded_units(kind, negative, n, d);
    vstd::arithmetic::div_mod::lemma_fundamental_div_mod(n as int, d as int);
    vstd::arithmetic::div_mod::lemma_mod_bound(n as int, d as int);
    assert((m - 1) * d < n && n < (m + 1) * d && (r == 0 ==> m * d == n) && 2 * m * d - 2 * n
        == 2 * (m - q) * d - 2 * r && (m == q ==> m * d <= n) && (m == q + 1 ==> n <= m * d))
        by (nonlinear_arith)
        requires
            n == d * q + r,
            0 <= r < d,
            m == q || (m == q + 1 && r > 0),
            r == 0 ==> m == q,
    ;
    if m == q + 1 {
        assert(2 * (m - q) * d == 2 * d) by (nonlinear_arith)
            requires
                m - q == 1,
        ;
    } else {
        assert(2 * (m - q) * d == 0) by (nonlinear_arith)
            requires
                m - q == 0,
        ;
    }
}

/// Whether a value is rounded up depends on the place of the remainder in
/// its gap and on whether the quotient is odd, and on nothing else.
pub proof fn lemma_rounds_up_by_place(
    kind: RoundingKind,
    negative: bool,
    quotient: nat,
    rem1: nat,
    d1: nat,
    rem2: nat,
    d2: nat,
)
    requires
        d1 > 0,
        d2 > 0,
        Remainder::of(rem1, d1) == Remainder::of(rem2, d2),
    ensures
        kind.rounds_up(negative, quotient, rem1, d1) == kind.rounds_up(
            negative,
            quotient,
            rem2,
            d2,
        ),
{
}

/// Two ratios that are the same number have the same quotient, and their
/// remainders stand at the same place.
pub proof fn lemma_equal_ratios_divide_alike(n1: nat, d1: nat, n2: nat, d2: nat)
    requires
        d1 > 0,
        d2 > 0,
        n1 * d2 == n2 * d1,
    ensures
        n1 / d1 == n2 / d2,
        Remainder::of(n1 % d1, d1) == Remainder::of(n2 % d2, d2),
{
    lemma_scaled_division(n1, d1, d2);
    lemma_scaled_division(n2, d2, d1);
    assert(d1 * d2 == d2 * d1) by (nonlinear_arith);
}

/// Two ratios that are the same number are the same number in any unit.
proof fn lemma_equal_ratios_scale_alike(n1: nat, d1: nat, n2: nat, d2: nat, e: int)
    requires
        n1 * d2 == n2 * d1,
    ensures
        scaled_num(n1, e) * scaled_den(d2, e) == scaled_num(n2, e) * scaled_den(d1, e),
{
    let p = pow2(vstd::math::abs(e));
    if e < 0 {
        assert(n1 * p * d2 == n2 * p * d1) by (nonlinear_arith)
            requires
                n1 * d2 == n2 * d1,
        ;
    } else if e > 0 {
        assert(n1 * (d2 * p) == n2 * (d1 * p)) by (nonlinear_arith)
            requires
                n1 * d2 == n2 * d1,
        ;
    }
}

/// The scaled denominator of a ratio is positive.
pub proof fn lemma_scaled_den_positive(den: nat, e: int)
    requires
        den > 0,
    ensures
        scaled_den(den, e) > 0,
{
    vstd::arithmetic::power2::lemma_pow2_pos(vstd::math::abs(e));
    if e > 0 {
        assert(den * pow2(e as nat) > 0) by (nonlinear_arith)
            requires
                den > 0,
                pow2(e as nat) > 0,
        ;
    }
}

/// Whether the value `num / den` has an exponent of the unit in its last
/// place.
pub open spec fn has_ulp_exponent(layout: FloatLayout, num: nat, den: nat) -> bool {
    exists|e: int| is_ulp_exponent(layout, num, den, e)
}

/// A value that is at least so many units of two to the `e` is at least
/// that many times two to the `e`.
proof fn lemma_scaled_at_least(num: nat, den: nat, e: int, k: nat)
    requires
        den > 0,
        k + e >= 0,
        scaled_num(num, e) >= pow2(k) * scaled_den(den, e),
    ensures
        num >= den * pow2((k + e) as nat),
{
    vstd::arithmetic::power2::lemma_pow2_pos(vstd::math::abs(e));
    vstd::arithmetic::power2::lemma_pow2_pos((k + e) as nat);
    if e > 0 {
        vstd::arithmetic::power2::lemma_pow2_adds(k, e as nat);
        assert(pow2(k) * (den * pow2(e as nat)) == den * (pow2(k) * pow2(e as nat)))
            by (nonlinear_arith);
    } else if e < 0 {
        let down = (-e) as nat;
        vstd::arithmetic::power2::lemma_pow2_adds((k + e) as nat, down);
        assert(num >= den * pow2((k + e) as nat)) by (nonlinear_arith)
            requires
                num * pow2(down) >= pow2((k + e) as nat) * pow2(down) * den,
                pow2(down) > 0,
        ;
    } else {
        assert(pow2(k) * den == den * pow2(k)) by (nonlinear_arith);
    }
}

/// A quotient is at least a number if and only if the dividend is at least
/// that multiple of the divisor.
proof fn lemma_quotient_at_least(n: nat, d: nat, k: nat)
    requires
        d > 0,
    ensures
        (n / d >= k) == (n >= k * d),
{
    vstd::arithmetic::div_mod::lemma_fundamental_div_mod(n as int, d as int);
    vstd::arithmetic::div_mod::lemma_mod_bound(n as int, d as int);
    let q = n / d;
    if q >= k {
        assert(n >= k * d) by (nonlinear_arith)
            requires
                n == d * q + n % d,
                n % d >= 0,
                q >= k,
                d > 0,
        ;
    } else {
        assert(n < k * d) by (nonlinear_arith)
            requires
                n == d * q + n % d,
                n % d < d,
                q + 1 <= k,
                d > 0,
        ;
    }
}

/// From an exponent on with which the mantissa is filled, or from the
/// least, an exponent of the unit in the last place is found below the
/// exponents of what is not finite.
proof fn lemma_ulp_exponent_search(layout: FloatLayout, num: nat, den: nat, e: int)
    requires
        den > 0,
        num < den * pow2(layout.spec_overflow_exponent()),
        layout.spec_denormal_exponent() <= e,
        e == layout.spec_denormal_exponent() || scaled_num(num, e) >= layout.spec_hidden_bit()
            * scaled_den(den, e),
    ensures
        has_ulp_exponent(layout, num, den),
    decreases layout.spec_overflow_exponent() - e,
{
    layout.lemma_layout();
    let hidden = layout.spec_hidden_bit();
    let size = layout.spec_mantissa_size();
    let overflow = layout.spec_overflow_exponent();
    let sn = scaled_num(num, e);
    let sd = scaled_den(den, e);
    lemma_scaled_den_positive(den, e);
    lemma_quotient_at_least(sn, sd, hidden);
    lemma_quotient_at_least(sn, sd, 2 * hidden);
    if sn < 2 * hidden * sd {
        assert(is_ulp_exponent(layout, num, den, e));
    } else {
        vstd::arithmetic::power2::lemma_pow2_unfold(size + 1);
        if size + 1 + e >= overflow {
            lemma_scaled_at_least(num, den, e, size + 1);
            if size + 1 + e > overflow {
                vstd::arithmetic::power2::lemma_pow2_strictly_increases(
                    overflow,
                    (size + 1 + e) as nat,
                );
            }
            assert(den * pow2((size + 1 + e) as nat) >= den * pow2(overflow))
                by (nonlinear_arith)
                requires
                    pow2((size + 1 + e) as nat) >= pow2(overflow),
            ;
            assert(false);
        }
        lemma_scaled_ratio(num, den, e, e + 1);
        lemma_scaled_den_positive(den, e + 1);
        vstd::arithmetic::power2::lemma2_to64();
        let sn2 = scaled_num(num, e + 1);
        let sd2 = scaled_den(den, e + 1);
        assert(sn2 >= hidden * sd2) by (nonlinear_arith)
            requires
                sn * sd2 == sn2 * sd * 2,
                sn >= 2 * hidden * sd,
                sd > 0,
                sd2 > 0,
        ;
        lemma_ulp_exponent_search(layout, num, den, e + 1);
    }
}

/// Every value that is not zero and is below the least power of two that
/// is not finite has an exponent of the unit in its last place.
pub proof fn lemma_ulp_exponent_exists(layout: FloatLayout, num: nat, den: nat)
    requires
        num > 0,
        den > 0,
        num < den * pow2(layout.spec_overflow_exponent()),
    ensures
        has_ulp_exponent(layout, num, den),
        is_ulp_exponent(layout, num, den, ulp_exponent(layout, num, den)),
{
    lemma_ulp_exponent_search(layout, num, den, layout.spec_denormal_exponent());
}

/// Rounding goes by the number: two ratios that are the same number round
/// to the same float.
pub proof fn lemma_rounded_of_equal_ratios(
    layout: FloatLayout,
    kind: RoundingKind,
    negative: bool,
    n1: nat,
    d1: nat,
    n2: nat,
    d2: nat,
)
    requires
        d1 > 0,
        d2 > 0,
        n1 * d2 == n2 * d1,
    ensures
        rounded(layout, kind, negative, n1, d1) == rounded(layout, kind, negative, n2, d2),
{
    let top = pow2(layout.spec_overflow_exponent());
    vstd::arithmetic::power2::lemma_pow2_pos(layout.spec_overflow_exponent());
    assert((n1 == 0) == (n2 == 0) && (n1 >= d1 * top) == (n2 >= d2 * top)) by (nonlinear_arith)
        requires
            n1 * d2 == n2 * d1,
            d1 > 0,
            d2 > 0,
            top > 0,
    ;
    if n1 != 0 && n1 < d1 * top {
        assert forall|e: int|
            is_ulp_exponent(layout, n1, d1, e) == is_ulp_exponent(layout, n2, d2, e) by {
            lemma_equal_ratios_scale_alike(n1, d1, n2, d2, e);
            lemma_scaled_den_positive(d1, e);
            lemma_scaled_den_positive(d2, e);
            lemma_equal_ratios_divide_alike(
                scaled_num(n1, e),
                scaled_den(d1, e),
                scaled_num(n2, e),
                scaled_den(d2, e),
            );
        }
        lemma_ulp_exponent_exists(layout, n1, d1);
        let e = ulp_exponent(layout, n1, d1);
        assert(is_ulp_exponent(layout, n2, d2, e));
        lemma_ulp_exponent_is_unique(layout, n2, d2, e, ulp_exponent(layout, n2, d2));
        lemma_equal_ratios_scale_alike(n1, d1, n2, d2, e);
        lemma_scaled_den_positive(d1, e);
        lemma_scaled_den_positive(d2, e);
        let sn1 = scaled_num(n1, e);
        let sd1 = scaled_den(d1, e);
        let sn2 = scaled_num(n2, e);
        let sd2 = scaled_den(d2, e);
        lemma_equal_ratios_divide_alike(sn1, sd1, sn2, sd2);
        lemma_rounds_up_by_place(kind, negative, sn1 / sd1, sn1 % sd1, sd1, sn2 % sd2, sd2);
    }
}

/// A remainder has the same place in its gap when both are scaled.
pub proof fn lemma_place_scales(rem: nat, divisor: nat, factor: nat)
    requires
        factor > 0,
    ensures
        Remainder::of(rem * factor, divisor * factor) == Remainder::of(rem, divisor),
{
    assert((rem * factor == 0) == (rem == 0)) by (nonlinear_arith)
        requires
            factor > 0,
    ;
    assert((2 * (rem * factor) < divisor * factor) == (2 * rem < divisor)) by (nonlinear_arith)
        requires
            factor > 0,
    ;
    assert((2 * (rem * factor) == divisor * factor) == (2 * rem == divisor)) by (nonlinear_arith)
        requires
            factor > 0,
    ;
}

/// A division gives the same quotient, and a remainder at the same place,
/// when numerator and denominator are scaled alike.
pub proof fn lemma_scaled_division(n: nat, d: nat, factor: nat)
    requires
        d > 0,
        factor > 0,
    ensures
        (n * factor) / (d * factor) == n / d,
        Remainder::of((n * factor) % (d * factor), d * factor) == Remainder::of(n % d, d),
{
    vstd::arithmetic::div_mod::lemma_div_multiples_vanish_quotient(
        factor as int,
        n as int,
        d as int,
    );
    vstd::arithmetic::div_mod::lemma_truncate_middle(n as int, factor as int, d as int);
    assert(n * factor == factor * n && d * factor == factor * d) by (nonlinear_arith);
    assert(factor * (n % d) == (n % d) * factor) by (nonlinear_arith);
    lemma_place_scales(n % d, d, factor);
}

/// Find the place of the remainder `rem` in the gap `den`.
fn place_of(rem: Bigint, den: &Bigint) -> (r: Remainder)
    requires
        rem.value() < den.value(),
    ensures
        r == Remainder::of(rem.value(), den.value()),
{
    if rem.is_zero() {
        return Remainder::Exact;
    }
    let mut twice = rem;
    twice.mul_add_small(2, 0);
    match twice.compare(den) {
        Order::Less => Remainder::BelowHalf,
        Order::Equal => Remainder::Half,
        Order::Greater => Remainder::AboveHalf,
    }
}

/// Divide `num` by `den`, which is more than half of it and not more than
/// it, to `count` bits: the quotient of `num * 2^(count - 1)` by `den`, and
/// the place of the remainder.
fn divide_bits(num: Bigint, den: &Bigint, count: u32) -> (r: (u64, Remainder))
    requires
        den.value() <= num.value() < 2 * den.value(),
        1 <= count <= 64,
    ensures
        r.0 == (num.value() * pow2((count - 1) as nat)) / den.value(),
        r.1 == Remainder::of(
            (num.value() * pow2((count - 1) as nat)) % den.value(),
            den.value(),
        ),
        pow2((count - 1) as nat) <= r.0 < pow2(count as nat),
{
    let ghost n = num.value();
    let ghost d = den.value();
    let mut rem = num;
    rem.sub_assign(den);
    let mut quotient: u64 = 1;
    let mut i: u32 = 1;
    proof {
        vstd::arithmetic::power2::lemma2_to64();
        assert(n * pow2(0) == quotient * d + rem.value()) by (nonlinear_arith)
            requires
                pow2(0) == 1,
                quotient == 1,
                rem.value() == n - d,
        ;
    }
    while i < count
        invariant
            1 <= i <= count <= 64,
            d == den.value(),
            n * pow2((i - 1) as nat) == quotient * d + rem.value(),
            rem.value() < d,
            pow2((i - 1) as nat) <= quotient < pow2(i as nat),
        decreases count - i,
    {
        proof {
            vstd::arithmetic::power2::lemma2_to64();
            vstd::arithmetic::power2::lemma2_to64_rest();
            vstd::arithmetic::power2::lemma_pow2_unfold(i as nat);
            vstd::arithmetic::power2::lemma_pow2_unfold((i + 1) as nat);
            if i < 62 {
                vstd::arithmetic::power2::lemma_pow2_strictly_increases(i as nat, 62);
            }
        }
        let ghost before = rem.value();
        rem.mul_add_small(2, 0);
        match rem.compare(den) {
            Order::Less => {
                quotient = 2 * quotient;
                proof {
                    assert(n * (2 * pow2((i - 1) as nat)) == quotient * d + rem.value())
                        by (nonlinear_arith)
                        requires
                            n * pow2((i - 1) as nat) == (quotient / 2) * d + before,
                            quotient % 2 == 0,
                            rem.value() == before * 2,
                    ;
                }
            },
            _ => {
                rem.sub_assign(den);
                quotient = 2 * quotient + 1;
                proof {
                    assert(n * (2 * pow2((i - 1) as nat)) == quotient * d + rem.value())
                        by (nonlinear_arith)
                        requires
                            n * pow2((i - 1) as nat) == ((quotient - 1) / 2) * d + before,
                            quotient % 2 == 1,
                            rem.value() == before * 2 - d,
                    ;
                }
            },
        }
        i += 1;
    }
    proof {
        let scaled = n * pow2((count - 1) as nat);
        vstd::arithmetic::div_mod::lemma_fundamental_div_mod_converse(
            scaled as int,
            d as int,
            quotient as int,
            rem.value() as int,
        );
    }
    (quotient, place_of(rem, den))
}

/// The exponent of the unit in the last place of a value in the binade of
/// two to the `k`: the mantissa has all its bits unless the unit would be
/// below the least there is.
pub open spec fn aligned_exponent(layout: FloatLayout, k: int) -> int {
    if k - layout.spec_mantissa_size() >= layout.spec_denormal_exponent() {
        k - layout.spec_mantissa_size()
    } else {
        layout.spec_denormal_exponent()
    }
}

/// Dividing an aligned ratio to the bits that its binade asks for divides
/// the value in the units of its last place.
proof fn lemma_aligned_division(
    layout: FloatLayout,
    num: nat,
    den: nat,
    n: nat,
    d: nat,
    k: int,
)
    requires
        0 < d <= n,
        layout.spec_denormal_exponent() <= k < layout.spec_overflow_exponent(),
        den > 0,
        k >= 0 ==> n == num && d == den * pow2(k as nat),
        k < 0 ==> n == num * pow2((-k) as nat) && d == den,
    ensures
        ({
            let e = aligned_exponent(layout, k);
            let scaled = n * pow2((k - e) as nat);
            let sn = scaled_num(num, e);
            let sd = scaled_den(den, e);
            &&& sd > 0
            &&& scaled / d == sn / sd
            &&& Remainder::of(scaled % d, d) == Remainder::of(sn % sd, sd)
        }),
{
    let size = layout.spec_mantissa_size();
    let e = aligned_exponent(layout, k);
    let scaled = n * pow2((k - e) as nat);
    let sn = scaled_num(num, e);
    let sd = scaled_den(den, e);
    let factor: nat = if k >= 0 && e >= 0 {
        pow2(size)
    } else if k >= 0 {
        pow2(k as nat)
    } else {
        1
    };
    vstd::arithmetic::power2::lemma2_to64();
    vstd::arithmetic::power2::lemma_pow2_pos(size);
    vstd::arithmetic::power2::lemma_pow2_pos(vstd::math::abs(k));
    vstd::arithmetic::power2::lemma_pow2_pos(vstd::math::abs(e));
    if k >= 0 && e >= 0 {
        vstd::arithmetic::power2::lemma_pow2_adds(e as nat, size);
        assert(den * pow2(k as nat) == (den * pow2(e as nat)) * pow2(size)) by (nonlinear_arith)
            requires
                pow2(k as nat) == pow2(e as nat) * pow2(size),
        ;
        if e == 0 {
            assert(den * pow2(0) == den) by (nonlinear_arith)
                requires
                    pow2(0) == 1,
            ;
        }
        assert(sd * factor == d);
        assert(sn * factor == scaled);
    } else if k >= 0 {
        vstd::arithmetic::power2::lemma_pow2_adds((-e) as nat, k as nat);
        assert(num * pow2(size) == (num * pow2((-e) as nat)) * pow2(k as nat))
            by (nonlinear_arith)
            requires
                pow2(size) == pow2((-e) as nat) * pow2(k as nat),
        ;
        assert(sd * factor == d);
        assert(sn * factor == scaled);
    } else {
        vstd::arithmetic::power2::lemma_pow2_adds((-k) as nat, (k - e) as nat);
        assert(num * pow2((-k) as nat) * pow2((k - e) as nat) == num * pow2((-e) as nat))
            by (nonlinear_arith)
            requires
                pow2((-e) as nat) == pow2((-k) as nat) * pow2((k - e) as nat),
        ;
        assert(sn * 1 == sn && sd * 1 == sd);
    }
    assert(sd > 0) by (nonlinear_arith)
        requires
            d == sd * factor,
            d > 0,
            factor > 0,
    ;
    lemma_scaled_division(sn, sd, factor);
}

/// Round the ratio `n / d`, of which `d` is more than half and not more,
/// times two to the `k`.
///
/// `n` and `d` are `num` and `den` with the power of two on the one that
/// needed it.
fn round_aligned(
    n: Bigint,
    d: Bigint,
    k: i32,
    layout: FloatLayout,
    kind: RoundingKind,
    negative: bool,
    Ghost(num): Ghost<nat>,
    Ghost(den): Ghost<nat>,
) -> (bits: u64)
    requires
        d.value() <= n.value() < 2 * d.value(),
        layout.spec_denormal_exponent() <= k < layout.spec_overflow_exponent(),
        den > 0,
        k >= 0 ==> n.value() == num && d.value() == den * pow2(k as nat),
        k < 0 ==> n.value() == num * pow2((-k) as nat) && d.value() == den,
    ensures
        exists|e: int| #[trigger]
            is_ulp_exponent(layout, num, den, e) && bits == rounded_bits(
                layout,
                kind,
                negative,
                num,
                den,
                e,
            ),
{
    let size = layout.mantissa_size() as i32;
    let least = layout.denormal_exponent();
    let hidden = layout.hidden_bit();
    let e: i32 = if k - size >= least {
        k - size
    } else {
        least
    };
    let count = (k - e + 1) as u32;
    let ghost sn = scaled_num(num, e as int);
    let ghost sd = scaled_den(den, e as int);
    proof {
        lemma_aligned_division(layout, num, den, n.value(), d.value(), k as int);
    }
    let (quotient, place) = divide_bits(n, &d, count);
    let up = round_up(kind, negative, quotient % 2 == 1, place);
    proof {
        layout.lemma_layout();
        assert(quotient == sn / sd);
        assert(up == kind.rounds_up(negative, quotient as nat, sn % sd, sd));
        if count < size + 1 {
            vstd::arithmetic::power2::lemma_pow2_strictly_increases(count as nat, (size + 1) as nat)
            ;
        }
        vstd::arithmetic::power2::lemma_pow2_unfold((size + 1) as nat);
        assert(is_ulp_exponent(layout, num, den, e as int));
    }
    let mantissa = if up {
        quotient + 1
    } else {
        quotient
    };
    assert((e - least) * hidden + mantissa < 0x1_0000_0000_0000_0000) by (nonlinear_arith)
        requires
            0 <= e - least <= 2100,
            hidden <= 0x10_0000_0000_0000,
            mantissa <= 2 * hidden,
    ;
    let bits = ((e - least) as u64) * hidden + mantissa;
    if bits >= layout.infinity_bits() {
        layout.infinity_bits()
    } else {
        bits
    }
}

/// Round the ratio `num / den` to the nearest float of `layout`, as `kind`
/// says for a value of the sign that `negative` gives, and return the bits
/// of its magnitude.
pub fn round_ratio(
    num: Bigint,
    den: Bigint,
    layout: FloatLayout,
    kind: RoundingKind,
    negative: bool,
) -> (bits: u64)
    requires
        den.value() > 0,
    ensures
        bits == rounded(layout, kind, negative, num.value(), den.value()),
        bits <= layout.spec_infinity_bits(),
{
    let ghost num0 = num.value();
    let ghost den0 = den.value();
    let bits = round_exactly(num, den, layout, kind, negative);
    proof {
        lemma_rounds_to_is_rounded(layout, kind, negative, num0, den0, bits as nat);
    }
    bits
}

/// Round the ratio `num / den`: the float is found bit by bit.
fn round_exactly(
    num: Bigint,
    den: Bigint,
    layout: FloatLayout,
    kind: RoundingKind,
    negative: bool,
) -> (bits: u64)
    requires
        den.value() > 0,
    ensures
        rounds_to(layout, kind, negative, num.value(), den.value(), bits as nat),
        bits <= layout.spec_infinity_bits(),
{
    if num.is_zero() {
        return 0;
    }
    let ghost num0 = num.value();
    let ghost den0 = den.value();
    let least = layout.denormal_exponent();
    let overflow = layout.overflow_exponent();
    proof {
        vstd::arithmetic::power2::lemma2_to64();
        vstd::arithmetic::power2::lemma_pow2_pos(overflow as nat);
        assert(num0 * pow2(0) == num0 && den0 * pow2(0) == den0) by (nonlinear_arith)
            requires
                pow2(0) == 1,
        ;
    }
    match num.compare(&den) {
        Order::Less => {
            assert(num0 < den0 * pow2(overflow as nat)) by (nonlinear_arith)
                requires
                    num0 < den0,
                    pow2(overflow as nat) >= 1,
            ;
            let limit = (-least) as u32;
            let mut n = num;
            let mut a: u32 = 0;
            while a < limit && matches!(n.compare(&den), Order::Less)
                invariant
                    a <= limit,
                    limit == -least,
                    den0 == den.value(),
                    n.value() == num0 * pow2(a as nat),
                    n.value() < 2 * den0,
                decreases limit - a,
            {
                proof {
                    vstd::arithmetic::power2::lemma_pow2_unfold((a + 1) as nat);
                    assert(num0 * pow2(a as nat) * 2 == num0 * (2 * pow2(a as nat)))
                        by (nonlinear_arith);
                }
                n.mul_add_small(2, 0);
                a += 1;
            }
            match n.compare(&den) {
                Order::Less => {
                    let ghost rem = n.value();
                    let place = place_of(n, &den);
                    let up = round_up(kind, negative, false, place);
                    proof {
                        vstd::arithmetic::div_mod::lemma_fundamental_div_mod_converse(
                            rem as int,
                            den0 as int,
                            0,
                            rem as int,
                        );
                        assert(scaled_num(num0, least as int) == rem);
                        assert(scaled_den(den0, least as int) == den0);
                        assert(up == kind.rounds_up(negative, 0, rem % den0, den0));
                        assert(is_ulp_exponent(layout, num0, den0, least as int));
                        assert((least - layout.spec_denormal_exponent())
                            * layout.spec_hidden_bit() == 0) by (nonlinear_arith)
                            requires
                                least - layout.spec_denormal_exponent() == 0,
                        ;
                    }
                    if up {
                        1
                    } else {
                        0
                    }
                },
                _ => {
                    assert(a >= 1);
                    round_aligned(
                        n,
                        den,
                        -(a as i32),
                        layout,
                        kind,
                        negative,
                        Ghost(num0),
                        Ghost(den0),
                    )
                },
            }
        },
        _ => {
            let mut d = den;
            let mut b: u32 = 0;
            while b < overflow
                invariant
                    b <= overflow,
                    overflow == layout.spec_overflow_exponent(),
                    num0 == num.value(),
                    den0 == den.value(),
                    num0 > 0,
                    den0 > 0,
                    d.value() == den0 * pow2(b as nat),
                    d.value() <= num0,
                    num0 < den0 * pow2(overflow as nat) ==> b < overflow,
                decreases overflow - b,
            {
                let mut twice = d.duplicate();
                twice.mul_add_small(2, 0);
                proof {
                    vstd::arithmetic::power2::lemma_pow2_unfold((b + 1) as nat);
                    assert(den0 * pow2(b as nat) * 2 == den0 * (2 * pow2(b as nat)))
                        by (nonlinear_arith);
                }
                match num.compare(&twice) {
                    Order::Less => {
                        proof {
                            if b + 1 < overflow {
                                vstd::arithmetic::power2::lemma_pow2_strictly_increases(
                                    (b + 1) as nat,
                                    overflow as nat,
                                );
                            }
                            assert(den0 * pow2((b + 1) as nat) <= den0 * pow2(overflow as nat))
                                by (nonlinear_arith)
                                requires
                                    pow2((b + 1) as nat) <= pow2(overflow as nat),
                            ;
                        }
                        return round_aligned(
                            num,
                            d,
                            b as i32,
                            layout,
                            kind,
                            negative,
                            Ghost(num0),
                            Ghost(den0),
                        );
                    },
                    _ => {},
                }
                d = twice;
                b += 1;
            }
            layout.infinity_bits()
        },
    }
}

/// Whether `mant` is the upper sixty-four bits of `value`, and `truncated`
/// says whether bits of `value` lie below them.
///
/// Of zero the bits are zero. Of a number in the binade of two to the `j`
/// they are the number, scaled so that its top bit is the top bit of the
/// mantissa, with what lies below the last bit of the mantissa cut off.
pub open spec fn is_himant(value: nat, mant: u64, truncated: bool) -> bool {
    if value == 0 {
        mant == 0 && !truncated
    } else {
        exists|j: nat| #[trigger]
            pow2(j) <= value < pow2(j + 1) && mant == (value * pow2(63)) / pow2(j) && truncated == (
            (value * pow2(63)) % pow2(j) != 0)
    }
}

impl Bigint {
    /// Get the upper bits of the number, shifted into place, and whether
    /// bits were shifted out.
    pub fn himant(&self) -> (r: (u64, bool))
        ensures
            is_himant(self.value(), r.0, r.1),
            self.value() > 0 ==> r.0 >= 0x8000_0000_0000_0000,
    {
        if self.is_zero() {
            return (0, false);
        }
        let ghost value = self.value();
        let len = self.limbs.len();
        let mut den = Bigint::from_u64(1);
        let mut j: u128 = 0;
        proof {
            vstd::arithmetic::power2::lemma2_to64();
            vstd::arithmetic::power2::lemma2_to64_rest();
            crate::bignum::lemma_prefix_bound(self.limbs@, len as nat);
            crate::bignum::lemma_weight_is_pow2(len as nat);
        }
        loop
            invariant
                value == self.value(),
                len == self.limbs@.len(),
                value < pow2(32 * len as nat),
                den.value() == pow2(j as nat),
                den.value() <= value,
                j <= 32 * len,
            decreases 32 * len - j,
        {
            let mut twice = den.duplicate();
            twice.mul_add_small(2, 0);
            proof {
                vstd::arithmetic::power2::lemma_pow2_unfold((j + 1) as nat);
            }
            match self.compare(&twice) {
                Order::Less => {
                    let (mant, place) = divide_bits(self.duplicate(), &den, 64);
                    proof {
                        vstd::arithmetic::power2::lemma2_to64_rest();
                        assert(pow2(j as nat) <= value < pow2((j + 1) as nat));
                    }
                    return (mant, !matches!(place, Remainder::Exact));
                },
                _ => {
                    proof {
                        if j + 1 > 32 * len {
                            vstd::arithmetic::power2::lemma_pow2_strictly_increases(
                                32 * len as nat,
                                (j + 1) as nat,
                            );
                        }
                    }
                },
            }
            den = twice;
            j += 1;
        }
    }
}

} // verus!

//! The zeros that do not count: a number is the same without the zeros
//! with which its integer digits begin and its fraction digits end.

use vstd::arithmetic::power::pow;
use vstd::prelude::*;

use crate::atof::{
    float_den, float_num, parts_exponent, parts_mantissa, spec_to_float, value_from, FloatParts,
};
use crate::convert::lemma_rounded_of_equal_ratios;
use crate::digit::{digit_value, is_digit, is_radix};
use crate::float::FloatLayout;
use crate::rounding::RoundingKind;
use crate::scan::{count_between, is_significant, value_between};
use crate::shortest::lemma_power_link;

verus! {

/// The parts from the first integer digit that counts to the last fraction
/// digit that counts.
pub open spec fn significant_parts(parts: FloatParts) -> FloatParts {
    FloatParts { integer_start: parts.integer_first, fraction_end: parts.fraction_last, ..parts }
}

/// A stretch without a digit that counts makes zero.
pub proof fn lemma_zeros_make_zero(s: Seq<u8>, from: int, to: int, radix: u32)
    requires
        0 <= from <= to <= s.len(),
        forall|i: int| from <= i < to ==> !is_significant(#[trigger] s[i], radix),
    ensures
        value_between(s, from, to, radix) == 0,
    decreases to - from,
{
    if from < to {
        lemma_zeros_make_zero(s, from, to - 1, radix);
        assert(!is_significant(s[to - 1], radix));
        assert(0 * (radix as nat) == 0);
    }
}

/// The zeros with which a stretch begins do not change its number.
pub proof fn lemma_leading_zeros(s: Seq<u8>, from: int, first: int, to: int, radix: u32)
    requires
        0 <= from <= first <= to <= s.len(),
        forall|i: int| from <= i < first ==> !is_significant(#[trigger] s[i], radix),
    ensures
        value_between(s, from, to, radix) == value_between(s, first, to, radix),
    decreases to - first,
{
    if first < to {
        lemma_leading_zeros(s, from, first, to - 1, radix);
    } else {
        lemma_zeros_make_zero(s, from, to, radix);
    }
}

/// The digits of a stretch are those of its two parts.
pub proof fn lemma_count_splits(s: Seq<u8>, from: int, mid: int, to: int, radix: u32)
    requires
        0 <= from <= mid <= to <= s.len(),
    ensures
        count_between(s, from, to, radix) == count_between(s, from, mid, radix) + count_between(
            s,
            mid,
            to,
            radix,
        ),
    decreases to - mid,
{
    if mid < to {
        lemma_count_splits(s, from, mid, to - 1, radix);
    }
}

/// The zeros with which a stretch ends multiply its number by the radix
/// once each.
pub proof fn lemma_trailing_zeros(
    acc: nat,
    s: Seq<u8>,
    from: int,
    last: int,
    to: int,
    radix: u32,
)
    requires
        is_radix(radix),
        0 <= from <= last <= to <= s.len(),
        forall|i: int| last <= i < to ==> !is_significant(#[trigger] s[i], radix),
    ensures
        value_from(acc, s, from, to, radix) == value_from(acc, s, from, last, radix) * pow(
            radix as int,
            count_between(s, last, to, radix),
        ),
    decreases to - last,
{
    let r = radix as int;
    if last < to {
        lemma_trailing_zeros(acc, s, from, last, to - 1, radix);
        assert(!is_significant(s[to - 1], radix));
        let before = count_between(s, last, to - 1, radix);
        let front = value_from(acc, s, from, last, radix);
        if is_digit(s[to - 1], radix) {
            vstd::arithmetic::power::lemma_pow_adds(r, before, 1);
            vstd::arithmetic::power::lemma_pow1(r);
            assert(front * pow(r, before) * r == front * (pow(r, before) * r))
                by (nonlinear_arith);
        }
    } else {
        vstd::arithmetic::power::lemma_pow0(r);
        assert(count_between(s, last, to, radix) == 0);
        assert(value_from(acc, s, from, last, radix) * 1 == value_from(acc, s, from, last, radix));
    }
}

/// A number is the same without the zeros that do not count: the parts
/// from the first digit that counts to the last make the same float.
pub proof fn lemma_trimmed_value(
    s: Seq<u8>,
    parts: FloatParts,
    negative: bool,
    layout: FloatLayout,
    radix: u32,
    kind: RoundingKind,
)
    requires
        is_radix(radix),
        parts.is_within(s.len()),
        parts.is_trimmed(s, radix),
    ensures
        significant_parts(parts).is_within(s.len()),
        spec_to_float(s, significant_parts(parts), negative, layout, radix, kind) == spec_to_float(
            s,
            parts,
            negative,
            layout,
            radix,
            kind,
        ),
{
    let r = radix as int;
    let kept = significant_parts(parts);
    let whole = value_between(s, parts.integer_start as int, parts.integer_end as int, radix);
    lemma_leading_zeros(
        s,
        parts.integer_start as int,
        parts.integer_first as int,
        parts.integer_end as int,
        radix,
    );
    lemma_trailing_zeros(
        whole,
        s,
        parts.fraction_start as int,
        parts.fraction_last as int,
        parts.fraction_end as int,
        radix,
    );
    lemma_count_splits(
        s,
        parts.fraction_start as int,
        parts.fraction_last as int,
        parts.fraction_end as int,
        radix,
    );
    let zeros = count_between(s, parts.fraction_last as int, parts.fraction_end as int, radix);
    let m = parts_mantissa(s, kept, radix);
    let e = parts_exponent(s, kept, radix);
    let full = parts_mantissa(s, parts, radix);
    let scaled = pow(r, zeros) as nat;
    vstd::arithmetic::power::lemma_pow_positive(r, zeros);
    assert(full == m * scaled);
    assert(parts_exponent(s, parts, radix) == e - zeros);
    // Both ratios are the mantissa times the radix to the exponent.
    let down: nat = (if e < 0 {
        -e
    } else {
        0
    }) as nat + zeros;
    let up: nat = (down + e) as nat;
    let low: nat = (up - zeros) as nat;
    let n1 = float_num(full, radix, e - zeros);
    let d1 = float_den(radix, e - zeros);
    let n2 = float_num(m, radix, e);
    let d2 = float_den(radix, e);
    let pd = pow(r, down);
    lemma_power_link(full, radix, low, down, 0);
    lemma_power_link(m, radix, up, down, 0);
    vstd::arithmetic::power::lemma_pow_adds(r, low, zeros);
    vstd::arithmetic::power::lemma_pow_positive(r, down);
    assert(low - down - 0 == e - zeros && up - down - 0 == e && down + 0 == down);
    assert(n1 * d2 == n2 * d1) by (nonlinear_arith)
        requires
            n1 * pd == full * pow(r, low) * d1,
            n2 * pd == m * pow(r, up) * d2,
            pow(r, up) == pow(r, low) * scaled,
            full == m * scaled,
            pd > 0,
    ;
    lemma_rounded_of_equal_ratios(layout, kind, negative, n1, d1, n2, d2);
}

} // verus!

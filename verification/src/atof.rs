//! Parsing floats: a sign, then a special value or a number of integer
//! digits, fraction digits and an exponent, which is rounded exactly to the
//! nearest float.

use vstd::arithmetic::power::pow;
use vstd::arithmetic::power2::pow2;
use vstd::prelude::*;

use crate::ascii::{LOWER_I, LOWER_N, MINUS, PLUS};
use crate::atoi::accumulate;
use crate::bignum::Bigint;
use crate::convert::{
    is_ulp_exponent, lemma_ulp_exponent_is_unique, round_ratio, rounded, rounded_bits, scaled_den,
    scaled_num, ulp_exponent,
};
use crate::digit::{digit_value, is_digit, is_radix, to_digit};
use crate::error::{Error, ErrorCode};
use crate::flags::{
    spec_to_ascii_lowercase, to_ascii_lowercase, CASE_SENSITIVE_SPECIAL, NO_EXPONENT_NOTATION,
    NO_EXPONENT_WITHOUT_FRACTION, NO_FLOAT_LEADING_ZEROS, NO_POSITIVE_EXPONENT_SIGN,
    NO_POSITIVE_MANTISSA_SIGN, NO_SPECIAL, REQUIRED_EXPONENT_DIGITS, REQUIRED_EXPONENT_NOTATION,
    REQUIRED_EXPONENT_SIGN, REQUIRED_FRACTION_DIGITS, REQUIRED_INTEGER_DIGITS,
    REQUIRED_MANTISSA_SIGN, SPECIAL_DIGIT_SEPARATOR,
};
use crate::float::FloatLayout;
use crate::format::NumberFormat;
use crate::options::ParseFloatOptions;
use crate::rounding::{round_up, Remainder, RoundingKind};
use crate::scan::{
    count_between, count_digits, exponent_policy, first_significant, fraction_policy,
    has_leading_zero, integer_policy, is_significant, last_significant, leading_zero,
    lemma_count_bound, lemma_first_significant, lemma_last_significant, ltrim_zero, region_end,
    rtrim_zero, scan_digits, spec_exponent_policy, spec_fraction_policy, spec_integer_policy,
    value_between,
};

verus! {

/// Where the parts of a number stand in the text.
#[derive(Clone, Copy, Debug, PartialEq, Eq, Structural)]
pub struct FloatParts {
    /// Where the integer digits begin.
    pub integer_start: usize,
    /// Where the integer digits end.
    pub integer_end: usize,
    /// Whether a decimal point follows the integer digits.
    pub has_point: bool,
    /// Where the fraction digits begin.
    pub fraction_start: usize,
    /// Where the fraction digits end.
    pub fraction_end: usize,
    /// Whether an exponent character follows the mantissa.
    pub has_exponent: bool,
    /// Whether a minus follows the exponent character.
    pub exponent_negative: bool,
    /// Where the exponent digits begin.
    pub exponent_start: usize,
    /// Where the exponent digits end.
    pub exponent_end: usize,
    /// Where the number ends.
    pub end: usize,
    /// Where the integer digits that count begin: at the first that is not
    /// zero, or where the integer digits end if all are zeros.
    pub integer_first: usize,
    /// Where the fraction digits that count end: behind the last that is
    /// not zero, or where the fraction digits begin if all are zeros.
    pub fraction_last: usize,
    /// The number of zeros with which the fraction begins, if no integer
    /// digit counts; zero otherwise.
    pub digits_start: usize,
}

/// The parts without the zeros that do not count: those with which the
/// integer digits begin and those with which the fraction digits end; and
/// the number of zeros with which what is left of the fraction begins, if
/// nothing is left of the integer.
pub open spec fn spec_trim(s: Seq<u8>, parts: FloatParts, radix: u32) -> FloatParts {
    let integer_first = first_significant(
        s,
        parts.integer_start as int,
        parts.integer_end as int,
        radix,
    );
    let fraction_last = last_significant(
        s,
        parts.fraction_start as int,
        parts.fraction_end as int,
        radix,
    );
    let digits_start = if integer_first == parts.integer_end {
        count_between(
            s,
            parts.fraction_start as int,
            first_significant(s, parts.fraction_start as int, fraction_last, radix),
            radix,
        )
    } else {
        0
    };
    FloatParts {
        integer_first: integer_first as usize,
        fraction_last: fraction_last as usize,
        digits_start: digits_start as usize,
        ..parts
    }
}

/// Pass over the zeros that do not count: find where the integer digits
/// that count begin and the fraction digits that count end.
pub fn trim(bytes: &[u8], parts: FloatParts, radix: u32) -> (r: FloatParts)
    requires
        is_radix(radix),
        parts.is_within(bytes@.len()),
    ensures
        r == spec_trim(bytes@, parts, radix),
        r.is_within(bytes@.len()),
        r.is_trimmed(bytes@, radix),
{
    let (integer_first, _) = ltrim_zero(bytes, parts.integer_start, parts.integer_end, radix);
    let (fraction_last, _) = rtrim_zero(bytes, parts.fraction_start, parts.fraction_end, radix);
    let digits_start = if integer_first == parts.integer_end {
        ltrim_zero(bytes, parts.fraction_start, fraction_last, radix).1
    } else {
        0
    };
    proof {
        lemma_first_significant(
            bytes@,
            parts.integer_start as int,
            parts.integer_end as int,
            radix,
        );
        lemma_last_significant(
            bytes@,
            parts.fraction_start as int,
            parts.fraction_end as int,
            radix,
        );
    }
    FloatParts {
        integer_start: parts.integer_start,
        integer_end: parts.integer_end,
        has_point: parts.has_point,
        fraction_start: parts.fraction_start,
        fraction_end: parts.fraction_end,
        has_exponent: parts.has_exponent,
        exponent_negative: parts.exponent_negative,
        exponent_start: parts.exponent_start,
        exponent_end: parts.exponent_end,
        end: parts.end,
        integer_first,
        fraction_last,
        digits_start,
    }
}

impl FloatParts {
    /// Whether the digits that count are told from the zeros that do not:
    /// no integer digit before `integer_first` and no fraction digit from
    /// `fraction_last` on is other than zero, the digit at `integer_first`
    /// and the one before `fraction_last` are not zero, and `digits_start`
    /// counts the zeros with which the fraction begins where no integer
    /// digit counts.
    pub open spec fn is_trimmed(self, s: Seq<u8>, radix: u32) -> bool {
        &&& self.integer_start <= self.integer_first <= self.integer_end
        &&& self.fraction_start <= self.fraction_last <= self.fraction_end
        &&& forall|i: int|
            self.integer_start <= i < self.integer_first ==> !is_significant(#[trigger] s[i], radix)
        &&& self.integer_first < self.integer_end ==> is_significant(
            s[self.integer_first as int],
            radix,
        )
        &&& forall|i: int|
            self.fraction_last <= i < self.fraction_end ==> !is_significant(#[trigger] s[i], radix)
        &&& self.fraction_last > self.fraction_start ==> is_significant(
            s[self.fraction_last - 1],
            radix,
        )
        &&& self.digits_start == if self.integer_first == self.integer_end {
            count_between(
                s,
                self.fraction_start as int,
                first_significant(
                    s,
                    self.fraction_start as int,
                    self.fraction_last as int,
                    radix,
                ),
                radix,
            )
        } else {
            0
        }
    }

    /// The number of integer digits that count.
    pub open spec fn spec_integer_digits(self, s: Seq<u8>, radix: u32) -> nat {
        count_between(s, self.integer_first as int, self.integer_end as int, radix)
    }

    /// The number of fraction digits up to the last that counts.
    pub open spec fn spec_fraction_digits(self, s: Seq<u8>, radix: u32) -> nat {
        count_between(s, self.fraction_start as int, self.fraction_last as int, radix)
    }

    /// The number of digits of the mantissa from the first that counts to
    /// the last.
    pub open spec fn spec_mantissa_digits(self, s: Seq<u8>, radix: u32) -> int {
        self.spec_integer_digits(s, radix) + self.spec_fraction_digits(s, radix)
            - self.digits_start
    }

    /// Count the integer digits that count.
    pub fn integer_digits(&self, bytes: &[u8], radix: u32) -> (r: usize)
        requires
            is_radix(radix),
            self.integer_first <= self.integer_end <= bytes@.len(),
        ensures
            r == self.spec_integer_digits(bytes@, radix),
    {
        count_digits(bytes, self.integer_first, self.integer_end, radix)
    }

    /// Count the fraction digits up to the last that counts.
    pub fn fraction_digits(&self, bytes: &[u8], radix: u32) -> (r: usize)
        requires
            is_radix(radix),
            self.fraction_start <= self.fraction_last <= bytes@.len(),
        ensures
            r == self.spec_fraction_digits(bytes@, radix),
    {
        count_digits(bytes, self.fraction_start, self.fraction_last, radix)
    }

    /// The zeros with which the fraction begins where no integer digit
    /// counts, or none.
    pub fn digits_start(&self) -> (r: usize)
        ensures
            r == self.digits_start,
    {
        self.digits_start
    }

    /// Count the digits of the mantissa from the first that counts to the
    /// last.
    pub fn mantissa_digits(&self, bytes: &[u8], radix: u32) -> (r: usize)
        requires
            is_radix(radix),
            self.is_within(bytes@.len()),
            self.is_trimmed(bytes@, radix),
        ensures
            r == self.spec_mantissa_digits(bytes@, radix),
    {
        let integer = self.integer_digits(bytes, radix);
        let fraction = self.fraction_digits(bytes, radix);
        proof {
            let s = bytes@;
            let first = first_significant(
                s,
                self.fraction_start as int,
                self.fraction_last as int,
                radix,
            );
            lemma_first_significant(s, self.fraction_start as int, self.fraction_last as int, radix);
            crate::prefix::lemma_count_of_longer_stretch(
                s,
                self.fraction_start as int,
                first,
                self.fraction_last as int,
                radix,
            );
            lemma_count_bound(s, self.integer_first as int, self.integer_end as int, radix);
            lemma_count_bound(s, self.fraction_start as int, self.fraction_last as int, radix);
        }
        integer + fraction - self.digits_start
    }

    /// Whether the parts stand in order inside a text of `len` bytes.
    pub open spec fn is_within(self, len: nat) -> bool {
        &&& self.integer_start <= self.integer_end <= self.fraction_start <= self.fraction_end
            <= self.end <= len
        &&& self.fraction_end <= self.exponent_start <= self.exponent_end <= len
    }
}

/// The number that the digits among `s[from..to]` make of `acc` when they
/// are appended to its digits; bytes that are no digits are passed over.
pub open spec fn value_from(acc: nat, s: Seq<u8>, from: int, to: int, radix: u32) -> nat
    decreases to - from,
{
    if to <= from || to > s.len() || from < 0 {
        acc
    } else if is_digit(s[to - 1], radix) {
        value_from(acc, s, from, to - 1, radix) * (radix as nat) + digit_value(s[to - 1])
    } else {
        value_from(acc, s, from, to - 1, radix)
    }
}

/// The mantissa of the number: its integer digits and its fraction digits,
/// read as one integer.
pub open spec fn parts_mantissa(s: Seq<u8>, parts: FloatParts, radix: u32) -> nat {
    value_from(
        value_between(s, parts.integer_start as int, parts.integer_end as int, radix),
        s,
        parts.fraction_start as int,
        parts.fraction_end as int,
        radix,
    )
}

/// The exponent of the radix by which the mantissa is scaled: the
/// exponent that is written, less the number of fraction digits.
pub open spec fn parts_exponent(s: Seq<u8>, parts: FloatParts, radix: u32) -> int {
    let written = if parts.has_exponent {
        value_between(s, parts.exponent_start as int, parts.exponent_end as int, radix) as int
    } else {
        0
    };
    (if parts.exponent_negative {
        -written
    } else {
        written
    }) - count_between(s, parts.fraction_start as int, parts.fraction_end as int, radix)
}

/// The numerator of `mantissa * radix^exponent`.
pub open spec fn float_num(mantissa: nat, radix: u32, exponent: int) -> nat {
    if exponent >= 0 {
        mantissa * (pow(radix as int, exponent as nat) as nat)
    } else {
        mantissa
    }
}

/// The denominator of `mantissa * radix^exponent`.
pub open spec fn float_den(radix: u32, exponent: int) -> nat {
    if exponent < 0 {
        pow(radix as int, (-exponent) as nat) as nat
    } else {
        1
    }
}

/// The parts of the number that begins at `start`, or the error that the
/// format finds in them.
///
/// The integer digits are a region of digits. If the decimal point follows,
/// a region of fraction digits follows it. If the exponent character, in
/// either case, follows, then a sign may follow and a region of exponent
/// digits does. The mantissa must hold a digit. Then the format is asked, in
/// this order, for integer digits, fraction digits after a point, no leading
/// zeros, and for what it holds of the exponent. What is found is trimmed:
/// see [`spec_trim`].
pub open spec fn spec_extract(
    s: Seq<u8>,
    start: int,
    radix: u32,
    exponent_char: u8,
    format: NumberFormat,
) -> Result<FloatParts, Error> {
    let integer_end = region_end(s, start, radix, spec_integer_policy(format));
    let has_point = integer_end < s.len() && s[integer_end] == format.spec_decimal_point();
    let fraction_start = if has_point {
        integer_end + 1
    } else {
        integer_end
    };
    let fraction_end = if has_point {
        region_end(s, fraction_start, radix, spec_fraction_policy(format))
    } else {
        integer_end
    };
    let has_exponent = fraction_end < s.len() && spec_to_ascii_lowercase(s[fraction_end])
        == spec_to_ascii_lowercase(exponent_char);
    let sign_at = fraction_end + 1;
    let plus = has_exponent && sign_at < s.len() && s[sign_at] == PLUS;
    let minus = has_exponent && sign_at < s.len() && s[sign_at] == MINUS;
    let exponent_start = if !has_exponent {
        fraction_end
    } else if plus || minus {
        sign_at + 1
    } else {
        sign_at
    };
    let exponent_end = if has_exponent {
        region_end(s, exponent_start, radix, spec_exponent_policy(format))
    } else {
        fraction_end
    };
    let integer_count = count_between(s, start, integer_end, radix);
    let fraction_count = count_between(s, fraction_start, fraction_end, radix);
    let exponent_count = count_between(s, exponent_start, exponent_end, radix);
    if integer_count == 0 && fraction_count == 0 {
        Err(Error { code: ErrorCode::EmptyMantissa, index: start as usize })
    } else if format.has(REQUIRED_INTEGER_DIGITS) && integer_count == 0 {
        Err(Error { code: ErrorCode::EmptyInteger, index: start as usize })
    } else if format.has(REQUIRED_FRACTION_DIGITS) && has_point && fraction_count == 0 {
        Err(Error { code: ErrorCode::EmptyFraction, index: fraction_start as usize })
    } else if format.has(NO_FLOAT_LEADING_ZEROS) && has_leading_zero(
        s,
        start,
        integer_end,
        radix,
    ) {
        Err(Error { code: ErrorCode::InvalidLeadingZeros, index: start as usize })
    } else if has_exponent && format.has(NO_EXPONENT_NOTATION) {
        Err(Error { code: ErrorCode::InvalidExponent, index: fraction_end as usize })
    } else if !has_exponent && format.has(REQUIRED_EXPONENT_NOTATION) {
        Err(Error { code: ErrorCode::MissingExponentNotation, index: fraction_end as usize })
    } else if has_exponent && format.has(REQUIRED_EXPONENT_DIGITS) && exponent_count == 0 {
        Err(Error { code: ErrorCode::EmptyExponent, index: sign_at as usize })
    } else if has_exponent && format.has(NO_EXPONENT_WITHOUT_FRACTION) && !has_point {
        Err(Error { code: ErrorCode::ExponentWithoutFraction, index: fraction_end as usize })
    } else if plus && format.has(NO_POSITIVE_EXPONENT_SIGN) {
        Err(Error { code: ErrorCode::InvalidPositiveExponentSign, index: sign_at as usize })
    } else if has_exponent && !plus && !minus && format.has(REQUIRED_EXPONENT_SIGN) {
        Err(Error { code: ErrorCode::MissingExponentSign, index: sign_at as usize })
    } else {
        Ok(
            spec_trim(
                s,
                FloatParts {
                    integer_start: start as usize,
                    integer_end: integer_end as usize,
                    has_point,
                    fraction_start: fraction_start as usize,
                    fraction_end: fraction_end as usize,
                    has_exponent,
                    exponent_negative: minus,
                    exponent_start: exponent_start as usize,
                    exponent_end: exponent_end as usize,
                    end: exponent_end as usize,
                    integer_first: start as usize,
                    fraction_last: fraction_end as usize,
                    digits_start: 0,
                },
                radix,
            ),
        )
    }
}

/// Extract float subcomponents from input bytes: find the integer digits,
/// the fraction digits and the exponent of the number that begins at
/// `start`, hold them to the format, and pass over the zeros with which
/// the integer digits begin and the fraction digits end.
pub fn extract(bytes: &[u8], start: usize, radix: u32, exponent_char: u8, format: NumberFormat)
    -> (r: Result<FloatParts, Error>)
    requires
        is_radix(radix),
        start <= bytes@.len(),
    ensures
        r == spec_extract(bytes@, start as int, radix, exponent_char, format),
        r matches Ok(parts) ==> parts.is_within(bytes@.len()) && parts.integer_start == start
            && parts.is_trimmed(bytes@, radix),
{
    let len = bytes.len();
    let integer_end = scan_digits(bytes, start, radix, integer_policy(format));
    let has_point = integer_end < len && bytes[integer_end] == format.decimal_point();
    let fraction_start = if has_point {
        integer_end + 1
    } else {
        integer_end
    };
    let fraction_end = if has_point {
        scan_digits(bytes, fraction_start, radix, fraction_policy(format))
    } else {
        integer_end
    };
    let has_exponent = fraction_end < len && to_ascii_lowercase(bytes[fraction_end])
        == to_ascii_lowercase(exponent_char);
    let sign_at = if has_exponent {
        fraction_end + 1
    } else {
        fraction_end
    };
    let plus = has_exponent && sign_at < len && bytes[sign_at] == PLUS;
    let minus = has_exponent && sign_at < len && bytes[sign_at] == MINUS;
    let exponent_start = if plus || minus {
        sign_at + 1
    } else {
        sign_at
    };
    let exponent_end = if has_exponent {
        scan_digits(bytes, exponent_start, radix, exponent_policy(format))
    } else {
        fraction_end
    };
    let integer_count = count_digits(bytes, start, integer_end, radix);
    let fraction_count = count_digits(bytes, fraction_start, fraction_end, radix);
    if integer_count == 0 && fraction_count == 0 {
        return Err(Error { code: ErrorCode::EmptyMantissa, index: start });
    }
    if format.required_integer_digits() && integer_count == 0 {
        return Err(Error { code: ErrorCode::EmptyInteger, index: start });
    }
    if format.required_fraction_digits() && has_point && fraction_count == 0 {
        return Err(Error { code: ErrorCode::EmptyFraction, index: fraction_start });
    }
    if format.no_float_leading_zeros() && leading_zero(bytes, start, integer_end, radix) {
        return Err(Error { code: ErrorCode::InvalidLeadingZeros, index: start });
    }
    if has_exponent && format.no_exponent_notation() {
        return Err(Error { code: ErrorCode::InvalidExponent, index: fraction_end });
    }
    if !has_exponent && format.required_exponent_notation() {
        return Err(Error { code: ErrorCode::MissingExponentNotation, index: fraction_end });
    }
    if has_exponent && format.required_exponent_digits() && count_digits(
        bytes,
        exponent_start,
        exponent_end,
        radix,
    ) == 0 {
        return Err(Error { code: ErrorCode::EmptyExponent, index: sign_at });
    }
    if has_exponent && format.no_exponent_without_fraction() && !has_point {
        return Err(Error { code: ErrorCode::ExponentWithoutFraction, index: fraction_end });
    }
    if plus && format.no_positive_exponent_sign() {
        return Err(Error { code: ErrorCode::InvalidPositiveExponentSign, index: sign_at });
    }
    if has_exponent && !plus && !minus && format.required_exponent_sign() {
        return Err(Error { code: ErrorCode::MissingExponentSign, index: sign_at });
    }
    let parts = FloatParts {
        integer_start: start,
        integer_end,
        has_point,
        fraction_start,
        fraction_end,
        has_exponent,
        exponent_negative: minus,
        exponent_start,
        exponent_end,
        end: exponent_end,
        integer_first: start,
        fraction_last: fraction_end,
        digits_start: 0,
    };
    Ok(trim(bytes, parts, radix))
}

/// The digits of a stretch make the number that they make of zero.
pub proof fn lemma_value_between_is_value_from(s: Seq<u8>, from: int, to: int, radix: u32)
    ensures
        value_between(s, from, to, radix) == value_from(0, s, from, to, radix),
    decreases to - from,
{
    if !(to <= from || to > s.len() || from < 0) {
        lemma_value_between_is_value_from(s, from, to - 1, radix);
    }
}

/// A number of fewer than `k` digits, with the digits of a stretch
/// appended, has fewer than `k` and their count.
pub proof fn lemma_value_from_bound(acc: nat, k: nat, s: Seq<u8>, from: int, to: int, radix: u32)
    requires
        is_radix(radix),
        acc < pow(radix as int, k),
    ensures
        value_from(acc, s, from, to, radix) < pow(
            radix as int,
            k + count_between(s, from, to, radix),
        ),
    decreases to - from,
{
    if !(to <= from || to > s.len() || from < 0) {
        lemma_value_from_bound(acc, k, s, from, to - 1, radix);
        if is_digit(s[to - 1], radix) {
            let before = value_from(acc, s, from, to - 1, radix);
            let count = k + count_between(s, from, to - 1, radix);
            let power = pow(radix as int, count);
            vstd::arithmetic::power::lemma_pow_adds(radix as int, count, 1);
            vstd::arithmetic::power::lemma_pow1(radix as int);
            assert(before * radix + digit_value(s[to - 1]) < power * radix) by (nonlinear_arith)
                requires
                    before + 1 <= power,
                    digit_value(s[to - 1]) < radix,
                    radix > 0,
            ;
        }
    }
}

/// A power of a radix is not below the same power of two.
pub proof fn lemma_pow_at_least_pow2(radix: u32, e: nat)
    requires
        is_radix(radix),
    ensures
        pow(radix as int, e) >= pow2(e),
        pow2(e) >= 1,
    decreases e,
{
    vstd::arithmetic::power2::lemma_pow2_pos(e);
    if e == 0 {
        vstd::arithmetic::power::lemma_pow0(radix as int);
        vstd::arithmetic::power2::lemma2_to64();
    } else {
        lemma_pow_at_least_pow2(radix, (e - 1) as nat);
        vstd::arithmetic::power2::lemma_pow2_unfold(e);
        vstd::arithmetic::power::lemma_pow_adds(radix as int, (e - 1) as nat, 1);
        vstd::arithmetic::power::lemma_pow1(radix as int);
        let below = pow(radix as int, (e - 1) as nat);
        assert(below * radix >= 2 * pow2((e - 1) as nat)) by (nonlinear_arith)
            requires
                below >= pow2((e - 1) as nat),
                radix >= 2,
                pow2((e - 1) as nat) >= 0,
        ;
    }
}

/// Append the digits among `bytes[from..to]` to the digits of `big`.
pub fn accumulate_big(big: &mut Bigint, bytes: &[u8], from: usize, to: usize, radix: u32)
    requires
        is_radix(radix),
        from <= to <= bytes@.len(),
    ensures
        final(big).value() == value_from(old(big).value(), bytes@, from as int, to as int, radix),
{
    let mut p = from;
    while p < to
        invariant
            is_radix(radix),
            from <= p <= to <= bytes@.len(),
            big.value() == value_from(old(big).value(), bytes@, from as int, p as int, radix),
        decreases to - p,
    {
        match to_digit(bytes[p], radix) {
            Some(d) => {
                big.mul_add_small(radix, d);
            },
            None => {},
        }
        p += 1;
    }
}

/// Multiply `big` by the power `times` of `radix`.
pub fn scale(big: &mut Bigint, radix: u32, times: u128)
    requires
        is_radix(radix),
    ensures
        final(big).value() == old(big).value() * pow(radix as int, times as nat),
{
    let mut done: u128 = 0;
    let ghost start = big.value();
    proof {
        vstd::arithmetic::power::lemma_pow0(radix as int);
        assert(start * 1 == start);
    }
    while done < times
        invariant
            done <= times,
            is_radix(radix),
            big.value() == start * pow(radix as int, done as nat),
        decreases times - done,
    {
        proof {
            vstd::arithmetic::power::lemma_pow_adds(radix as int, done as nat, 1);
            vstd::arithmetic::power::lemma_pow1(radix as int);
            assert(start * pow(radix as int, done as nat) * radix == start * (pow(
                radix as int,
                done as nat,
            ) * radix)) by (nonlinear_arith);
        }
        big.mul_add_small(radix, 0);
        done += 1;
    }
}

/// The exponent beyond which a number is certain to be infinite, or, with
/// the number of its digits added and the sign turned, to be rounded
/// from zero.
pub const EXPONENT_CLAMP: u128 = 1100;

/// The largest written exponent that is read in full; a larger one is
/// beyond the clamp whatever the fraction digits take from it.
pub const EXPONENT_LIMIT: u128 = 0x10_0000_0000_0000_0000_0000_0000;

/// The bits of the magnitude of the number with the parts `parts`: its
/// mantissa, scaled by the power of the radix that its exponent gives and
/// rounded to the nearest float of `layout`.
pub open spec fn spec_to_float(
    s: Seq<u8>,
    parts: FloatParts,
    negative: bool,
    layout: FloatLayout,
    radix: u32,
    kind: RoundingKind,
) -> nat {
    let mantissa = parts_mantissa(s, parts, radix);
    let exponent = parts_exponent(s, parts, radix);
    rounded(
        layout,
        kind,
        negative,
        float_num(mantissa, radix, exponent),
        float_den(radix, exponent),
    )
}

/// A number with an exponent from the clamp on is infinite.
proof fn lemma_huge(layout: FloatLayout, kind: RoundingKind, negative: bool, mantissa: nat, radix: u32, exponent: int)
    requires
        is_radix(radix),
        mantissa > 0,
        exponent >= EXPONENT_CLAMP,
    ensures
        rounded(
            layout,
            kind,
            negative,
            float_num(mantissa, radix, exponent),
            float_den(radix, exponent),
        ) == layout.spec_infinity_bits(),
{
    let power = pow(radix as int, exponent as nat);
    lemma_pow_at_least_pow2(radix, exponent as nat);
    vstd::arithmetic::power2::lemma_pow2_strictly_increases(
        layout.spec_overflow_exponent(),
        exponent as nat,
    );
    assert(mantissa * power >= power) by (nonlinear_arith)
        requires
            mantissa >= 1,
            power >= 0,
    ;
    assert(1 * pow2(layout.spec_overflow_exponent()) == pow2(layout.spec_overflow_exponent()));
}

/// A number whose digits all stand beyond the clamp behind the point is
/// rounded from zero.
proof fn lemma_tiny(
    layout: FloatLayout,
    kind: RoundingKind,
    negative: bool,
    mantissa: nat,
    digits: nat,
    radix: u32,
    exponent: int,
)
    requires
        is_radix(radix),
        mantissa > 0,
        mantissa < pow(radix as int, digits),
        exponent <= -(digits + EXPONENT_CLAMP),
    ensures
        ({
            let num = float_num(mantissa, radix, exponent);
            let den = float_den(radix, exponent);
            let rem = num * pow2((-layout.spec_denormal_exponent()) as nat);
            &&& Remainder::of(rem, den) == Remainder::BelowHalf
            &&& rounded(layout, kind, negative, num, den) == if kind.rounds_up(
                negative,
                0,
                rem,
                den,
            ) {
                1nat
            } else {
                0nat
            }
        }),
{
    let clamp = EXPONENT_CLAMP as nat;
    let least = (-layout.spec_denormal_exponent()) as nat;
    let den = pow(radix as int, (-exponent) as nat);
    let most = pow(radix as int, digits);
    let room = pow(radix as int, clamp);
    vstd::arithmetic::power::lemma_pow_increases(
        radix as nat,
        digits + clamp,
        (-exponent) as nat,
    );
    vstd::arithmetic::power::lemma_pow_adds(radix as int, digits, clamp);
    lemma_pow_at_least_pow2(radix, clamp);
    vstd::arithmetic::power2::lemma_pow2_strictly_increases(least + 1, clamp);
    vstd::arithmetic::power2::lemma_pow2_unfold(least + 1);
    vstd::arithmetic::power2::lemma_pow2_pos(least);
    assert(2 * (mantissa * pow2(least)) < most * room) by (nonlinear_arith)
        requires
            mantissa + 1 <= most,
            2 * pow2(least) < room,
            pow2(least) > 0,
            mantissa > 0,
    ;
    crate::convert::lemma_rounded_tiny(layout, kind, negative, mantissa, den as nat);
}

/// Round `mantissa * radix^exponent` to the nearest float of `layout`, as
/// `kind` says for a value of the sign that `negative` gives, and return the
/// bits of its magnitude. The mantissa has at most `digits` digits.
///
/// An exponent beyond the clamp settles the float without arithmetic; any
/// other is raised to its power, and the ratio is rounded.
pub fn round_power(
    mantissa: Bigint,
    digits: u128,
    radix: u32,
    exponent: i128,
    layout: FloatLayout,
    kind: RoundingKind,
    negative: bool,
) -> (bits: u64)
    requires
        is_radix(radix),
        mantissa.value() < pow(radix as int, digits as nat),
        digits <= 0x2_0000_0000_0000_0000,
        -(EXPONENT_LIMIT as int) - 0x2_0000_0000_0000_0000 <= exponent <= EXPONENT_LIMIT,
    ensures
        bits == rounded(
            layout,
            kind,
            negative,
            float_num(mantissa.value(), radix, exponent as int),
            float_den(radix, exponent as int),
        ),
        bits <= layout.spec_infinity_bits(),
{
    let ghost value = mantissa.value();
    if mantissa.is_zero() {
        proof {
            assert(0 * (pow(radix as int, exponent as nat) as nat) == 0);
        }
        return 0;
    }
    if exponent >= EXPONENT_CLAMP as i128 {
        proof {
            lemma_huge(layout, kind, negative, value, radix, exponent as int);
        }
        layout.infinity_bits()
    } else if exponent <= -(digits as i128) - EXPONENT_CLAMP as i128 {
        proof {
            lemma_tiny(layout, kind, negative, value, digits as nat, radix, exponent as int);
        }
        if round_up(kind, negative, false, Remainder::BelowHalf) {
            1
        } else {
            0
        }
    } else if exponent >= 0 {
        let mut num = mantissa;
        scale(&mut num, radix, exponent as u128);
        let one = Bigint::from_u64(1);
        proof {
            vstd::arithmetic::power::lemma_pow_positive(radix as int, exponent as nat);
        }
        round_ratio(num, one, layout, kind, negative)
    } else {
        let mut den = Bigint::from_u64(1);
        scale(&mut den, radix, (-exponent) as u128);
        proof {
            vstd::arithmetic::power::lemma_pow_positive(radix as int, (-exponent) as nat);
            assert(1 * pow(radix as int, (-exponent) as nat) == pow(
                radix as int,
                (-exponent) as nat,
            ));
        }
        round_ratio(mantissa, den, layout, kind, negative)
    }
}

/// Make the float of the number with the parts `parts`, which are trimmed:
/// the bits of the magnitude of the float that is nearest to it. The zeros
/// that do not count are left out of the arithmetic.
pub fn to_float(
    bytes: &[u8],
    parts: &FloatParts,
    negative: bool,
    layout: FloatLayout,
    radix: u32,
    kind: RoundingKind,
) -> (bits: u64)
    requires
        is_radix(radix),
        parts.is_within(bytes@.len()),
        parts.is_trimmed(bytes@, radix),
    ensures
        bits == spec_to_float(bytes@, *parts, negative, layout, radix, kind),
        bits <= layout.spec_infinity_bits(),
{
    let kept = FloatParts {
        integer_start: parts.integer_first,
        integer_end: parts.integer_end,
        has_point: parts.has_point,
        fraction_start: parts.fraction_start,
        fraction_end: parts.fraction_last,
        has_exponent: parts.has_exponent,
        exponent_negative: parts.exponent_negative,
        exponent_start: parts.exponent_start,
        exponent_end: parts.exponent_end,
        end: parts.end,
        integer_first: parts.integer_first,
        fraction_last: parts.fraction_last,
        digits_start: parts.digits_start,
    };
    proof {
        assert(kept == crate::significant::significant_parts(*parts));
        crate::significant::lemma_trimmed_value(bytes@, *parts, negative, layout, radix, kind);
    }
    round_parts(bytes, &kept, negative, layout, radix, kind)
}

/// Make the float of the number whose digits stand where `parts` says: the
/// bits of the magnitude of the float that is nearest to it.
fn round_parts(
    bytes: &[u8],
    parts: &FloatParts,
    negative: bool,
    layout: FloatLayout,
    radix: u32,
    kind: RoundingKind,
) -> (bits: u64)
    requires
        is_radix(radix),
        parts.is_within(bytes@.len()),
    ensures
        bits == spec_to_float(bytes@, *parts, negative, layout, radix, kind),
        bits <= layout.spec_infinity_bits(),
{
    let ghost s = bytes@;
    let ghost mantissa = parts_mantissa(s, *parts, radix);
    let ghost exponent = parts_exponent(s, *parts, radix);
    let mut big = Bigint::new();
    accumulate_big(&mut big, bytes, parts.integer_start, parts.integer_end, radix);
    proof {
        lemma_value_between_is_value_from(
            s,
            parts.integer_start as int,
            parts.integer_end as int,
            radix,
        );
    }
    accumulate_big(&mut big, bytes, parts.fraction_start, parts.fraction_end, radix);
    assert(big.value() == mantissa);
    let integer_count = count_digits(bytes, parts.integer_start, parts.integer_end, radix);
    let fraction_count = count_digits(bytes, parts.fraction_start, parts.fraction_end, radix);
    let digits: u128 = integer_count as u128 + fraction_count as u128;
    proof {
        vstd::arithmetic::power::lemma_pow0(radix as int);
        lemma_value_from_bound(
            0,
            0,
            s,
            parts.integer_start as int,
            parts.integer_end as int,
            radix,
        );
        lemma_value_from_bound(
            value_between(s, parts.integer_start as int, parts.integer_end as int, radix),
            integer_count as nat,
            s,
            parts.fraction_start as int,
            parts.fraction_end as int,
            radix,
        );
    }
    let written: Result<u128, usize> = if parts.has_exponent {
        accumulate(bytes, parts.exponent_start, parts.exponent_end, radix, EXPONENT_LIMIT, 1)
    } else {
        Ok(0)
    };
    match written {
        Err(_) => {
            if big.is_zero() {
                proof {
                    assert(0 * (pow(radix as int, exponent as nat) as nat) == 0);
                }
                0
            } else if parts.exponent_negative {
                proof {
                    lemma_tiny(layout, kind, negative, mantissa, digits as nat, radix, exponent);
                }
                if round_up(kind, negative, false, Remainder::BelowHalf) {
                    1
                } else {
                    0
                }
            } else {
                proof {
                    lemma_huge(layout, kind, negative, mantissa, radix, exponent);
                }
                layout.infinity_bits()
            }
        },
        Ok(x) => {
            let signed: i128 = if parts.exponent_negative {
                -(x as i128)
            } else {
                x as i128
            };
            let scaled: i128 = signed - fraction_count as i128;
            assert(scaled == exponent);
            round_power(big, digits, radix, scaled, layout, kind, negative)
        },
    }
}

/// What the parser of floats goes by: the parts of its options.
pub struct FloatGrammar {
    /// Whether the lossy parser is asked for. A lossy parser may be off by
    /// one unit in the last place; this parser rounds exactly either way.
    pub lossy: bool,
    /// The character that starts the exponent: the one that the format sets
    /// for the radix, or, where it sets none, that of the options.
    pub exponent_char: u8,
    /// The radix.
    pub radix: u32,
    /// The number format.
    pub format: NumberFormat,
    /// The rounding of values that lie between two floats.
    pub rounding: RoundingKind,
    /// The string that stands for not-a-number.
    pub nan_string: Seq<u8>,
    /// The short string that stands for infinity.
    pub inf_string: Seq<u8>,
    /// The long string that stands for infinity.
    pub infinity_string: Seq<u8>,
}

/// The grammar that options ask for.
pub open spec fn grammar(options: ParseFloatOptions) -> FloatGrammar {
    FloatGrammar {
        lossy: options.spec_lossy(),
        exponent_char: options.spec_format().spec_exponent_marker(
            options.spec_radix(),
            options.spec_exponent_char(),
        ),
        radix: options.spec_radix(),
        format: options.spec_format(),
        rounding: options.spec_rounding(),
        nan_string: options.spec_nan_string(),
        inf_string: options.spec_inf_string(),
        infinity_string: options.spec_infinity_string(),
    }
}

/// Whether a byte of the text is the byte `b` of a special value: with its
/// case, or without.
pub open spec fn bytes_match(a: u8, b: u8, case_sensitive: bool) -> bool {
    if case_sensitive {
        a == b
    } else {
        spec_to_ascii_lowercase(a) == spec_to_ascii_lowercase(b)
    }
}

/// Where the text from `p` on has spelled `word` from `at` on, if it
/// does; with `skip`, digit separators in the text are passed over.
pub open spec fn match_word(
    s: Seq<u8>,
    p: int,
    word: Seq<u8>,
    at: int,
    case_sensitive: bool,
    skip: bool,
    separator: u8,
) -> Option<usize>
    decreases s.len() - p,
{
    if at >= word.len() || at < 0 {
        Some(p as usize)
    } else if p < 0 || p >= s.len() {
        None
    } else if skip && s[p] == separator {
        match_word(s, p + 1, word, at, case_sensitive, skip, separator)
    } else if bytes_match(s[p], word[at], case_sensitive) {
        match_word(s, p + 1, word, at + 1, case_sensitive, skip, separator)
    } else {
        None
    }
}

/// The place of the first byte from `p` on that is not passed over.
pub open spec fn first_kept(s: Seq<u8>, p: int, skip: bool, separator: u8) -> int
    decreases s.len() - p,
{
    if 0 <= p < s.len() && skip && s[p] == separator {
        first_kept(s, p + 1, skip, separator)
    } else {
        p
    }
}

/// What parsing the number that begins at `start` gives: the bits of its
/// magnitude and where it ends, or the error in its parts.
pub open spec fn spec_parse_number(
    s: Seq<u8>,
    start: int,
    negative: bool,
    layout: FloatLayout,
    g: FloatGrammar,
) -> Result<(u64, usize), Error> {
    match spec_extract(s, start, g.radix, g.exponent_char, g.format) {
        Err(e) => Err(e),
        Ok(parts) => Ok(
            (spec_to_float(s, parts, negative, layout, g.radix, g.rounding) as u64, parts.end),
        ),
    }
}

/// What parsing gives of what follows the sign: a special value, if the
/// format knows special values, the first byte is the letter of one and
/// the text spells it, the long infinity before the short; a number
/// otherwise.
pub open spec fn spec_parse_unsigned(
    s: Seq<u8>,
    start: int,
    negative: bool,
    layout: FloatLayout,
    g: FloatGrammar,
) -> Result<(u64, usize), Error> {
    let skip = g.format.has(SPECIAL_DIGIT_SEPARATOR);
    let separator = g.format.spec_digit_separator();
    let case_sensitive = g.format.has(CASE_SENSITIVE_SPECIAL);
    let first = first_kept(s, start, skip, separator);
    let letter = if 0 <= first < s.len() {
        spec_to_ascii_lowercase(s[first])
    } else {
        0
    };
    let number = spec_parse_number(s, start, negative, layout, g);
    if g.format.has(NO_SPECIAL) {
        number
    } else if letter == LOWER_I {
        match match_word(s, start, g.infinity_string, 0, case_sensitive, skip, separator) {
            Some(end) => Ok((layout.spec_infinity_bits() as u64, end)),
            None => match match_word(s, start, g.inf_string, 0, case_sensitive, skip, separator) {
                Some(end) => Ok((layout.spec_infinity_bits() as u64, end)),
                None => number,
            },
        }
    } else if letter == LOWER_N {
        match match_word(s, start, g.nan_string, 0, case_sensitive, skip, separator) {
            Some(end) => Ok((layout.spec_nan_bits() as u64, end)),
            None => number,
        }
    } else {
        number
    }
}

/// What parsing a float gives: its bits and the number of bytes consumed,
/// or the error.
///
/// An empty input, or a sign alone, is `Empty`. What follows the sign is a
/// special value or a number. When that is parsed, the format is asked
/// whether it lets the sign, or its absence, stand. A minus sets the sign
/// bit.
pub open spec fn spec_parse_float(s: Seq<u8>, layout: FloatLayout, g: FloatGrammar) -> Result<
    (u64, usize),
    Error,
> {
    if s.len() == 0 {
        Err(Error { code: ErrorCode::Empty, index: 0 })
    } else {
        let negative = s[0] == MINUS;
        let has_sign = s[0] == PLUS || negative;
        let start: int = if has_sign {
            1
        } else {
            0
        };
        if start == s.len() {
            Err(Error { code: ErrorCode::Empty, index: start as usize })
        } else {
            match spec_parse_unsigned(s, start, negative, layout, g) {
                Err(e) => Err(e),
                Ok((magnitude, end)) => if g.format.has(NO_POSITIVE_MANTISSA_SIGN) && s[0]
                    == PLUS {
                    Err(Error { code: ErrorCode::InvalidPositiveMantissaSign, index: 0 })
                } else if g.format.has(REQUIRED_MANTISSA_SIGN) && !has_sign {
                    Err(Error { code: ErrorCode::MissingMantissaSign, index: 0 })
                } else if negative {
                    Ok(((magnitude + layout.spec_sign_bit()) as u64, end))
                } else {
                    Ok((magnitude, end))
                },
            }
        }
    }
}

/// Tell where the text from `start` on has spelled `word`, if it does.
fn match_special(
    bytes: &[u8],
    start: usize,
    word: &[u8],
    case_sensitive: bool,
    skip: bool,
    separator: u8,
) -> (r: Option<usize>)
    requires
        start <= bytes@.len(),
    ensures
        r == match_word(bytes@, start as int, word@, 0, case_sensitive, skip, separator),
        r matches Some(end) ==> start <= end <= bytes@.len(),
{
    let len = bytes.len();
    let mut p = start;
    let mut at: usize = 0;
    while at < word.len()
        invariant
            start <= p <= len,
            len == bytes@.len(),
            at <= word@.len(),
            match_word(bytes@, start as int, word@, 0, case_sensitive, skip, separator)
                == match_word(bytes@, p as int, word@, at as int, case_sensitive, skip, separator),
        decreases len - p,
    {
        if p >= len {
            return None;
        }
        let c = bytes[p];
        if skip && c == separator {
            p += 1;
        } else {
            let same = if case_sensitive {
                c == word[at]
            } else {
                to_ascii_lowercase(c) == to_ascii_lowercase(word[at])
            };
            if !same {
                return None;
            }
            p += 1;
            at += 1;
        }
    }
    Some(p)
}

/// Find the lowercase form of the first byte from `start` on that is not
/// passed over; zero if there is none.
fn first_letter(bytes: &[u8], start: usize, skip: bool, separator: u8) -> (r: u8)
    requires
        start <= bytes@.len(),
    ensures
        ({
            let first = first_kept(bytes@, start as int, skip, separator);
            r == if 0 <= first < bytes@.len() {
                spec_to_ascii_lowercase(bytes@[first])
            } else {
                0
            }
        }),
{
    let len = bytes.len();
    let mut p = start;
    while p < len && skip && bytes[p] == separator
        invariant
            start <= p <= len,
            len == bytes@.len(),
            first_kept(bytes@, start as int, skip, separator) == first_kept(
                bytes@,
                p as int,
                skip,
                separator,
            ),
        decreases len - p,
    {
        p += 1;
    }
    if p < len {
        to_ascii_lowercase(bytes[p])
    } else {
        0
    }
}

/// Parse the number that begins at `start`.
fn parse_number(
    bytes: &[u8],
    start: usize,
    negative: bool,
    layout: FloatLayout,
    options: &ParseFloatOptions,
) -> (r: Result<(u64, usize), Error>)
    requires
        start <= bytes@.len(),
    ensures
        r == spec_parse_number(bytes@, start as int, negative, layout, grammar(*options)),
        r matches Ok((bits, end)) ==> bits <= layout.spec_infinity_bits() && end <= bytes@.len(),
{
    proof {
        use_type_invariant(options);
    }
    let radix = options.radix();
    let format = options.format();
    let marker = format.exponent_marker(radix, options.exponent_char());
    match extract(bytes, start, radix, marker, format) {
        Err(e) => Err(e),
        Ok(parts) => {
            let bits = to_float(bytes, &parts, negative, layout, radix, options.rounding());
            Ok((bits, parts.end))
        },
    }
}

/// Parse what follows the sign: a special value or a number.
fn parse_unsigned(
    bytes: &[u8],
    start: usize,
    negative: bool,
    layout: FloatLayout,
    options: &ParseFloatOptions,
) -> (r: Result<(u64, usize), Error>)
    requires
        start <= bytes@.len(),
    ensures
        r == spec_parse_unsigned(bytes@, start as int, negative, layout, grammar(*options)),
        r matches Ok((bits, end)) ==> bits <= layout.spec_nan_bits() && end <= bytes@.len(),
{
    let format = options.format();
    if format.no_special() {
        return parse_number(bytes, start, negative, layout, options);
    }
    let skip = format.special_digit_separator();
    let separator = format.digit_separator();
    let case_sensitive = format.case_sensitive_special();
    let letter = first_letter(bytes, start, skip, separator);
    if letter == LOWER_I {
        match match_special(
            bytes,
            start,
            options.infinity_string(),
            case_sensitive,
            skip,
            separator,
        ) {
            Some(end) => {
                return Ok((layout.infinity_bits(), end));
            },
            None => {},
        }
        match match_special(bytes, start, options.inf_string(), case_sensitive, skip, separator) {
            Some(end) => {
                return Ok((layout.infinity_bits(), end));
            },
            None => {},
        }
    } else if letter == LOWER_N {
        match match_special(bytes, start, options.nan_string(), case_sensitive, skip, separator) {
            Some(end) => {
                return Ok((layout.nan_bits(), end));
            },
            None => {},
        }
    }
    parse_number(bytes, start, negative, layout, options)
}

/// Parse a float of `layout` from the start of `bytes`: its bits and the
/// number of bytes consumed, or the error.
pub fn parse_float(bytes: &[u8], layout: FloatLayout, options: &ParseFloatOptions) -> (r: Result<
    (u64, usize),
    Error,
>)
    ensures
        r == spec_parse_float(bytes@, layout, grammar(*options)),
        r matches Ok((bits, end)) ==> bits < 2 * layout.spec_sign_bit() && end <= bytes@.len(),
{
    if bytes.len() == 0 {
        return Err(Error { code: ErrorCode::Empty, index: 0 });
    }
    let negative = bytes[0] == MINUS;
    let has_sign = bytes[0] == PLUS || negative;
    let start: usize = if has_sign {
        1
    } else {
        0
    };
    if start == bytes.len() {
        return Err(Error { code: ErrorCode::Empty, index: start });
    }
    let format = options.format();
    match parse_unsigned(bytes, start, negative, layout, options) {
        Err(e) => Err(e),
        Ok((magnitude, end)) => {
            if format.no_positive_mantissa_sign() && bytes[0] == PLUS {
                Err(Error { code: ErrorCode::InvalidPositiveMantissaSign, index: 0 })
            } else if format.required_mantissa_sign() && !has_sign {
                Err(Error { code: ErrorCode::MissingMantissaSign, index: 0 })
            } else if negative {
                Ok((magnitude + layout.sign_bit(), end))
            } else {
                Ok((magnitude, end))
            }
        },
    }
}

} // verus!

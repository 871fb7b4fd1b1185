//! What is written of a float is read back as the float: the text of a
//! float has the grammar of floats, its digits and exponent make the number
//! that was written, and that number rounds to the float.

use vstd::arithmetic::power::pow;
use vstd::prelude::*;

use crate::ascii::{MINUS, PLUS, POINT, ZERO};
use crate::atof::{
    first_kept, match_word, float_den, float_num, parts_exponent, parts_mantissa, spec_extract,
    spec_parse_float, spec_parse_number, spec_parse_unsigned, spec_to_float, spec_trim,
    value_from, FloatParts,
};
use crate::convert::rounded;
use crate::float::{Float32, Float64, FloatLayout};
use crate::traits::{FromLexical, ToLexical};
use crate::floats::spec_grammar_with;
use crate::ftoa::{
    format_digits, format_fixed, format_scientific, integer_suffix, is_finite_text, is_float_text,
    sign_text, FIXED_MAX, FIXED_MIN,
};
use crate::itoa::{digits_of, integer_text};
use crate::options::{
    spec_default_inf_string, spec_default_infinity_string, spec_default_nan_string,
};
use crate::shortest::is_read_as;
use crate::rounding::RoundingKind;
use crate::digit::{digit_value, is_digit, is_radix, spec_digit_to_char};
use crate::error::Error;
use crate::flags::{
    CASE_SENSITIVE_SPECIAL, EXPONENT_INTERNAL_DIGIT_SEPARATOR, EXPONENT_LEADING_DIGIT_SEPARATOR,
    EXPONENT_TRAILING_DIGIT_SEPARATOR, FRACTION_INTERNAL_DIGIT_SEPARATOR,
    FRACTION_LEADING_DIGIT_SEPARATOR, FRACTION_TRAILING_DIGIT_SEPARATOR,
    INTEGER_INTERNAL_DIGIT_SEPARATOR, INTEGER_LEADING_DIGIT_SEPARATOR,
    INTEGER_TRAILING_DIGIT_SEPARATOR, NO_EXPONENT_NOTATION, NO_EXPONENT_WITHOUT_FRACTION,
    NO_FLOAT_LEADING_ZEROS, NO_POSITIVE_EXPONENT_SIGN, NO_POSITIVE_MANTISSA_SIGN, NO_SPECIAL,
    REQUIRED_EXPONENT_NOTATION, REQUIRED_EXPONENT_SIGN, REQUIRED_FRACTION_DIGITS,
    REQUIRED_INTEGER_DIGITS, REQUIRED_MANTISSA_SIGN, SPECIAL_DIGIT_SEPARATOR,
};
use crate::format::STANDARD;
use crate::options::{spec_default_format, spec_exponent_notation_char};
use crate::scan::{spec_exponent_policy, spec_fraction_policy, spec_integer_policy};
use crate::ftoa::{digit_chars, zeros};
use crate::scan::{
    count_between, region_end, scan, value_between, ScanState, SeparatorPolicy,
};
use crate::shortest::digits_value;

verus! {

/// Whether every byte of `cs` is a digit of `radix`.
pub open spec fn all_digits(cs: Seq<u8>, radix: u32) -> bool {
    forall|i: int| 0 <= i < cs.len() ==> is_digit(#[trigger] cs[i], radix)
}

/// The number that the digits `cs` make of `acc` when they are appended to
/// its digits.
pub open spec fn chars_value_from(acc: nat, cs: Seq<u8>, radix: u32) -> nat {
    value_from(acc, cs, 0, cs.len() as int, radix)
}

/// A region in which no separator may stand, and which is digits up to
/// `q`, where the text ends or a byte stands that is no digit, ends at `q`.
pub proof fn lemma_scan_run(s: Seq<u8>, p: int, q: int, radix: u32, policy: SeparatorPolicy)
    requires
        0 <= p <= q <= s.len(),
        !policy.spec_is_active(),
        forall|i: int| p <= i < q ==> is_digit(#[trigger] s[i], radix),
        q < s.len() ==> !is_digit(s[q], radix),
    ensures
        scan(s, p, radix, policy, ScanState::Start) == q,
        scan(s, p, radix, policy, ScanState::AfterDigit) == q,
    decreases q - p,
{
    if p < q {
        lemma_scan_run(s, p + 1, q, radix, policy);
    }
}

/// A stretch of digits has as many digits as bytes.
pub proof fn lemma_count_of_digits(s: Seq<u8>, from: int, to: int, radix: u32)
    requires
        0 <= from <= to <= s.len(),
        forall|i: int| from <= i < to ==> is_digit(#[trigger] s[i], radix),
    ensures
        count_between(s, from, to, radix) == to - from,
    decreases to - from,
{
    if from < to {
        lemma_count_of_digits(s, from, to - 1, radix);
    }
}

/// What a stretch of text makes of a number depends on the bytes of the
/// stretch only.
pub proof fn lemma_value_from_of_stretch(
    acc: nat,
    s: Seq<u8>,
    from: int,
    to: int,
    cs: Seq<u8>,
    radix: u32,
)
    requires
        0 <= from <= to <= s.len(),
        cs.len() == to - from,
        forall|i: int| 0 <= i < cs.len() ==> cs[i] == s[from + i],
    ensures
        value_from(acc, s, from, to, radix) == chars_value_from(acc, cs, radix),
    decreases to - from,
{
    if from < to {
        let shorter = cs.drop_last();
        lemma_value_from_of_stretch(acc, s, from, to - 1, shorter, radix);
        lemma_value_from_of_prefix(acc, cs, cs.len() - 1, radix);
        assert(cs[cs.len() - 1] == s[to - 1]);
    }
}

/// What the first bytes of digits make of a number is what they make as
/// digits of their own.
pub proof fn lemma_value_from_of_prefix(acc: nat, cs: Seq<u8>, len: int, radix: u32)
    requires
        0 <= len <= cs.len(),
    ensures
        value_from(acc, cs, 0, len, radix) == chars_value_from(acc, cs.take(len), radix),
    decreases len,
{
    if len > 0 {
        lemma_value_from_of_prefix(acc, cs, len - 1, radix);
        lemma_value_from_of_prefix(acc, cs.take(len), len - 1, radix);
        assert(cs.take(len).take(len - 1) == cs.take(len - 1));
        assert(cs.take(len)[len - 1] == cs[len - 1]);
    }
}

/// Digits behind digits make of a number what the second make of what
/// the first make of it.
pub proof fn lemma_value_from_concat(acc: nat, a: Seq<u8>, b: Seq<u8>, radix: u32)
    ensures
        chars_value_from(acc, a + b, radix) == chars_value_from(
            chars_value_from(acc, a, radix),
            b,
            radix,
        ),
    decreases b.len(),
{
    let whole = a + b;
    if b.len() == 0 {
        assert(whole == a);
    } else {
        let shorter = b.drop_last();
        lemma_value_from_concat(acc, a, shorter, radix);
        lemma_value_from_of_prefix(acc, whole, whole.len() - 1, radix);
        assert(whole.take(whole.len() - 1) == a + shorter);
        lemma_value_from_of_prefix(chars_value_from(acc, a, radix), b, b.len() - 1, radix);
        assert(b.take(b.len() - 1) == shorter);
        assert(whole[whole.len() - 1] == b[b.len() - 1]);
    }
}

/// Zeros behind the digits of a number multiply it by a power of the
/// radix.
pub proof fn lemma_value_from_zeros(acc: nat, count: nat, radix: u32)
    requires
        is_radix(radix),
    ensures
        chars_value_from(acc, zeros(count), radix) == acc * pow(radix as int, count),
    decreases count,
{
    let r = radix as int;
    if count == 0 {
        vstd::arithmetic::power::lemma_pow0(r);
        assert(acc * 1 == acc);
    } else {
        let shorter = (count - 1) as nat;
        lemma_value_from_zeros(acc, shorter, radix);
        lemma_value_from_of_prefix(acc, zeros(count), count - 1, radix);
        assert(zeros(count).take(count - 1) == zeros(shorter));
        assert(is_digit(zeros(count)[count - 1], radix));
        vstd::arithmetic::power::lemma_pow_adds(r, shorter, 1);
        vstd::arithmetic::power::lemma_pow1(r);
        assert(acc * pow(r, shorter) * r == acc * (pow(r, shorter) * r)) by (nonlinear_arith);
    }
}

/// The characters of digit values are digits, and make the number that
/// the values make.
pub proof fn lemma_value_of_digit_chars(digits: Seq<u8>, radix: u32)
    requires
        is_radix(radix),
        forall|i: int| 0 <= i < digits.len() ==> digits[i] < radix,
    ensures
        all_digits(digit_chars(digits), radix),
        chars_value_from(0, digit_chars(digits), radix) == digits_value(digits, radix),
    decreases digits.len(),
{
    let chars = digit_chars(digits);
    assert forall|i: int| 0 <= i < chars.len() implies is_digit(#[trigger] chars[i], radix) by {
        assert(chars[i] == spec_digit_to_char(digits[i] as nat));
    }
    if digits.len() > 0 {
        let shorter = digits.drop_last();
        lemma_value_of_digit_chars(shorter, radix);
        lemma_value_from_of_prefix(0, chars, chars.len() - 1, radix);
        assert(chars.take(chars.len() - 1) == digit_chars(shorter));
        let last = chars.len() - 1;
        assert(chars[last] == spec_digit_to_char(digits[last] as nat));
        assert(digit_value(chars[last]) == digits[last]);
    }
}

/// The standard format lets no digit separator stand, has the point for
/// its decimal point, sets no exponent character of its own, and neither
/// asks nor forbids anything but digits behind an exponent character.
pub proof fn lemma_standard_format()
    ensures
        !spec_integer_policy(spec_default_format()).spec_is_active(),
        !spec_fraction_policy(spec_default_format()).spec_is_active(),
        !spec_exponent_policy(spec_default_format()).spec_is_active(),
        spec_default_format().spec_decimal_point() == POINT,
        !spec_default_format().has(REQUIRED_INTEGER_DIGITS),
        !spec_default_format().has(REQUIRED_FRACTION_DIGITS),
        !spec_default_format().has(NO_FLOAT_LEADING_ZEROS),
        !spec_default_format().has(NO_EXPONENT_NOTATION),
        !spec_default_format().has(REQUIRED_EXPONENT_NOTATION),
        !spec_default_format().has(NO_EXPONENT_WITHOUT_FRACTION),
        !spec_default_format().has(NO_POSITIVE_EXPONENT_SIGN),
        !spec_default_format().has(REQUIRED_EXPONENT_SIGN),
        !spec_default_format().has(NO_SPECIAL),
        !spec_default_format().has(CASE_SENSITIVE_SPECIAL),
        !spec_default_format().has(SPECIAL_DIGIT_SEPARATOR),
        !spec_default_format().has(NO_POSITIVE_MANTISSA_SIGN),
        !spec_default_format().has(REQUIRED_MANTISSA_SIGN),
        forall|radix: u32, exponent_char: u8|
            #[trigger] spec_default_format().spec_exponent_marker(radix, exponent_char)
                == exponent_char,
{
    crate::flags::lemma_flags_only_word(STANDARD);
    let word: u64 = 0x4;
    assert(word & 0x1_0000_0000 == 0 && word & 0x2_0000_0000 == 0 && word & 0x4_0000_0000 == 0
        && word & 0x10_0000_0000 == 0 && word & 0x20_0000_0000 == 0 && word & 0x40_0000_0000 == 0
        && word & 0x100_0000_0000 == 0 && word & 0x200_0000_0000 == 0 && word & 0x400_0000_0000
        == 0 && word & 0x1 == 0 && word & 0x2 == 0 && word & 0x1000 == 0 && word & 0x20 == 0
        && word & 0x2000 == 0 && word & 0x100 == 0 && word & 0x40 == 0 && word & 0x80 == 0 && word
        & 0x200 == 0 && word & 0x400 == 0 && word & 0x1000_0000_0000 == 0 && word & 0x8 == 0
        && word & 0x10 == 0) by (bit_vector)
        requires
            word == 0x4,
    ;
}

/// The text of an exponent: nothing, or the exponent character `marker`, a
/// minus if `exponent.0` says so, and digits.
pub open spec fn exponent_text(exponent: Option<(bool, Seq<u8>)>, marker: u8) -> Seq<u8> {
    match exponent {
        None => Seq::<u8>::empty(),
        Some((minus, digits)) => seq![marker] + (if minus {
            seq![MINUS]
        } else {
            Seq::<u8>::empty()
        }) + digits,
    }
}

/// The text of a number: integer digits, the point, fraction digits and an
/// exponent.
pub open spec fn number_text(
    integer: Seq<u8>,
    fraction: Seq<u8>,
    exponent: Option<(bool, Seq<u8>)>,
    marker: u8,
) -> Seq<u8> {
    integer + seq![POINT] + fraction + exponent_text(exponent, marker)
}

/// Whether the parts are the parts of the text of a number: digits before
/// and behind the point, and digits in the exponent if there is one.
pub open spec fn is_number_text(
    integer: Seq<u8>,
    fraction: Seq<u8>,
    exponent: Option<(bool, Seq<u8>)>,
    radix: u32,
) -> bool {
    &&& integer.len() >= 1
    &&& all_digits(integer, radix)
    &&& fraction.len() >= 1
    &&& all_digits(fraction, radix)
    &&& exponent matches Some((_, digits)) ==> digits.len() >= 1 && all_digits(digits, radix)
}

/// The exponent that the text of an exponent names.
pub open spec fn exponent_value(exponent: Option<(bool, Seq<u8>)>, radix: u32) -> int {
    match exponent {
        None => 0,
        Some((minus, digits)) => if minus {
            -(chars_value_from(0, digits, radix) as int)
        } else {
            chars_value_from(0, digits, radix) as int
        },
    }
}

/// The parts of a number without an exponent whose integer digits begin at
/// `a` and end at the point at `b`, and whose fraction digits end at `d`.
pub open spec fn plain_parts(a: int, b: int, d: int) -> FloatParts {
    FloatParts {
        integer_start: a as usize,
        integer_end: b as usize,
        has_point: true,
        fraction_start: (b + 1) as usize,
        fraction_end: d as usize,
        has_exponent: false,
        exponent_negative: false,
        exponent_start: d as usize,
        exponent_end: d as usize,
        end: d as usize,
        integer_first: a as usize,
        fraction_last: d as usize,
        digits_start: 0,
    }
}

/// The parts of a number with an exponent whose exponent character stands
/// at `d` and whose exponent digits begin at `x` and end at `len`.
pub open spec fn exponent_parts(a: int, b: int, d: int, x: int, len: int) -> FloatParts {
    FloatParts {
        integer_start: a as usize,
        integer_end: b as usize,
        has_point: true,
        fraction_start: (b + 1) as usize,
        fraction_end: d as usize,
        has_exponent: true,
        exponent_negative: x == d + 2,
        exponent_start: x as usize,
        exponent_end: len as usize,
        end: len as usize,
        integer_first: a as usize,
        fraction_last: d as usize,
        digits_start: 0,
    }
}

/// Whether the bytes of `s` from `from` up to `to` are digits of `radix`,
/// and one at least.
pub open spec fn is_digit_run(s: Seq<u8>, from: int, to: int, radix: u32) -> bool {
    &&& 0 <= from < to <= s.len()
    &&& forall|i: int| from <= i < to ==> is_digit(#[trigger] s[i], radix)
}

/// A text that is digits, the point and digits has these for its parts.
pub proof fn lemma_extract_plain(s: Seq<u8>, a: int, b: int, radix: u32)
    requires
        is_radix(radix),
        s.len() <= usize::MAX,
        is_digit_run(s, a, b, radix),
        s[b] == POINT,
        is_digit_run(s, b + 1, s.len() as int, radix),
    ensures
        spec_extract(s, a, radix, spec_exponent_notation_char(radix), spec_default_format())
            == Ok::<FloatParts, Error>(spec_trim(s, plain_parts(a, b, s.len() as int), radix)),
{
    let format = spec_default_format();
    let d = s.len() as int;
    lemma_standard_format();
    lemma_scan_run(s, a, b, radix, spec_integer_policy(format));
    lemma_scan_run(s, b + 1, d, radix, spec_fraction_policy(format));
    lemma_count_of_digits(s, a, b, radix);
    lemma_count_of_digits(s, b + 1, d, radix);
    assert(count_between(s, d, d, radix) == 0);
}

/// A text that is digits, the point, digits, the exponent character, a
/// minus or none, and digits has these for its parts.
pub proof fn lemma_extract_exponent(s: Seq<u8>, a: int, b: int, d: int, x: int, radix: u32)
    requires
        is_radix(radix),
        s.len() <= usize::MAX,
        is_digit_run(s, a, b, radix),
        s[b] == POINT,
        is_digit_run(s, b + 1, d, radix),
        d < s.len(),
        s[d] == spec_exponent_notation_char(radix),
        x == d + 1 || (x == d + 2 && s[d + 1] == MINUS),
        is_digit_run(s, x, s.len() as int, radix),
    ensures
        spec_extract(s, a, radix, spec_exponent_notation_char(radix), spec_default_format())
            == Ok::<FloatParts, Error>(spec_trim(s, exponent_parts(a, b, d, x, s.len() as int), radix)),
{
    let format = spec_default_format();
    let len = s.len() as int;
    lemma_standard_format();
    lemma_scan_run(s, a, b, radix, spec_integer_policy(format));
    lemma_scan_run(s, b + 1, d, radix, spec_fraction_policy(format));
    lemma_scan_run(s, x, len, radix, spec_exponent_policy(format));
    lemma_count_of_digits(s, a, b, radix);
    lemma_count_of_digits(s, b + 1, d, radix);
    lemma_count_of_digits(s, x, len, radix);
    if x == d + 1 {
        assert(is_digit(s[d + 1], radix));
    }
}

/// The bytes of the text of a number, behind whatever stands before it.
proof fn lemma_number_text_bytes(
    pre: Seq<u8>,
    integer: Seq<u8>,
    fraction: Seq<u8>,
    tail: Seq<u8>,
)
    ensures
        ({
            let s = pre + (integer + seq![POINT] + fraction + tail);
            let a = pre.len() as int;
            let b = a + integer.len();
            let d = b + 1 + fraction.len();
            &&& s.len() == d + tail.len()
            &&& s[b] == POINT
            &&& (forall|i: int| 0 <= i < integer.len() ==> #[trigger] s[a + i] == integer[i])
            &&& (forall|i: int| 0 <= i < fraction.len() ==> #[trigger] s[b + 1 + i] == fraction[i])
            &&& (forall|i: int| 0 <= i < tail.len() ==> #[trigger] s[d + i] == tail[i])
        }),
{
}

/// The text of a number in the standard format has the parts that it was
/// made of: the integer digits reach to the point, the fraction digits
/// from the point to the exponent character or the end, and the exponent
/// digits to the end.
pub proof fn lemma_extract_number(
    pre: Seq<u8>,
    integer: Seq<u8>,
    fraction: Seq<u8>,
    exponent: Option<(bool, Seq<u8>)>,
    radix: u32,
)
    requires
        is_radix(radix),
        is_number_text(integer, fraction, exponent, radix),
        (pre + number_text(integer, fraction, exponent, spec_exponent_notation_char(radix))).len()
            <= usize::MAX,
    ensures
        ({
            let marker = spec_exponent_notation_char(radix);
            let s = pre + number_text(integer, fraction, exponent, marker);
            let extracted = spec_extract(s, pre.len() as int, radix, marker, spec_default_format());
            &&& extracted is Ok
            &&& extracted->Ok_0.end == s.len()
            &&& parts_mantissa(s, extracted->Ok_0, radix) == chars_value_from(
                chars_value_from(0, integer, radix),
                fraction,
                radix,
            )
            &&& parts_exponent(s, extracted->Ok_0, radix) == exponent_value(exponent, radix)
                - fraction.len()
        }),
{
    let marker = spec_exponent_notation_char(radix);
    let tail = exponent_text(exponent, marker);
    let s = pre + number_text(integer, fraction, exponent, marker);
    let a = pre.len() as int;
    let b = a + integer.len();
    let c = b + 1;
    let d = c + fraction.len();
    lemma_number_text_bytes(pre, integer, fraction, tail);
    assert(is_digit_run(s, a, b, radix)) by {
        assert forall|i: int| a <= i < b implies is_digit(#[trigger] s[i], radix) by {
            assert(s[a + (i - a)] == integer[i - a]);
        }
    }
    assert(is_digit_run(s, c, d, radix)) by {
        assert forall|i: int| c <= i < d implies is_digit(#[trigger] s[i], radix) by {
            assert(s[b + 1 + (i - c)] == fraction[i - c]);
        }
    }
    crate::atof::lemma_value_between_is_value_from(s, a, b, radix);
    lemma_value_from_of_stretch(0, s, a, b, integer, radix);
    lemma_value_from_of_stretch(chars_value_from(0, integer, radix), s, c, d, fraction, radix);
    lemma_count_of_digits(s, c, d, radix);
    match exponent {
        None => {
            lemma_extract_plain(s, a, b, radix);
        },
        Some((minus, digits)) => {
            let x = if minus {
                d + 2
            } else {
                d + 1
            };
            assert(s[d + 0] == tail[0]);
            assert(forall|i: int| 0 <= i < digits.len() ==> tail[x - d + i] == digits[i]);
            assert(is_digit_run(s, x, s.len() as int, radix)) by {
                assert forall|i: int| x <= i < s.len() implies is_digit(#[trigger] s[i], radix) by {
                    assert(s[d + (i - d)] == tail[i - d]);
                    assert(tail[x - d + (i - x)] == digits[i - x]);
                }
            }
            if minus {
                assert(s[d + 1] == tail[1]);
            }
            lemma_extract_exponent(s, a, b, d, x, radix);
            crate::atof::lemma_value_between_is_value_from(s, x, s.len() as int, radix);
            assert forall|i: int| 0 <= i < digits.len() implies digits[i] == s[x + i] by {
                assert(s[d + (x - d + i)] == tail[x - d + i]);
            }
            lemma_value_from_of_stretch(0, s, x, s.len() as int, digits, radix);
        },
    }
}

/// The bits that parsing makes of the text of a number: the float that
/// the number rounds to, with the sign bit if the text has a minus.
pub open spec fn parsed_bits(
    layout: FloatLayout,
    negative: bool,
    mantissa: nat,
    radix: u32,
    exponent: int,
) -> u64 {
    let magnitude = rounded(
        layout,
        RoundingKind::NearestTieEven,
        negative,
        float_num(mantissa, radix, exponent),
        float_den(radix, exponent),
    ) as u64;
    if negative {
        (magnitude + layout.spec_sign_bit()) as u64
    } else {
        magnitude
    }
}

/// A digit of a radix up to eighteen is not the letter that a special
/// value begins with, and no digit is a sign.
pub proof fn lemma_digit_is_no_letter(c: u8, radix: u32)
    requires
        is_radix(radix),
        is_digit(c, radix),
    ensures
        c != PLUS,
        c != MINUS,
        radix <= 18 ==> crate::flags::spec_to_ascii_lowercase(c) != crate::ascii::LOWER_I
            && crate::flags::spec_to_ascii_lowercase(c) != crate::ascii::LOWER_N,
{
}

/// The text of a number, with a minus before it or without, is parsed, in
/// a radix up to eighteen and the standard format, to the float that the
/// number rounds to, and all of it.
pub proof fn lemma_parse_number_text(
    negative: bool,
    integer: Seq<u8>,
    fraction: Seq<u8>,
    exponent: Option<(bool, Seq<u8>)>,
    radix: u32,
    layout: FloatLayout,
)
    requires
        is_radix(radix),
        radix <= 18,
        is_number_text(integer, fraction, exponent, radix),
        (sign_text(negative) + number_text(
            integer,
            fraction,
            exponent,
            spec_exponent_notation_char(radix),
        )).len() <= usize::MAX,
    ensures
        ({
            let s = sign_text(negative) + number_text(
                integer,
                fraction,
                exponent,
                spec_exponent_notation_char(radix),
            );
            spec_parse_float(s, layout, spec_grammar_with(false, radix, spec_default_format()))
                == Ok::<(u64, usize), Error>(
                (
                    parsed_bits(
                        layout,
                        negative,
                        chars_value_from(chars_value_from(0, integer, radix), fraction, radix),
                        radix,
                        exponent_value(exponent, radix) - fraction.len(),
                    ),
                    s.len() as usize,
                ),
            )
        }),
{
    let marker = spec_exponent_notation_char(radix);
    let g = spec_grammar_with(false, radix, spec_default_format());
    let sign = sign_text(negative);
    let body = number_text(integer, fraction, exponent, marker);
    let s = sign + body;
    let start = sign.len() as int;
    lemma_standard_format();
    lemma_extract_number(sign, integer, fraction, exponent, radix);
    assert(body.len() >= 3);
    assert(s[start] == body[0]);
    assert(body[0] == integer[0]);
    lemma_digit_is_no_letter(integer[0], radix);
    if negative {
        assert(s[0] == MINUS);
    } else {
        assert(s[0] == integer[0]);
    }
    assert(first_kept(s, start, false, g.format.spec_digit_separator()) == start);
    let extracted = spec_extract(s, start, radix, marker, spec_default_format());
    let parts = extracted->Ok_0;
    assert(spec_parse_number(s, start, negative, layout, g) == Ok::<(u64, usize), Error>(
        (spec_to_float(s, parts, negative, layout, radix, g.rounding) as u64, parts.end),
    ));
    assert(spec_parse_unsigned(s, start, negative, layout, g) == spec_parse_number(
        s,
        start,
        negative,
        layout,
        g,
    ));
}

/// Rounding to nearest with ties to even does not ask for the sign.
pub proof fn lemma_nearest_ignores_sign(layout: FloatLayout, num: nat, den: nat)
    ensures
        rounded(layout, RoundingKind::NearestTieEven, true, num, den) == rounded(
            layout,
            RoundingKind::NearestTieEven,
            false,
            num,
            den,
        ),
{
}

/// The digits of an exponent, with a minus if it is negative, name the
/// exponent.
pub proof fn lemma_exponent_of_text(first: int, radix: u32)
    requires
        is_radix(radix),
    ensures
        ({
            let magnitude = (if first < 0 {
                -first
            } else {
                first
            }) as nat;
            let exponent = written_exponent(first, radix);
            &&& exponent_value(exponent, radix) == first
            &&& digits_of(magnitude, radix).len() >= 1
            &&& all_digits(digits_of(magnitude, radix), radix)
            &&& exponent_text(exponent, spec_exponent_notation_char(radix))
                == seq![spec_exponent_notation_char(radix)] + integer_text(first, radix)
        }),
{
    let magnitude = (if first < 0 {
        -first
    } else {
        first
    }) as nat;
    let digits = digits_of(magnitude, radix);
    crate::roundtrip::lemma_digits_are_digits(magnitude, radix);
    crate::roundtrip::lemma_value_of_digits(magnitude, radix);
    crate::atof::lemma_value_between_is_value_from(digits, 0, digits.len() as int, radix);
    let marker = spec_exponent_notation_char(radix);
    if first < 0 {
        assert(seq![marker] + seq![MINUS] + digits =~= seq![marker] + (seq![MINUS] + digits));
    } else {
        assert(seq![marker] + Seq::<u8>::empty() + digits =~= seq![marker] + digits);
    }
}

/// The number that is written as `mantissa * radix^exponent` with a zero
/// behind its digits and one taken from its exponent rounds as the number
/// itself does.
proof fn lemma_rounded_with_zero(
    layout: FloatLayout,
    mantissa: nat,
    radix: u32,
    exponent: int,
)
    requires
        is_radix(radix),
    ensures
        rounded(
            layout,
            RoundingKind::NearestTieEven,
            false,
            float_num(mantissa * (radix as nat), radix, exponent - 1),
            float_den(radix, exponent - 1),
        ) == rounded(
            layout,
            RoundingKind::NearestTieEven,
            false,
            float_num(mantissa, radix, exponent),
            float_den(radix, exponent),
        ),
{
    let r = radix as int;
    let n1 = float_num(mantissa * (radix as nat), radix, exponent - 1);
    let d1 = float_den(radix, exponent - 1);
    let n2 = float_num(mantissa, radix, exponent);
    let d2 = float_den(radix, exponent);
    vstd::arithmetic::power::lemma_pow1(r);
    vstd::arithmetic::power::lemma_pow_positive(r, vstd::math::abs(exponent));
    vstd::arithmetic::power::lemma_pow_positive(r, vstd::math::abs(exponent - 1));
    if exponent >= 1 {
        let below = pow(r, (exponent - 1) as nat);
        vstd::arithmetic::power::lemma_pow_adds(r, 1, (exponent - 1) as nat);
        assert(mantissa * radix * below == mantissa * (radix * below)) by (nonlinear_arith);
        assert(n1 * 1 == n2 * 1);
    } else {
        let down = pow(r, (-exponent) as nat);
        vstd::arithmetic::power::lemma_pow_adds(r, 1, (-exponent) as nat);
        if exponent == 0 {
            vstd::arithmetic::power::lemma_pow0(r);
            assert(mantissa * 1 == mantissa);
        }
        assert(mantissa * radix * down == mantissa * (radix * down)) by (nonlinear_arith);
        assert(n1 * d2 == n2 * d1);
        assert(d1 > 0 && d2 > 0);
    }
    crate::convert::lemma_rounded_of_equal_ratios(
        layout,
        RoundingKind::NearestTieEven,
        false,
        n1,
        d1,
        n2,
        d2,
    );
}

/// A zero is a digit, makes nothing of nothing, and behind the digits of
/// a number multiplies it by the radix.
proof fn lemma_zero_digit(radix: u32, acc: nat)
    requires
        is_radix(radix),
    ensures
        all_digits(seq![ZERO], radix),
        chars_value_from(acc, seq![ZERO], radix) == acc * radix,
{
    let zero = seq![ZERO];
    assert(is_digit(zero[0], radix));
    assert(zeros(1) =~= zero);
    vstd::arithmetic::power::lemma_pow1(radix as int);
    lemma_value_from_zeros(acc, 1, radix);
}

/// What parsing gives of the text of a number that rounds to the float
/// with the magnitude `magnitude`.
pub open spec fn read_back(negative: bool, layout: FloatLayout, magnitude: nat, len: nat) -> Result<
    (u64, usize),
    Error,
> {
    Ok(
        (
            if negative {
                ((magnitude as u64) + layout.spec_sign_bit()) as u64
            } else {
                magnitude as u64
            },
            len as usize,
        ),
    )
}

/// Whether the text of a number, with a minus or without, is parsed in
/// `radix` and the standard format to the float of `layout` with the
/// magnitude `magnitude`, all of it.
pub open spec fn is_read_back(
    negative: bool,
    body: Seq<u8>,
    radix: u32,
    layout: FloatLayout,
    magnitude: nat,
) -> bool {
    spec_parse_float(
        sign_text(negative) + body,
        layout,
        spec_grammar_with(false, radix, spec_default_format()),
    ) == read_back(negative, layout, magnitude, (sign_text(negative) + body).len())
}

/// Digits that are written behind a zero, a point and zeros are read back.
proof fn lemma_read_back_small(
    negative: bool,
    digits: Seq<u8>,
    point: int,
    radix: u32,
    layout: FloatLayout,
    magnitude: nat,
)
    requires
        is_radix(radix),
        radix <= 18,
        digits.len() >= 1,
        forall|i: int| 0 <= i < digits.len() ==> digits[i] < radix,
        is_read_as(digits, point, radix, layout, magnitude),
        point <= 0,
        (sign_text(negative) + format_fixed(digits, point, false)).len() <= usize::MAX,
    ensures
        is_read_back(negative, format_fixed(digits, point, false), radix, layout, magnitude),
{
    let marker = spec_exponent_notation_char(radix);
    let chars = digit_chars(digits);
    let zero = seq![ZERO];
    let count = (-point) as nat;
    let fraction = zeros(count) + chars;
    lemma_value_of_digit_chars(digits, radix);
    lemma_zero_digit(radix, 0);
    assert(format_fixed(digits, point, false) =~= number_text(zero, fraction, None, marker));
    assert(all_digits(fraction, radix)) by {
        assert forall|i: int| 0 <= i < fraction.len() implies is_digit(
            #[trigger] fraction[i],
            radix,
        ) by {
            if i >= count as int {
                assert(fraction[i] == chars[i - count]);
            }
        }
    }
    lemma_value_from_concat(0, zeros(count), chars, radix);
    lemma_value_from_zeros(0, count, radix);
    assert(0 * pow(radix as int, count) == 0);
    assert(chars_value_from(0, zero, radix) == 0 * radix);
    lemma_parse_number_text(negative, zero, fraction, None, radix, layout);
    lemma_nearest_ignores_sign(
        layout,
        float_num(digits_value(digits, radix), radix, point - digits.len()),
        float_den(radix, point - digits.len()),
    );
}

/// Digits that are written before zeros, a point and a zero are read back.
proof fn lemma_read_back_large(
    negative: bool,
    digits: Seq<u8>,
    point: int,
    radix: u32,
    layout: FloatLayout,
    magnitude: nat,
)
    requires
        is_radix(radix),
        radix <= 18,
        digits.len() >= 1,
        forall|i: int| 0 <= i < digits.len() ==> digits[i] < radix,
        is_read_as(digits, point, radix, layout, magnitude),
        digits.len() <= point,
        (sign_text(negative) + format_fixed(digits, point, false)).len() <= usize::MAX,
    ensures
        is_read_back(negative, format_fixed(digits, point, false), radix, layout, magnitude),
{
    let marker = spec_exponent_notation_char(radix);
    let chars = digit_chars(digits);
    let zero = seq![ZERO];
    let n = digits.len() as int;
    let value = digits_value(digits, radix);
    let count = (point - n) as nat;
    let integer = chars + zeros(count);
    lemma_value_of_digit_chars(digits, radix);
    assert(format_fixed(digits, point, false) =~= number_text(integer, zero, None, marker)) by {
        assert(integer_suffix(false) == seq![POINT, ZERO]);
        assert(chars + zeros(count) + seq![POINT, ZERO] =~= integer + seq![POINT] + zero
            + Seq::<u8>::empty());
    }
    assert(all_digits(integer, radix)) by {
        assert forall|i: int| 0 <= i < integer.len() implies is_digit(
            #[trigger] integer[i],
            radix,
        ) by {
            if i < n {
                assert(integer[i] == chars[i]);
            }
        }
    }
    lemma_value_from_concat(0, chars, zeros(count), radix);
    lemma_value_from_zeros(value, count, radix);
    vstd::arithmetic::power::lemma_pow_positive(radix as int, count);
    let scaled = value * (pow(radix as int, count) as nat);
    assert(chars_value_from(0, integer, radix) == scaled);
    lemma_zero_digit(radix, scaled);
    lemma_rounded_with_zero(layout, scaled, radix, 0);
    lemma_rounded_with_count(layout, value, radix, count);
    lemma_parse_number_text(negative, integer, zero, None, radix, layout);
    lemma_nearest_ignores_sign(layout, float_num(scaled * (radix as nat), radix, -1), float_den(
        radix,
        -1,
    ));
}

/// Digits that are written with the point among them are read back.
proof fn lemma_read_back_split(
    negative: bool,
    digits: Seq<u8>,
    point: int,
    radix: u32,
    layout: FloatLayout,
    magnitude: nat,
)
    requires
        is_radix(radix),
        radix <= 18,
        forall|i: int| 0 <= i < digits.len() ==> digits[i] < radix,
        is_read_as(digits, point, radix, layout, magnitude),
        0 < point < digits.len(),
        (sign_text(negative) + format_fixed(digits, point, false)).len() <= usize::MAX,
    ensures
        is_read_back(negative, format_fixed(digits, point, false), radix, layout, magnitude),
{
    let marker = spec_exponent_notation_char(radix);
    let chars = digit_chars(digits);
    let integer = chars.take(point);
    let fraction = chars.skip(point);
    lemma_value_of_digit_chars(digits, radix);
    assert(format_fixed(digits, point, false) =~= number_text(integer, fraction, None, marker));
    assert(all_digits(integer, radix) && all_digits(fraction, radix)) by {
        assert forall|i: int| 0 <= i < integer.len() implies is_digit(
            #[trigger] integer[i],
            radix,
        ) by {
            assert(integer[i] == chars[i]);
        }
        assert forall|i: int| 0 <= i < fraction.len() implies is_digit(
            #[trigger] fraction[i],
            radix,
        ) by {
            assert(fraction[i] == chars[i + point]);
        }
    }
    assert(integer + fraction =~= chars);
    lemma_value_from_concat(0, integer, fraction, radix);
    lemma_parse_number_text(negative, integer, fraction, None, radix, layout);
    lemma_nearest_ignores_sign(
        layout,
        float_num(digits_value(digits, radix), radix, point - digits.len()),
        float_den(radix, point - digits.len()),
    );
}

/// The parts of the text of an exponent.
pub open spec fn written_exponent(first: int, radix: u32) -> Option<(bool, Seq<u8>)> {
    Some((first < 0, digits_of((if first < 0 {
        -first
    } else {
        first
    }) as nat, radix)))
}

/// Several digits that are written with an exponent are read back.
proof fn lemma_read_back_scientific_many(
    negative: bool,
    digits: Seq<u8>,
    point: int,
    radix: u32,
    layout: FloatLayout,
    magnitude: nat,
)
    requires
        is_radix(radix),
        radix <= 18,
        digits.len() > 1,
        forall|i: int| 0 <= i < digits.len() ==> digits[i] < radix,
        is_read_as(digits, point, radix, layout, magnitude),
        (sign_text(negative) + format_scientific(
            digits,
            point,
            radix,
            spec_exponent_notation_char(radix),
            false,
        )).len() <= usize::MAX,
    ensures
        is_read_back(
            negative,
            format_scientific(digits, point, radix, spec_exponent_notation_char(radix), false),
            radix,
            layout,
            magnitude,
        ),
{
    let marker = spec_exponent_notation_char(radix);
    let chars = digit_chars(digits);
    let n = digits.len() as int;
    let value = digits_value(digits, radix);
    let first = point - 1;
    let exponent = written_exponent(first, radix);
    let written = seq![marker] + integer_text(first, radix);
    let integer = chars.take(1);
    let fraction = chars.skip(1);
    lemma_value_of_digit_chars(digits, radix);
    lemma_exponent_of_text(first, radix);
    assert(format_scientific(digits, point, radix, marker, false) =~= number_text(
        integer,
        fraction,
        exponent,
        marker,
    )) by {
        assert(integer + (seq![POINT] + fraction) + seq![marker] + integer_text(first, radix)
            =~= integer + seq![POINT] + fraction + written);
    }
    assert(all_digits(integer, radix)) by {
        assert(integer[0] == chars[0]);
    }
    assert(all_digits(fraction, radix)) by {
        assert forall|i: int| 0 <= i < fraction.len() implies is_digit(
            #[trigger] fraction[i],
            radix,
        ) by {
            assert(fraction[i] == chars[i + 1]);
        }
    }
    assert(integer + fraction =~= chars);
    lemma_value_from_concat(0, integer, fraction, radix);
    lemma_parse_number_text(negative, integer, fraction, exponent, radix, layout);
    lemma_nearest_ignores_sign(layout, float_num(value, radix, point - n), float_den(
        radix,
        point - n,
    ));
}

/// One digit that is written with an exponent is read back.
proof fn lemma_read_back_scientific_one(
    negative: bool,
    digits: Seq<u8>,
    point: int,
    radix: u32,
    layout: FloatLayout,
    magnitude: nat,
)
    requires
        is_radix(radix),
        radix <= 18,
        digits.len() == 1,
        digits[0] < radix,
        is_read_as(digits, point, radix, layout, magnitude),
        (sign_text(negative) + format_scientific(
            digits,
            point,
            radix,
            spec_exponent_notation_char(radix),
            false,
        )).len() <= usize::MAX,
    ensures
        is_read_back(
            negative,
            format_scientific(digits, point, radix, spec_exponent_notation_char(radix), false),
            radix,
            layout,
            magnitude,
        ),
{
    let marker = spec_exponent_notation_char(radix);
    let chars = digit_chars(digits);
    let zero = seq![ZERO];
    let value = digits_value(digits, radix);
    let first = point - 1;
    let exponent = written_exponent(first, radix);
    let written = seq![marker] + integer_text(first, radix);
    lemma_value_of_digit_chars(digits, radix);
    lemma_zero_digit(radix, value);
    lemma_exponent_of_text(first, radix);
    assert(chars.take(1) =~= chars);
    assert(format_scientific(digits, point, radix, marker, false) =~= number_text(
        chars,
        zero,
        exponent,
        marker,
    )) by {
        assert(integer_suffix(false) == seq![POINT, ZERO]);
        assert(chars + seq![POINT, ZERO] + seq![marker] + integer_text(first, radix) =~= chars
            + seq![POINT] + zero + written);
    }
    lemma_rounded_with_zero(layout, value, radix, first);
    lemma_parse_number_text(negative, chars, zero, exponent, radix, layout);
    lemma_nearest_ignores_sign(
        layout,
        float_num(value * (radix as nat), radix, first - 1),
        float_den(radix, first - 1),
    );
}

/// The text of digits that are read as a float is parsed, in a radix up
/// to eighteen and the standard format, to that float.
pub proof fn lemma_read_back_digits(
    negative: bool,
    digits: Seq<u8>,
    point: int,
    radix: u32,
    layout: FloatLayout,
    magnitude: nat,
)
    requires
        is_radix(radix),
        radix <= 18,
        digits.len() >= 1,
        forall|i: int| 0 <= i < digits.len() ==> digits[i] < radix,
        is_read_as(digits, point, radix, layout, magnitude),
        (sign_text(negative) + format_digits(
            digits,
            point,
            radix,
            spec_exponent_notation_char(radix),
            false,
        )).len() <= usize::MAX,
    ensures
        is_read_back(
            negative,
            format_digits(digits, point, radix, spec_exponent_notation_char(radix), false),
            radix,
            layout,
            magnitude,
        ),
{
    if FIXED_MIN <= point - 1 <= FIXED_MAX {
        if point <= 0 {
            lemma_read_back_small(negative, digits, point, radix, layout, magnitude);
        } else if digits.len() <= point {
            lemma_read_back_large(negative, digits, point, radix, layout, magnitude);
        } else {
            lemma_read_back_split(negative, digits, point, radix, layout, magnitude);
        }
    } else if digits.len() > 1 {
        lemma_read_back_scientific_many(negative, digits, point, radix, layout, magnitude);
    } else {
        lemma_read_back_scientific_one(negative, digits, point, radix, layout, magnitude);
    }
}

/// The number `mantissa * radix^count` rounds as the number that is
/// written with `count` as its exponent does.
proof fn lemma_rounded_with_count(layout: FloatLayout, mantissa: nat, radix: u32, count: nat)
    requires
        is_radix(radix),
    ensures
        float_num(mantissa * (pow(radix as int, count) as nat), radix, 0) == float_num(
            mantissa,
            radix,
            count as int,
        ),
        float_den(radix, 0) == float_den(radix, count as int),
{
    vstd::arithmetic::power::lemma_pow0(radix as int);
    vstd::arithmetic::power::lemma_pow_positive(radix as int, count);
    assert(mantissa * (pow(radix as int, count) as nat) * 1 == mantissa * (pow(
        radix as int,
        count,
    ) as nat));
}

/// The text of infinity is read back as infinity.
proof fn lemma_read_back_infinity(negative: bool, radix: u32, layout: FloatLayout)
    requires
        is_radix(radix),
    ensures
        is_read_back(
            negative,
            spec_default_inf_string(),
            radix,
            layout,
            layout.spec_infinity_bits(),
        ),
{
    let word = spec_default_inf_string();
    let long = spec_default_infinity_string();
    let sign = sign_text(negative);
    let s = sign + word;
    let start = sign.len() as int;
    let g = spec_grammar_with(false, radix, spec_default_format());
    let separator = g.format.spec_digit_separator();
    lemma_standard_format();
    assert(s.len() == start + 3);
    assert(s[start] == word[0] && s[start + 1] == word[1] && s[start + 2] == word[2]);
    assert(word[0] == 0x69 && word[1] == 0x6E && word[2] == 0x66);
    assert(long[0] == 0x69 && long[1] == 0x6E && long[2] == 0x66 && long.len() == 8);
    if negative {
        assert(s[0] == MINUS);
    } else {
        assert(s[0] == word[0]);
    }
    reveal_with_fuel(match_word, 5);
    assert(match_word(s, start, long, 0, false, false, separator) is None);
    assert(match_word(s, start, word, 0, false, false, separator) == Some((start + 3) as usize));
    assert(first_kept(s, start, false, separator) == start);
}

/// The text of zero is read back as zero.
proof fn lemma_read_back_zero(negative: bool, radix: u32, layout: FloatLayout)
    requires
        is_radix(radix),
        radix <= 18,
    ensures
        is_read_back(negative, seq![ZERO] + integer_suffix(false), radix, layout, 0),
{
    let zero = seq![ZERO];
    let marker = spec_exponent_notation_char(radix);
    lemma_zero_digit(radix, 0);
    assert(zero + integer_suffix(false) =~= number_text(zero, zero, None, marker)) by {
        assert(integer_suffix(false) == seq![POINT, ZERO]);
    }
    assert(chars_value_from(0, zero, radix) == 0 * radix);
    assert(0 * radix == 0);
    assert(chars_value_from(chars_value_from(0, zero, radix), zero, radix) == 0);
    lemma_parse_number_text(negative, zero, zero, None, radix, layout);
}

/// Round trip. What is written of a float that is a number, in a radix up
/// to eighteen and under the default options, is parsed in that radix to
/// the float, all of it.
///
/// In the radices above eighteen the letters that begin the special
/// values are digits, and a text of digits that spells a special value is
/// read as that value.
pub proof fn lemma_float_round_trip(bits: nat, layout: FloatLayout, radix: u32, text: Seq<u8>)
    requires
        is_radix(radix),
        radix <= 18,
        bits <= layout.spec_infinity_bits() || layout.spec_sign_bit() <= bits
            <= layout.spec_sign_bit() + layout.spec_infinity_bits(),
        text.len() <= usize::MAX,
        is_float_text(
            bits,
            layout,
            radix,
            spec_exponent_notation_char(radix),
            false,
            spec_default_nan_string(),
            spec_default_inf_string(),
            text,
        ),
    ensures
        spec_parse_float(text, layout, spec_grammar_with(false, radix, spec_default_format()))
            == Ok::<(u64, usize), Error>((bits as u64, text.len() as usize)),
{
    let negative = bits >= layout.spec_sign_bit();
    let magnitude = if negative {
        (bits - layout.spec_sign_bit()) as nat
    } else {
        bits
    };
    let sign = sign_text(negative);
    let marker = spec_exponent_notation_char(radix);
    if magnitude == layout.spec_infinity_bits() {
        lemma_read_back_infinity(negative, radix, layout);
    } else if magnitude == 0 {
        lemma_read_back_zero(negative, radix, layout);
        assert(sign + seq![ZERO] + integer_suffix(false) =~= sign + (seq![ZERO] + integer_suffix(
            false,
        )));
    } else {
        let body = text.skip(sign.len() as int);
        assert(text =~= sign + body);
        assert(is_finite_text(magnitude, layout, radix, marker, false, body));
        let (digits, point) = choose|digits: Seq<u8>, point: int|
            {
                &&& 1 <= digits.len() <= crate::shortest::MAX_DIGITS
                &&& digits[0] > 0
                &&& (forall|i: int| 0 <= i < digits.len() ==> digits[i] < radix)
                &&& #[trigger] is_read_as(digits, point, radix, layout, magnitude)
                &&& body == format_digits(digits, point, radix, marker, false)
            };
        lemma_read_back_digits(negative, digits, point, radix, layout, magnitude);
    }
}

/// Round trip for [`Float32`]: what is written of a value that is a number,
/// in a radix up to eighteen, is parsed in that radix to the value, all of
/// it.
pub proof fn lemma_round_trip_float32(value: Float32, radix: u32, text: Seq<u8>)
    requires
        is_radix(radix),
        radix <= 18,
        value.bits <= FloatLayout::Single.spec_infinity_bits() || FloatLayout::Single.spec_sign_bit()
            <= value.bits <= FloatLayout::Single.spec_sign_bit()
            + FloatLayout::Single.spec_infinity_bits(),
        text.len() <= usize::MAX,
        value.is_text_in(radix, text),
    ensures
        <Float32 as FromLexical>::spec_parse_with(text, false, radix, spec_default_format()) == Ok::<
            (Float32, usize),
            Error,
        >((value, text.len() as usize)),
{
    lemma_float_round_trip(value.bits as nat, FloatLayout::Single, radix, text);
}

/// Idempotence for [`Float32`]: what is parsed from the text of a value that
/// is a number has the same text.
pub proof fn lemma_idempotence_float32(value: Float32, radix: u32, text: Seq<u8>)
    requires
        is_radix(radix),
        radix <= 18,
        value.bits <= FloatLayout::Single.spec_infinity_bits() || FloatLayout::Single.spec_sign_bit()
            <= value.bits <= FloatLayout::Single.spec_sign_bit()
            + FloatLayout::Single.spec_infinity_bits(),
        text.len() <= usize::MAX,
        value.is_text_in(radix, text),
    ensures
        <Float32 as FromLexical>::spec_parse_with(
            text,
            false,
            radix,
            spec_default_format(),
        ) matches Ok((parsed, _)) && parsed.is_text_in(radix, text),
{
    lemma_round_trip_float32(value, radix, text);
}

/// Round trip for [`Float64`]: what is written of a value that is a number,
/// in a radix up to eighteen, is parsed in that radix to the value, all of
/// it.
pub proof fn lemma_round_trip_float64(value: Float64, radix: u32, text: Seq<u8>)
    requires
        is_radix(radix),
        radix <= 18,
        value.bits <= FloatLayout::Double.spec_infinity_bits() || FloatLayout::Double.spec_sign_bit()
            <= value.bits <= FloatLayout::Double.spec_sign_bit()
            + FloatLayout::Double.spec_infinity_bits(),
        text.len() <= usize::MAX,
        value.is_text_in(radix, text),
    ensures
        <Float64 as FromLexical>::spec_parse_with(text, false, radix, spec_default_format()) == Ok::<
            (Float64, usize),
            Error,
        >((value, text.len() as usize)),
{
    lemma_float_round_trip(value.bits as nat, FloatLayout::Double, radix, text);
}

/// Idempotence for [`Float64`]: what is parsed from the text of a value that
/// is a number has the same text.
pub proof fn lemma_idempotence_float64(value: Float64, radix: u32, text: Seq<u8>)
    requires
        is_radix(radix),
        radix <= 18,
        value.bits <= FloatLayout::Double.spec_infinity_bits() || FloatLayout::Double.spec_sign_bit()
            <= value.bits <= FloatLayout::Double.spec_sign_bit()
            + FloatLayout::Double.spec_infinity_bits(),
        text.len() <= usize::MAX,
        value.is_text_in(radix, text),
    ensures
        <Float64 as FromLexical>::spec_parse_with(
            text,
            false,
            radix,
            spec_default_format(),
        ) matches Ok((parsed, _)) && parsed.is_text_in(radix, text),
{
    lemma_round_trip_float64(value, radix, text);
}

} // verus!

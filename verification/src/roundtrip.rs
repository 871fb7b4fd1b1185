//! What is written is parsed back: the text of an integer is the text that
//! parsing turns into the integer again.

use vstd::prelude::*;

use crate::ascii::{MINUS, PLUS};
use crate::atoi::{spec_parse_integer, IntegerKind};
use crate::integers::{
    spec_kind_u8, spec_parse_u8, spec_kind_u16, spec_parse_u16, spec_kind_u32, spec_parse_u32, spec_kind_u64, spec_parse_u64,
    spec_kind_usize, spec_parse_usize, spec_kind_u128, spec_parse_u128, spec_kind_i8, spec_parse_i8, spec_kind_i16, spec_parse_i16,
    spec_kind_i32, spec_parse_i32, spec_kind_i64, spec_parse_i64, spec_kind_isize, spec_parse_isize, spec_kind_i128, spec_parse_i128,
};
use crate::digit::{digit_value, is_digit, is_radix, spec_digit_to_char};
use crate::error::Error;
use crate::flags::{
    INTEGER_CONSECUTIVE_DIGIT_SEPARATOR, INTEGER_INTERNAL_DIGIT_SEPARATOR,
    INTEGER_LEADING_DIGIT_SEPARATOR, INTEGER_TRAILING_DIGIT_SEPARATOR, NO_INTEGER_LEADING_ZEROS,
};
use crate::format::{NumberFormat, STANDARD};
use crate::itoa::{digits_of, integer_text};
use crate::options::spec_default_format;
use crate::scan::{
    count_between, region_end, scan, spec_integer_policy, value_between, ScanState,
    SeparatorPolicy,
};

verus! {

/// The standard format lets no digit separator stand among the integer
/// digits and does not forbid leading zeros.
pub proof fn lemma_standard_integer_policy()
    ensures
        !spec_integer_policy(spec_default_format()).spec_is_active(),
        !spec_default_format().has(NO_INTEGER_LEADING_ZEROS),
{
    assert(STANDARD & INTEGER_INTERNAL_DIGIT_SEPARATOR == 0 && STANDARD
        & INTEGER_LEADING_DIGIT_SEPARATOR == 0 && STANDARD & INTEGER_TRAILING_DIGIT_SEPARATOR == 0
        && STANDARD & NO_INTEGER_LEADING_ZEROS == 0) by (bit_vector)
        requires
            STANDARD == 0x4,
            INTEGER_INTERNAL_DIGIT_SEPARATOR == 0x1_0000_0000,
            INTEGER_LEADING_DIGIT_SEPARATOR == 0x2_0000_0000,
            INTEGER_TRAILING_DIGIT_SEPARATOR == 0x4_0000_0000,
            NO_INTEGER_LEADING_ZEROS == 0x800,
    ;
}

/// The digits of a number are digits of the radix, and there is one at
/// least.
pub proof fn lemma_digits_are_digits(n: nat, radix: u32)
    requires
        is_radix(radix),
    ensures
        digits_of(n, radix).len() >= 1,
        forall|i: int|
            0 <= i < digits_of(n, radix).len() ==> is_digit(#[trigger] digits_of(n, radix)[i], radix),
    decreases n,
{
    if n >= radix {
        vstd::arithmetic::div_mod::lemma_div_decreases(n as int, radix as int);
        vstd::arithmetic::div_mod::lemma_mod_bound(n as int, radix as int);
        lemma_digits_are_digits(n / (radix as nat), radix);
    }
}

/// A region in which no separator may stand, and which is digits up to
/// the end of the text, ends with the text.
pub proof fn lemma_scan_digits_to_end(s: Seq<u8>, p: int, radix: u32, policy: SeparatorPolicy)
    requires
        0 <= p <= s.len(),
        !policy.spec_is_active(),
        forall|i: int| p <= i < s.len() ==> is_digit(#[trigger] s[i], radix),
    ensures
        scan(s, p, radix, policy, ScanState::Start) == s.len(),
        scan(s, p, radix, policy, ScanState::AfterDigit) == s.len(),
    decreases s.len() - p,
{
    if p < s.len() {
        lemma_scan_digits_to_end(s, p + 1, radix, policy);
    }
}

/// The number of a stretch of text depends on the bytes of the stretch
/// only.
pub proof fn lemma_value_of_equal_stretches(
    s: Seq<u8>,
    from: int,
    to: int,
    t: Seq<u8>,
    shift: int,
    radix: u32,
)
    requires
        0 <= from <= to <= s.len(),
        0 <= from + shift,
        to + shift <= t.len(),
        forall|i: int| from <= i < to ==> s[i] == t[i + shift],
    ensures
        value_between(s, from, to, radix) == value_between(t, from + shift, to + shift, radix),
        count_between(s, from, to, radix) == count_between(t, from + shift, to + shift, radix),
    decreases to - from,
{
    if from < to {
        lemma_value_of_equal_stretches(s, from, to - 1, t, shift, radix);
    }
}

/// The digits of a number make the number.
pub proof fn lemma_value_of_digits(n: nat, radix: u32)
    requires
        is_radix(radix),
    ensures
        value_between(digits_of(n, radix), 0, digits_of(n, radix).len() as int, radix) == n,
    decreases n,
{
    let text = digits_of(n, radix);
    lemma_digits_are_digits(n, radix);
    if n >= radix {
        let high = n / (radix as nat);
        let low = n % (radix as nat);
        vstd::arithmetic::div_mod::lemma_div_decreases(n as int, radix as int);
        vstd::arithmetic::div_mod::lemma_mod_bound(n as int, radix as int);
        vstd::arithmetic::div_mod::lemma_fundamental_div_mod(n as int, radix as int);
        lemma_value_of_digits(high, radix);
        let head = digits_of(high, radix);
        assert(text == head.push(spec_digit_to_char(low)));
        lemma_value_of_equal_stretches(head, 0, head.len() as int, text, 0, radix);
        let last = text.len() - 1;
        assert(text[last] == spec_digit_to_char(low));
        assert(digit_value(text[last]) == low);
        assert(is_digit(text[last], radix));
        assert(value_between(text, 0, last as int, radix) == high);
        assert(value_between(text, 0, text.len() as int, radix) == value_between(
            text,
            0,
            last as int,
            radix,
        ) * (radix as nat) + digit_value(text[last]));
        assert(high * radix + low == n) by (nonlinear_arith)
            requires
                n == radix * high + low,
        ;
    } else {
        assert(text.len() == 1);
        assert(value_between(text, 0, 0, radix) == 0);
        assert(digit_value(text[0]) == n);
        assert(is_digit(text[0], radix));
        assert(value_between(text, 0, 1, radix) == value_between(text, 0, 0, radix) * (
        radix as nat) + digit_value(text[0]));
    }
}

/// The first digit of a number is neither sign.
pub proof fn lemma_digits_start_with_digit(n: nat, radix: u32)
    requires
        is_radix(radix),
    ensures
        digits_of(n, radix)[0] != PLUS,
        digits_of(n, radix)[0] != MINUS,
{
    lemma_digits_are_digits(n, radix);
    assert(is_digit(digits_of(n, radix)[0], radix));
}

/// Round trip. The text of an integer, written in any radix, is parsed in
/// that radix and the standard format to the integer, all of it, whenever
/// the integer is a value of the type that is parsed.
pub proof fn lemma_integer_round_trip(v: int, radix: u32, kind: IntegerKind)
    requires
        is_radix(radix),
        -(kind.min_magnitude as int) <= v <= kind.max,
        v < 0 ==> kind.signed,
    ensures
        spec_parse_integer(integer_text(v, radix), radix, spec_default_format(), kind) == Ok::<
            (bool, u128, usize),
            Error,
        >(
            (
                v < 0,
                (if v < 0 {
                    -v
                } else {
                    v
                }) as u128,
                integer_text(v, radix).len() as usize,
            ),
        ),
{
    let format = spec_default_format();
    let policy = spec_integer_policy(format);
    let magnitude = (if v < 0 {
        -v
    } else {
        v
    }) as nat;
    let digits = digits_of(magnitude, radix);
    let text = integer_text(v, radix);
    let start: int = if v < 0 {
        1
    } else {
        0
    };
    lemma_standard_integer_policy();
    lemma_digits_are_digits(magnitude, radix);
    lemma_digits_start_with_digit(magnitude, radix);
    lemma_value_of_digits(magnitude, radix);
    crate::writers::lemma_pow2_128();
    crate::writers::lemma_binary_size(magnitude, radix, 128);
    assert(text.len() == start + digits.len());
    assert forall|i: int| start <= i < text.len() implies is_digit(#[trigger] text[i], radix) by {
        assert(text[i] == digits[i - start]);
    }
    lemma_scan_digits_to_end(text, start, radix, policy);
    assert(region_end(text, start, radix, policy) == text.len());
    lemma_value_of_equal_stretches(digits, 0, digits.len() as int, text, start, radix);
    assert(value_between(text, start, text.len() as int, radix) == magnitude);
    if v < 0 {
        assert(text[0] == MINUS);
    } else {
        assert(text[0] == digits[0]);
    }
}

/// Idempotence. Writing what was parsed from the text of an integer gives
/// the text again.
pub proof fn lemma_integer_idempotence(v: int, radix: u32, kind: IntegerKind)
    requires
        is_radix(radix),
        -(kind.min_magnitude as int) <= v <= kind.max,
        v < 0 ==> kind.signed,
    ensures
        spec_parse_integer(
            integer_text(v, radix),
            radix,
            spec_default_format(),
            kind,
        ) matches Ok((negative, magnitude, _)) && integer_text(
            if negative {
                -(magnitude as int)
            } else {
                magnitude as int
            },
            radix,
        ) == integer_text(v, radix),
{
    lemma_integer_round_trip(v, radix, kind);
}

/// The length of the sign that a text begins with.
pub open spec fn sign_length(s: Seq<u8>, signed: bool) -> int {
    if s.len() > 0 && (s[0] == PLUS || (signed && s[0] == MINUS)) {
        1
    } else {
        0
    }
}

/// Partial parses and complete parses agree. Where the integer that
/// begins a text is parsed and is more than a sign, the text that ends
/// where the integer ends is parsed to the same integer, and all of it.
pub proof fn lemma_integer_prefix(s: Seq<u8>, radix: u32, format: NumberFormat, kind: IntegerKind)
    requires
        is_radix(radix),
        s.len() <= usize::MAX,
        spec_parse_integer(s, radix, format, kind) is Ok,
        spec_parse_integer(s, radix, format, kind)->Ok_0.2 > sign_length(s, kind.signed),
    ensures
        ({
            let parsed = spec_parse_integer(s, radix, format, kind);
            let consumed = parsed->Ok_0.2;
            &&& consumed <= s.len()
            &&& spec_parse_integer(s.take(consumed as int), radix, format, kind) == parsed
        }),
{
    let policy = spec_integer_policy(format);
    let negative = kind.signed && s[0] == MINUS;
    let start: int = if s[0] == PLUS || negative {
        1
    } else {
        0
    };
    let end = region_end(s, start, radix, policy);
    crate::scan::lemma_scan_bounds(s, start, radix, policy, ScanState::Start);
    crate::scan::lemma_scan_prefix(s, start, radix, policy, ScanState::Start);
    crate::scan::lemma_stretch_of_prefix(s, start, end, end, radix);
    let t = s.take(end);
    assert(t[0] == s[0]);
}

/// Round trip for `u8`: the text of a value, written in any radix, is
/// parsed in that radix to the value, all of it.
pub proof fn lemma_round_trip_u8(v: u8, radix: u32)
    requires
        is_radix(radix),
    ensures
        spec_parse_u8(integer_text(v as int, radix), radix, spec_default_format()) == Ok::<
            (u8, usize),
            Error,
        >((v, integer_text(v as int, radix).len() as usize)),
{
    lemma_integer_round_trip(v as int, radix, spec_kind_u8(radix));
}

/// Round trip for `u16`: the text of a value, written in any radix, is
/// parsed in that radix to the value, all of it.
pub proof fn lemma_round_trip_u16(v: u16, radix: u32)
    requires
        is_radix(radix),
    ensures
        spec_parse_u16(integer_text(v as int, radix), radix, spec_default_format()) == Ok::<
            (u16, usize),
            Error,
        >((v, integer_text(v as int, radix).len() as usize)),
{
    lemma_integer_round_trip(v as int, radix, spec_kind_u16(radix));
}

/// Round trip for `u32`: the text of a value, written in any radix, is
/// parsed in that radix to the value, all of it.
pub proof fn lemma_round_trip_u32(v: u32, radix: u32)
    requires
        is_radix(radix),
    ensures
        spec_parse_u32(integer_text(v as int, radix), radix, spec_default_format()) == Ok::<
            (u32, usize),
            Error,
        >((v, integer_text(v as int, radix).len() as usize)),
{
    lemma_integer_round_trip(v as int, radix, spec_kind_u32(radix));
}

/// Round trip for `u64`: the text of a value, written in any radix, is
/// parsed in that radix to the value, all of it.
pub proof fn lemma_round_trip_u64(v: u64, radix: u32)
    requires
        is_radix(radix),
    ensures
        spec_parse_u64(integer_text(v as int, radix), radix, spec_default_format()) == Ok::<
            (u64, usize),
            Error,
        >((v, integer_text(v as int, radix).len() as usize)),
{
    lemma_integer_round_trip(v as int, radix, spec_kind_u64(radix));
}

/// Round trip for `usize`: the text of a value, written in any radix, is
/// parsed in that radix to the value, all of it.
pub proof fn lemma_round_trip_usize(v: usize, radix: u32)
    requires
        is_radix(radix),
    ensures
        spec_parse_usize(integer_text(v as int, radix), radix, spec_default_format()) == Ok::<
            (usize, usize),
            Error,
        >((v, integer_text(v as int, radix).len() as usize)),
{
    lemma_integer_round_trip(v as int, radix, spec_kind_usize(radix));
}

/// Round trip for `u128`: the text of a value, written in any radix, is
/// parsed in that radix to the value, all of it.
pub proof fn lemma_round_trip_u128(v: u128, radix: u32)
    requires
        is_radix(radix),
    ensures
        spec_parse_u128(integer_text(v as int, radix), radix, spec_default_format()) == Ok::<
            (u128, usize),
            Error,
        >((v, integer_text(v as int, radix).len() as usize)),
{
    lemma_integer_round_trip(v as int, radix, spec_kind_u128(radix));
}

/// Round trip for `i8`: the text of a value, written in any radix, is
/// parsed in that radix to the value, all of it.
pub proof fn lemma_round_trip_i8(v: i8, radix: u32)
    requires
        is_radix(radix),
    ensures
        spec_parse_i8(integer_text(v as int, radix), radix, spec_default_format()) == Ok::<
            (i8, usize),
            Error,
        >((v, integer_text(v as int, radix).len() as usize)),
{
    lemma_integer_round_trip(v as int, radix, spec_kind_i8(radix));
}

/// Round trip for `i16`: the text of a value, written in any radix, is
/// parsed in that radix to the value, all of it.
pub proof fn lemma_round_trip_i16(v: i16, radix: u32)
    requires
        is_radix(radix),
    ensures
        spec_parse_i16(integer_text(v as int, radix), radix, spec_default_format()) == Ok::<
            (i16, usize),
            Error,
        >((v, integer_text(v as int, radix).len() as usize)),
{
    lemma_integer_round_trip(v as int, radix, spec_kind_i16(radix));
}

/// Round trip for `i32`: the text of a value, written in any radix, is
/// parsed in that radix to the value, all of it.
pub proof fn lemma_round_trip_i32(v: i32, radix: u32)
    requires
        is_radix(radix),
    ensures
        spec_parse_i32(integer_text(v as int, radix), radix, spec_default_format()) == Ok::<
            (i32, usize),
            Error,
        >((v, integer_text(v as int, radix).len() as usize)),
{
    lemma_integer_round_trip(v as int, radix, spec_kind_i32(radix));
}

/// Round trip for `i64`: the text of a value, written in any radix, is
/// parsed in that radix to the value, all of it.
pub proof fn lemma_round_trip_i64(v: i64, radix: u32)
    requires
        is_radix(radix),
    ensures
        spec_parse_i64(integer_text(v as int, radix), radix, spec_default_format()) == Ok::<
            (i64, usize),
            Error,
        >((v, integer_text(v as int, radix).len() as usize)),
{
    lemma_integer_round_trip(v as int, radix, spec_kind_i64(radix));
}

/// Round trip for `isize`: the text of a value, written in any radix, is
/// parsed in that radix to the value, all of it.
pub proof fn lemma_round_trip_isize(v: isize, radix: u32)
    requires
        is_radix(radix),
    ensures
        spec_parse_isize(integer_text(v as int, radix), radix, spec_default_format()) == Ok::<
            (isize, usize),
            Error,
        >((v, integer_text(v as int, radix).len() as usize)),
{
    lemma_integer_round_trip(v as int, radix, spec_kind_isize(radix));
}

/// Round trip for `i128`: the text of a value, written in any radix, is
/// parsed in that radix to the value, all of it.
pub proof fn lemma_round_trip_i128(v: i128, radix: u32)
    requires
        is_radix(radix),
    ensures
        spec_parse_i128(integer_text(v as int, radix), radix, spec_default_format()) == Ok::<
            (i128, usize),
            Error,
        >((v, integer_text(v as int, radix).len() as usize)),
{
    lemma_integer_round_trip(v as int, radix, spec_kind_i128(radix));
}

} // verus!

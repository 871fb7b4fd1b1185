//! Partial parses and complete parses agree: where a float that begins a
//! text is parsed, the text that ends where the float ends is parsed to the
//! same float, and all of it.

use vstd::prelude::*;

use crate::ascii::{LOWER_I, LOWER_N, MINUS, PLUS};
use crate::atof::{
    first_kept, match_word, parts_exponent, parts_mantissa, spec_extract, spec_parse_float,
    spec_parse_number, spec_parse_unsigned, spec_to_float, value_from, FloatGrammar, FloatParts,
};
use crate::digit::{is_digit, is_radix};
use crate::error::Error;
use crate::flags::{is_number_byte, SPECIAL_DIGIT_SEPARATOR};
use crate::float::FloatLayout;
use crate::format::NumberFormat;
use crate::scan::{
    first_significant, last_significant, lemma_first_significant, lemma_last_significant,
    lemma_significant_of_prefix, count_between, lemma_scan_bounds, lemma_scan_of_longer_prefix, lemma_scan_prefix,
    lemma_stretch_of_prefix, region_end, spec_exponent_policy, spec_fraction_policy,
    spec_integer_policy, value_between, ScanState, SeparatorPolicy,
};

verus! {

/// Whether a format lets no digit separator stand anywhere.
pub open spec fn has_no_separators(format: NumberFormat) -> bool {
    &&& !spec_integer_policy(format).spec_is_active()
    &&& !spec_fraction_policy(format).spec_is_active()
    &&& !spec_exponent_policy(format).spec_is_active()
    &&& !format.has(SPECIAL_DIGIT_SEPARATOR)
}

/// Whether the digit separator of a format can be told from what else
/// stands in a number: it is no letter, digit or sign, and it is neither
/// the decimal point nor the exponent character.
pub open spec fn is_separator_apart(format: NumberFormat, exponent_char: u8) -> bool {
    &&& !is_number_byte(format.spec_digit_separator())
    &&& format.spec_digit_separator() != format.spec_decimal_point()
    &&& format.spec_digit_separator() != exponent_char
}

/// A region that ends not behind `len`, and before a byte that is no digit
/// separator if it ends before `len`, is the same region of the first `len`
/// bytes of the text.
pub proof fn lemma_region_of_prefix(
    s: Seq<u8>,
    p: int,
    len: int,
    radix: u32,
    policy: SeparatorPolicy,
)
    requires
        0 <= p <= len <= s.len() <= usize::MAX,
        region_end(s, p, radix, policy) <= len,
        region_end(s, p, radix, policy) < len ==> !(policy.spec_is_active() && s[region_end(
            s,
            p,
            radix,
            policy,
        )] == policy.separator),
    ensures
        region_end(s.take(len), p, radix, policy) == region_end(s, p, radix, policy),
{
    lemma_scan_bounds(s, p, radix, policy, ScanState::Start);
    if region_end(s, p, radix, policy) == len {
        lemma_scan_prefix(s, p, radix, policy, ScanState::Start);
    } else {
        lemma_scan_of_longer_prefix(s, p, len, radix, policy, ScanState::Start);
    }
}

/// A stretch that holds digits holds a digit: the place of one.
pub proof fn lemma_digit_in_stretch(s: Seq<u8>, from: int, to: int, radix: u32) -> (at: int)
    requires
        0 <= from <= to <= s.len(),
        count_between(s, from, to, radix) > 0,
    ensures
        from <= at < to,
        is_digit(s[at], radix),
    decreases to - from,
{
    if is_digit(s[to - 1], radix) {
        to - 1
    } else {
        lemma_digit_in_stretch(s, from, to - 1, radix)
    }
}

/// The first byte that is not passed over stands not behind any byte that
/// is no separator.
pub proof fn lemma_first_kept_bound(s: Seq<u8>, p: int, at: int, skip: bool, separator: u8)
    requires
        0 <= p <= at < s.len(),
        s[at] != separator,
    ensures
        p <= first_kept(s, p, skip, separator) <= at,
    decreases at - p,
{
    if skip && s[p] == separator {
        lemma_first_kept_bound(s, p + 1, at, skip, separator);
    }
}

/// The first byte that is not passed over is the same in the first bytes
/// of the text that hold it.
pub proof fn lemma_first_kept_of_prefix(s: Seq<u8>, p: int, len: int, skip: bool, separator: u8)
    requires
        0 <= p <= len <= s.len(),
        first_kept(s, p, skip, separator) < len,
    ensures
        first_kept(s.take(len), p, skip, separator) == first_kept(s, p, skip, separator),
    decreases s.len() - p,
{
    if p < len {
        assert(s.take(len)[p] == s[p]);
        if skip && s[p] == separator {
            lemma_first_kept_of_prefix(s, p + 1, len, skip, separator);
        }
    } else {
        lemma_first_kept_from(s, p, skip, separator);
    }
}

/// The first byte that is not passed over stands not before the place from
/// which it is looked for.
pub proof fn lemma_first_kept_from(s: Seq<u8>, p: int, skip: bool, separator: u8)
    requires
        0 <= p <= s.len(),
    ensures
        p <= first_kept(s, p, skip, separator),
    decreases s.len() - p,
{
    if p < s.len() && skip && s[p] == separator {
        lemma_first_kept_from(s, p + 1, skip, separator);
    }
}

/// What a stretch of text makes of a number depends on the bytes of the
/// stretch only.
pub proof fn lemma_value_from_of_prefix_text(
    acc: nat,
    s: Seq<u8>,
    from: int,
    to: int,
    len: int,
    radix: u32,
)
    requires
        0 <= from <= to <= len <= s.len(),
    ensures
        value_from(acc, s.take(len), from, to, radix) == value_from(acc, s, from, to, radix),
    decreases to - from,
{
    if from < to {
        lemma_value_from_of_prefix_text(acc, s, from, to - 1, len, radix);
        assert(s.take(len)[to - 1] == s[to - 1]);
    }
}

/// A word that the text spells is spelled by the first bytes of the text,
/// up to where the word ends; and a word that the first bytes of a text
/// spell is spelled by the text.
pub proof fn lemma_match_of_prefix(
    s: Seq<u8>,
    p: int,
    len: int,
    word: Seq<u8>,
    at: int,
    case_sensitive: bool,
    skip: bool,
    separator: u8,
)
    requires
        0 <= p <= len <= s.len() <= usize::MAX,
        0 <= at <= word.len(),
    ensures
        match_word(s, p, word, at, case_sensitive, skip, separator) matches Some(end) ==> p
            <= end && (end <= len ==> match_word(
            s.take(len),
            p,
            word,
            at,
            case_sensitive,
            skip,
            separator,
        ) == Some(end)),
        match_word(s.take(len), p, word, at, case_sensitive, skip, separator) matches Some(end)
            ==> match_word(s, p, word, at, case_sensitive, skip, separator) == Some(end),
    decreases s.len() - p,
{
    let t = s.take(len);
    if at < word.len() {
        if p < len {
            assert(t[p] == s[p]);
            lemma_match_of_prefix(s, p + 1, len, word, at + 1, case_sensitive, skip, separator);
            lemma_match_of_prefix(s, p + 1, len, word, at, case_sensitive, skip, separator);
        } else if p < s.len() {
            lemma_match_of_prefix(s, p + 1, p + 1, word, at + 1, case_sensitive, skip, separator);
            lemma_match_of_prefix(s, p + 1, p + 1, word, at, case_sensitive, skip, separator);
        }
    }
}

/// A word that the text spells ends not before as many bytes behind its
/// start as it has bytes, and behind the first byte that is not passed
/// over.
pub proof fn lemma_match_length(
    s: Seq<u8>,
    p: int,
    word: Seq<u8>,
    at: int,
    case_sensitive: bool,
    skip: bool,
    separator: u8,
)
    requires
        0 <= p <= s.len() <= usize::MAX,
        0 <= at <= word.len(),
    ensures
        match_word(s, p, word, at, case_sensitive, skip, separator) matches Some(end) ==> p
            + word.len() - at <= end <= s.len() && (at < word.len() ==> first_kept(
            s,
            p,
            skip,
            separator,
        ) < end),
    decreases s.len() - p,
{
    if at < word.len() && p < s.len() {
        lemma_match_length(s, p + 1, word, at + 1, case_sensitive, skip, separator);
        lemma_match_length(s, p + 1, word, at, case_sensitive, skip, separator);
    }
}

/// The parts of a number are the parts of the number in the text that
/// ends where the number ends, and make the same mantissa and exponent
/// there.
pub proof fn lemma_extract_of_prefix(
    s: Seq<u8>,
    start: int,
    radix: u32,
    exponent_char: u8,
    format: NumberFormat,
)
    requires
        0 <= start <= s.len() <= usize::MAX,
        has_no_separators(format) || is_separator_apart(format, exponent_char),
        spec_extract(s, start, radix, exponent_char, format) is Ok,
    ensures
        ({
            let parts = spec_extract(s, start, radix, exponent_char, format)->Ok_0;
            let t = s.take(parts.end as int);
            &&& start < parts.end <= s.len()
            &&& count_between(s, start, parts.end as int, radix) > 0
            &&& spec_extract(t, start, radix, exponent_char, format) == Ok::<FloatParts, Error>(
                parts,
            )
            &&& parts_mantissa(t, parts, radix) == parts_mantissa(s, parts, radix)
            &&& parts_exponent(t, parts, radix) == parts_exponent(s, parts, radix)
        }),
{
    let parts = spec_extract(s, start, radix, exponent_char, format)->Ok_0;
    let k = parts.end as int;
    let b = region_end(s, start, radix, spec_integer_policy(format));
    lemma_scan_bounds(s, start, radix, spec_integer_policy(format), ScanState::Start);
    let has_point = b < s.len() && s[b] == format.spec_decimal_point();
    let c = if has_point {
        b + 1
    } else {
        b
    };
    if has_point {
        lemma_scan_bounds(s, c, radix, spec_fraction_policy(format), ScanState::Start);
    }
    let d = if has_point {
        region_end(s, c, radix, spec_fraction_policy(format))
    } else {
        b
    };
    let has_exponent = d < s.len() && crate::flags::spec_to_ascii_lowercase(s[d])
        == crate::flags::spec_to_ascii_lowercase(exponent_char);
    let sign_at = d + 1;
    let signed = has_exponent && sign_at < s.len() && (s[sign_at] == PLUS || s[sign_at] == MINUS);
    let x = if !has_exponent {
        d
    } else if signed {
        sign_at + 1
    } else {
        sign_at
    };
    if has_exponent {
        lemma_scan_bounds(s, x, radix, spec_exponent_policy(format), ScanState::Start);
    }
    let e = if has_exponent {
        region_end(s, x, radix, spec_exponent_policy(format))
    } else {
        d
    };
    assert(k == e);
    assert(start <= b <= c <= d <= x <= e <= s.len());
    lemma_stretch_of_prefix(s, start, b, k, radix);
    lemma_stretch_of_prefix(s, c, d, k, radix);
    lemma_stretch_of_prefix(s, x, e, k, radix);
    assert(start < k) by {
        if b == start && d == c {
            assert(count_between(s, start, b, radix) == 0);
            assert(count_between(s, c, d, radix) == 0);
        }
    }
    lemma_count_of_longer_stretch(s, start, b, k, radix);
    if has_point {
        lemma_count_of_longer_stretch(s, c, d, k, radix);
        lemma_count_of_later_stretch(s, start, c, k, radix);
    }
    let t = s.take(k);
    assert forall|i: int| 0 <= i < k implies #[trigger] t[i] == s[i] by {}
    // Where a region ends before the number does, the decimal point or the
    // exponent character follows it, and neither is a digit separator.
    lemma_region_of_prefix(s, start, k, radix, spec_integer_policy(format));
    if has_point {
        lemma_region_of_prefix(s, c, k, radix, spec_fraction_policy(format));
    }
    if has_exponent {
        lemma_region_of_prefix(s, x, k, radix, spec_exponent_policy(format));
    }
    lemma_value_from_of_prefix_text(
        value_between(s, start, b, radix),
        s,
        c,
        d,
        k,
        radix,
    );
    // The digits that count begin and end alike.
    lemma_significant_of_prefix(s, start, b, k, radix);
    lemma_significant_of_prefix(s, c, d, k, radix);
    let last = last_significant(s, c, d, radix);
    lemma_last_significant(s, c, d, radix);
    lemma_significant_of_prefix(s, c, last, k, radix);
    let first = first_significant(s, c, last, radix);
    lemma_first_significant(s, c, last, radix);
    lemma_stretch_of_prefix(s, c, first, k, radix);
}

/// There are no fewer digits in a stretch than in its first bytes.
pub proof fn lemma_count_of_longer_stretch(s: Seq<u8>, from: int, mid: int, to: int, radix: u32)
    requires
        0 <= from <= mid <= to <= s.len(),
    ensures
        count_between(s, from, mid, radix) <= count_between(s, from, to, radix),
    decreases to - mid,
{
    if mid < to {
        lemma_count_of_longer_stretch(s, from, mid, to - 1, radix);
    }
}

/// There are no fewer digits in a stretch than in its last bytes.
pub proof fn lemma_count_of_later_stretch(s: Seq<u8>, from: int, mid: int, to: int, radix: u32)
    requires
        0 <= from <= mid <= to <= s.len(),
    ensures
        count_between(s, mid, to, radix) <= count_between(s, from, to, radix),
    decreases to - mid,
{
    if mid < to {
        lemma_count_of_later_stretch(s, from, mid, to - 1, radix);
    }
}

/// A number is parsed alike in the text that ends where it ends, and its
/// first digit stands not before the first byte that is not passed over.
proof fn lemma_number_prefix(
    s: Seq<u8>,
    start: int,
    negative: bool,
    layout: FloatLayout,
    g: FloatGrammar,
)
    requires
        0 <= start < s.len() <= usize::MAX,
        is_radix(g.radix),
        has_no_separators(g.format) || is_separator_apart(g.format, g.exponent_char),
        spec_parse_number(s, start, negative, layout, g) is Ok,
    ensures
        ({
            let parsed = spec_parse_number(s, start, negative, layout, g);
            let consumed = parsed->Ok_0.1 as int;
            &&& start < consumed <= s.len()
            &&& spec_parse_number(s.take(consumed), start, negative, layout, g) == parsed
            &&& first_kept(
                s,
                start,
                g.format.has(SPECIAL_DIGIT_SEPARATOR),
                g.format.spec_digit_separator(),
            ) < consumed
        }),
{
    let skip = g.format.has(SPECIAL_DIGIT_SEPARATOR);
    let separator = g.format.spec_digit_separator();
    lemma_extract_of_prefix(s, start, g.radix, g.exponent_char, g.format);
    let parts = spec_extract(s, start, g.radix, g.exponent_char, g.format)->Ok_0;
    let k = parts.end as int;
    let t = s.take(k);
    let at = lemma_digit_in_stretch(s, start, k, g.radix);
    if skip {
        lemma_first_kept_bound(s, start, at, skip, separator);
    }
    assert(spec_to_float(t, parts, negative, layout, g.radix, g.rounding) == spec_to_float(
        s,
        parts,
        negative,
        layout,
        g.radix,
        g.rounding,
    ));
}

/// What follows the sign is parsed alike in the text that ends where it
/// ends.
#[verifier::rlimit(60)]
proof fn lemma_unsigned_prefix(
    s: Seq<u8>,
    start: int,
    negative: bool,
    layout: FloatLayout,
    g: FloatGrammar,
)
    requires
        0 <= start < s.len() <= usize::MAX,
        is_radix(g.radix),
        has_no_separators(g.format) || is_separator_apart(g.format, g.exponent_char),
        g.nan_string.len() > 0,
        g.inf_string.len() > 0,
        g.infinity_string.len() > 0,
        spec_parse_unsigned(s, start, negative, layout, g) is Ok,
    ensures
        ({
            let parsed = spec_parse_unsigned(s, start, negative, layout, g);
            let consumed = parsed->Ok_0.1 as int;
            &&& start < consumed <= s.len()
            &&& spec_parse_unsigned(s.take(consumed), start, negative, layout, g) == parsed
        }),
{
    let parsed = spec_parse_unsigned(s, start, negative, layout, g);
    let k = parsed->Ok_0.1 as int;
    let skip = g.format.has(SPECIAL_DIGIT_SEPARATOR);
    let separator = g.format.spec_digit_separator();
    let case_sensitive = g.format.has(crate::flags::CASE_SENSITIVE_SPECIAL);
    let long = match_word(s, start, g.infinity_string, 0, case_sensitive, skip, separator);
    let short = match_word(s, start, g.inf_string, 0, case_sensitive, skip, separator);
    let nan = match_word(s, start, g.nan_string, 0, case_sensitive, skip, separator);
    let first = first_kept(s, start, skip, separator);
    lemma_first_kept_from(s, start, skip, separator);
    let letter = if first < s.len() {
        crate::flags::spec_to_ascii_lowercase(s[first])
    } else {
        0
    };
    let special = !g.format.has(crate::flags::NO_SPECIAL);
    let number = !special || (letter == LOWER_I && long is None && short is None) || (letter
        == LOWER_N && nan is None) || (letter != LOWER_I && letter != LOWER_N);
    // Where the text ends, and that the first byte that is not passed over
    // stands before it.
    if number {
        assert(parsed == spec_parse_number(s, start, negative, layout, g));
        lemma_number_prefix(s, start, negative, layout, g);
    } else if letter == LOWER_I {
        if long is Some {
            lemma_match_length(s, start, g.infinity_string, 0, case_sensitive, skip, separator);
        } else {
            lemma_match_length(s, start, g.inf_string, 0, case_sensitive, skip, separator);
        }
    } else {
        lemma_match_length(s, start, g.nan_string, 0, case_sensitive, skip, separator);
    }
    assert(start < k <= s.len());
    assert(first < k);
    let t = s.take(k);
    lemma_first_kept_of_prefix(s, start, k, skip, separator);
    assert(t[first] == s[first]);
    assert(first_kept(t, start, skip, separator) == first);
    // The words that the text spells, or does not spell, are spelled alike,
    // or not, by the text that ends there.
    if special && letter == LOWER_I {
        lemma_match_of_prefix(s, start, k, g.infinity_string, 0, case_sensitive, skip, separator);
        if long is None {
            lemma_match_of_prefix(s, start, k, g.inf_string, 0, case_sensitive, skip, separator);
        }
    } else if special && letter == LOWER_N {
        lemma_match_of_prefix(s, start, k, g.nan_string, 0, case_sensitive, skip, separator);
    }
}

/// Partial parses and complete parses agree. Where the float that begins
/// a text is parsed, the text that ends where the float ends is parsed to
/// the same float, and all of it. The format lets no digit separator stand,
/// or its digit separator is no letter, digit or sign, and neither the
/// decimal point nor the exponent character.
pub proof fn lemma_float_prefix(s: Seq<u8>, layout: FloatLayout, g: FloatGrammar)
    requires
        s.len() <= usize::MAX,
        is_radix(g.radix),
        has_no_separators(g.format) || is_separator_apart(g.format, g.exponent_char),
        g.nan_string.len() > 0,
        g.inf_string.len() > 0,
        g.infinity_string.len() > 0,
        spec_parse_float(s, layout, g) is Ok,
    ensures
        ({
            let parsed = spec_parse_float(s, layout, g);
            let consumed = parsed->Ok_0.1 as int;
            &&& consumed <= s.len()
            &&& spec_parse_float(s.take(consumed), layout, g) == parsed
        }),
{
    let negative = s[0] == MINUS;
    let start: int = if s[0] == PLUS || negative {
        1
    } else {
        0
    };
    lemma_unsigned_prefix(s, start, negative, layout, g);
    let k = spec_parse_unsigned(s, start, negative, layout, g)->Ok_0.1 as int;
    assert(s.take(k)[0] == s[0]);
}

} // verus!

//! The bits of a number format: syntax flags, digit-separator flags and the
//! four punctuation bytes packed beside them.

use vstd::prelude::*;

use crate::ascii::{LOWER_A, LOWER_Z, MINUS, NINE, PLUS, UPPER_A, UPPER_Z, ZERO};

verus! {

/// Digits are required before the decimal point.
pub const REQUIRED_INTEGER_DIGITS: u64 = 0x1;

/// Digits are required after the decimal point, if there is one.
pub const REQUIRED_FRACTION_DIGITS: u64 = 0x2;

/// Digits are required after the exponent character, if there is one.
pub const REQUIRED_EXPONENT_DIGITS: u64 = 0x4;

/// Digits are required before or after each control character.
pub const REQUIRED_DIGITS: u64 = REQUIRED_INTEGER_DIGITS | REQUIRED_FRACTION_DIGITS
    | REQUIRED_EXPONENT_DIGITS;

/// A positive sign before the mantissa is not allowed.
pub const NO_POSITIVE_MANTISSA_SIGN: u64 = 0x8;

/// A sign before the mantissa is required.
pub const REQUIRED_MANTISSA_SIGN: u64 = 0x10;

/// Exponent notation is not allowed.
pub const NO_EXPONENT_NOTATION: u64 = 0x20;

/// A positive sign before the exponent is not allowed.
pub const NO_POSITIVE_EXPONENT_SIGN: u64 = 0x40;

/// A sign before the exponent is required.
pub const REQUIRED_EXPONENT_SIGN: u64 = 0x80;

/// An exponent that follows no decimal point is not allowed.
pub const NO_EXPONENT_WITHOUT_FRACTION: u64 = 0x100;

/// Special (non-finite) values are not allowed.
pub const NO_SPECIAL: u64 = 0x200;

/// Special (non-finite) values are matched with their case.
pub const CASE_SENSITIVE_SPECIAL: u64 = 0x400;

/// Leading zeros before an integer are not allowed.
pub const NO_INTEGER_LEADING_ZEROS: u64 = 0x800;

/// Leading zeros before a float are not allowed.
pub const NO_FLOAT_LEADING_ZEROS: u64 = 0x1000;

/// Exponent notation is required.
pub const REQUIRED_EXPONENT_NOTATION: u64 = 0x2000;

/// Digit separators are allowed between integer digits.
pub const INTEGER_INTERNAL_DIGIT_SEPARATOR: u64 = 0x1_0000_0000;

/// A digit separator is allowed before any integer digits.
pub const INTEGER_LEADING_DIGIT_SEPARATOR: u64 = 0x2_0000_0000;

/// A digit separator is allowed after any integer digits.
pub const INTEGER_TRAILING_DIGIT_SEPARATOR: u64 = 0x4_0000_0000;

/// Several integer digit separators may stand side by side.
pub const INTEGER_CONSECUTIVE_DIGIT_SEPARATOR: u64 = 0x8_0000_0000;

/// Digit separators are allowed between fraction digits.
pub const FRACTION_INTERNAL_DIGIT_SEPARATOR: u64 = 0x10_0000_0000;

/// A digit separator is allowed before any fraction digits.
pub const FRACTION_LEADING_DIGIT_SEPARATOR: u64 = 0x20_0000_0000;

/// A digit separator is allowed after any fraction digits.
pub const FRACTION_TRAILING_DIGIT_SEPARATOR: u64 = 0x40_0000_0000;

/// Several fraction digit separators may stand side by side.
pub const FRACTION_CONSECUTIVE_DIGIT_SEPARATOR: u64 = 0x80_0000_0000;

/// Digit separators are allowed between exponent digits.
pub const EXPONENT_INTERNAL_DIGIT_SEPARATOR: u64 = 0x100_0000_0000;

/// A digit separator is allowed before any exponent digits.
pub const EXPONENT_LEADING_DIGIT_SEPARATOR: u64 = 0x200_0000_0000;

/// A digit separator is allowed after any exponent digits.
pub const EXPONENT_TRAILING_DIGIT_SEPARATOR: u64 = 0x400_0000_0000;

/// Several exponent digit separators may stand side by side.
pub const EXPONENT_CONSECUTIVE_DIGIT_SEPARATOR: u64 = 0x800_0000_0000;

/// Digit separators are allowed between digits.
pub const INTERNAL_DIGIT_SEPARATOR: u64 = INTEGER_INTERNAL_DIGIT_SEPARATOR
    | FRACTION_INTERNAL_DIGIT_SEPARATOR | EXPONENT_INTERNAL_DIGIT_SEPARATOR;

/// A digit separator is allowed before any digits.
pub const LEADING_DIGIT_SEPARATOR: u64 = INTEGER_LEADING_DIGIT_SEPARATOR
    | FRACTION_LEADING_DIGIT_SEPARATOR | EXPONENT_LEADING_DIGIT_SEPARATOR;

/// A digit separator is allowed after any digits.
pub const TRAILING_DIGIT_SEPARATOR: u64 = INTEGER_TRAILING_DIGIT_SEPARATOR
    | FRACTION_TRAILING_DIGIT_SEPARATOR | EXPONENT_TRAILING_DIGIT_SEPARATOR;

/// Several digit separators may stand side by side.
pub const CONSECUTIVE_DIGIT_SEPARATOR: u64 = INTEGER_CONSECUTIVE_DIGIT_SEPARATOR
    | FRACTION_CONSECUTIVE_DIGIT_SEPARATOR | EXPONENT_CONSECUTIVE_DIGIT_SEPARATOR;

/// Digit separators are allowed inside special (non-finite) values.
pub const SPECIAL_DIGIT_SEPARATOR: u64 = 0x1000_0000_0000;

/// Every syntax flag that is no digit-separator flag.
pub const FLAG_MASK: u64 = 0x3FFF;

/// Every digit-separator flag.
pub const DIGIT_SEPARATOR_FLAG_MASK: u64 = INTERNAL_DIGIT_SEPARATOR | LEADING_DIGIT_SEPARATOR
    | TRAILING_DIGIT_SEPARATOR | CONSECUTIVE_DIGIT_SEPARATOR | SPECIAL_DIGIT_SEPARATOR;

/// Offset of the primary exponent character in the format word.
pub const EXPONENT_DECIMAL_SHIFT: u32 = 18;

/// Offset of the backup exponent character in the format word.
pub const EXPONENT_BACKUP_SHIFT: u32 = 25;

/// Offset of the decimal point in the format word.
pub const DECIMAL_POINT_SHIFT: u32 = 50;

/// Offset of the digit separator in the format word.
pub const DIGIT_SEPARATOR_SHIFT: u32 = 57;

/// The seven bits that a punctuation byte keeps.
pub const PUNCTUATION_MASK: u8 = 0x7F;

/// Every bit of the format word that holds part of a punctuation byte.
pub const PUNCTUATION_BITS: u64 = 0xFFFC_0000_FFFC_0000;

/// Whether `ch` is a letter or digit of the ASCII alphabet, or a sign: the
/// bytes that can be taken for part of a number in some radix.
pub open spec fn is_number_byte(ch: u8) -> bool {
    ||| ZERO <= ch <= NINE
    ||| UPPER_A <= ch <= UPPER_Z
    ||| LOWER_A <= ch <= LOWER_Z
    ||| ch == PLUS
    ||| ch == MINUS
}

/// Whether `ch` can serve as a digit separator: an ASCII byte that is no
/// letter, digit or sign.
pub open spec fn spec_is_valid_digit_separator(ch: u8) -> bool {
    ch < 128 && !is_number_byte(ch)
}

/// Whether `ch` can serve as the primary exponent character: an ASCII byte
/// that is no decimal digit or sign.
pub open spec fn spec_is_valid_exponent_decimal(ch: u8) -> bool {
    ch < 128 && !(ZERO <= ch <= NINE) && ch != PLUS && ch != MINUS
}

/// Whether the four punctuation bytes can be told apart where the grammar
/// needs it. The two exponent characters may be the same.
pub open spec fn spec_is_valid_punctuation(
    digit_separator: u8,
    decimal_point: u8,
    exponent_decimal: u8,
    exponent_backup: u8,
) -> bool {
    &&& digit_separator != decimal_point
    &&& digit_separator != exponent_decimal
    &&& digit_separator != exponent_backup
    &&& decimal_point != exponent_decimal
    &&& decimal_point != exponent_backup
}

/// Determine if the digit separator is valid.
pub fn is_valid_digit_separator(ch: u8) -> (r: bool)
    ensures
        r == spec_is_valid_digit_separator(ch),
{
    if ch >= UPPER_A && ch <= UPPER_Z {
        false
    } else if ch >= LOWER_A && ch <= LOWER_Z {
        false
    } else if ch >= ZERO && ch <= NINE {
        false
    } else if ch == PLUS || ch == MINUS {
        false
    } else {
        ch < 128
    }
}

/// Determine if the decimal point is valid.
pub fn is_valid_decimal_point(ch: u8) -> (r: bool)
    ensures
        r == spec_is_valid_digit_separator(ch),
{
    is_valid_digit_separator(ch)
}

/// Determine if the primary exponent character is valid.
pub fn is_valid_exponent_decimal(ch: u8) -> (r: bool)
    ensures
        r == spec_is_valid_exponent_decimal(ch),
{
    if ch >= ZERO && ch <= NINE {
        false
    } else if ch == PLUS || ch == MINUS {
        false
    } else {
        ch < 128
    }
}

/// Determine if the backup exponent character is valid.
pub fn is_valid_exponent_backup(ch: u8) -> (r: bool)
    ensures
        r == spec_is_valid_digit_separator(ch),
{
    is_valid_digit_separator(ch)
}

/// Determine if all of the punctuation characters can stand together.
pub fn is_valid_punctuation(
    digit_separator: u8,
    decimal_point: u8,
    exponent_decimal: u8,
    exponent_backup: u8,
) -> (r: bool)
    ensures
        r == spec_is_valid_punctuation(
            digit_separator,
            decimal_point,
            exponent_decimal,
            exponent_backup,
        ),
{
    if digit_separator == decimal_point {
        false
    } else if digit_separator == exponent_decimal {
        false
    } else if digit_separator == exponent_backup {
        false
    } else if decimal_point == exponent_decimal {
        false
    } else if decimal_point == exponent_backup {
        false
    } else {
        true
    }
}

/// The low seven bits of `ch`, moved up by `shift` bits.
pub open spec fn spec_to_flags(ch: u8, shift: u32) -> u64 {
    ((ch & PUNCTUATION_MASK) as u64) << (shift as u64)
}

/// The seven bits of `flag` that start at bit `shift`.
pub open spec fn spec_from_flags(flag: u64, shift: u32) -> u8 {
    ((flag >> (shift as u64)) as u8) & PUNCTUATION_MASK
}

/// Convert the primary exponent character to flags.
pub fn exponent_decimal_to_flags(ch: u8) -> (r: u64)
    ensures
        r == spec_to_flags(ch, EXPONENT_DECIMAL_SHIFT),
{
    ((ch & PUNCTUATION_MASK) as u64) << 18u64
}

/// Extract the primary exponent character from flags.
pub fn exponent_decimal_from_flags(flag: u64) -> (r: u8)
    ensures
        r == spec_from_flags(flag, EXPONENT_DECIMAL_SHIFT),
        r < 128,
{
    proof {
        lemma_from_flags_is_ascii(flag, EXPONENT_DECIMAL_SHIFT);
    }
    ((flag >> 18u64) as u8) & PUNCTUATION_MASK
}

/// Convert the backup exponent character to flags.
pub fn exponent_backup_to_flags(ch: u8) -> (r: u64)
    ensures
        r == spec_to_flags(ch, EXPONENT_BACKUP_SHIFT),
{
    ((ch & PUNCTUATION_MASK) as u64) << 25u64
}

/// Extract the backup exponent character from flags.
pub fn exponent_backup_from_flags(flag: u64) -> (r: u8)
    ensures
        r == spec_from_flags(flag, EXPONENT_BACKUP_SHIFT),
        r < 128,
{
    proof {
        lemma_from_flags_is_ascii(flag, EXPONENT_BACKUP_SHIFT);
    }
    ((flag >> 25u64) as u8) & PUNCTUATION_MASK
}

/// Convert the decimal point to flags.
pub fn decimal_point_to_flags(ch: u8) -> (r: u64)
    ensures
        r == spec_to_flags(ch, DECIMAL_POINT_SHIFT),
{
    ((ch & PUNCTUATION_MASK) as u64) << 50u64
}

/// Extract the decimal point from flags.
pub fn decimal_point_from_flags(flag: u64) -> (r: u8)
    ensures
        r == spec_from_flags(flag, DECIMAL_POINT_SHIFT),
        r < 128,
{
    proof {
        lemma_from_flags_is_ascii(flag, DECIMAL_POINT_SHIFT);
    }
    ((flag >> 50u64) as u8) & PUNCTUATION_MASK
}

/// Convert the digit separator to flags.
pub fn digit_separator_to_flags(ch: u8) -> (r: u64)
    ensures
        r == spec_to_flags(ch, DIGIT_SEPARATOR_SHIFT),
{
    ((ch & PUNCTUATION_MASK) as u64) << 57u64
}

/// Extract the digit separator from flags.
pub fn digit_separator_from_flags(flag: u64) -> (r: u8)
    ensures
        r == spec_from_flags(flag, DIGIT_SEPARATOR_SHIFT),
        r < 128,
{
    proof {
        lemma_from_flags_is_ascii(flag, DIGIT_SEPARATOR_SHIFT);
    }
    ((flag >> 57u64) as u8) & PUNCTUATION_MASK
}

/// The bits of the flags on where a digit separator may stand.
pub const SEPARATOR_BITS: u64 = 0x1FFF_0000_0000;

/// What is extracted from flags is an ASCII byte.
pub proof fn lemma_from_flags_is_ascii(flag: u64, shift: u32)
    ensures
        spec_from_flags(flag, shift) < 128,
{
    let b = (flag >> (shift as u64)) as u8;
    assert(b & 0x7F < 128) by (bit_vector);
}

/// The lowercase form of an ASCII letter; every other byte is itself.
pub open spec fn spec_to_ascii_lowercase(c: u8) -> u8 {
    if UPPER_A <= c <= UPPER_Z {
        (c + 32) as u8
    } else {
        c
    }
}

/// Convert a character to ASCII lowercase.
pub fn to_ascii_lowercase(c: u8) -> (r: u8)
    ensures
        r == spec_to_ascii_lowercase(c),
{
    if c >= UPPER_A && c <= UPPER_Z {
        c - UPPER_A + LOWER_A
    } else {
        c
    }
}

/// A word made of the four punctuation bytes and of flags gives back each
/// byte's low seven bits, whatever the flags are: the four fields overlap
/// neither each other nor a flag.
pub proof fn lemma_punctuation_fields_are_independent(
    flags: u64,
    digit_separator: u8,
    decimal_point: u8,
    exponent_decimal: u8,
    exponent_backup: u8,
)
    requires
        flags & PUNCTUATION_BITS == 0,
    ensures
        ({
            let word = flags | spec_to_flags(digit_separator, DIGIT_SEPARATOR_SHIFT)
                | spec_to_flags(decimal_point, DECIMAL_POINT_SHIFT) | spec_to_flags(
                exponent_decimal,
                EXPONENT_DECIMAL_SHIFT,
            ) | spec_to_flags(exponent_backup, EXPONENT_BACKUP_SHIFT);
            &&& spec_from_flags(word, DIGIT_SEPARATOR_SHIFT) == digit_separator & PUNCTUATION_MASK
            &&& spec_from_flags(word, DECIMAL_POINT_SHIFT) == decimal_point & PUNCTUATION_MASK
            &&& spec_from_flags(word, EXPONENT_DECIMAL_SHIFT) == exponent_decimal
                & PUNCTUATION_MASK
            &&& spec_from_flags(word, EXPONENT_BACKUP_SHIFT) == exponent_backup & PUNCTUATION_MASK
            &&& word & !PUNCTUATION_BITS == flags
        }),
{
    let s = (digit_separator & 0x7F) as u64;
    let p = (decimal_point & 0x7F) as u64;
    let e = (exponent_decimal & 0x7F) as u64;
    let b = (exponent_backup & 0x7F) as u64;
    assert(s < 128 && p < 128 && e < 128 && b < 128) by (bit_vector)
        requires
            s == (digit_separator & 0x7F) as u64,
            p == (decimal_point & 0x7F) as u64,
            e == (exponent_decimal & 0x7F) as u64,
            b == (exponent_backup & 0x7F) as u64,
    ;
    let word = flags | (s << 57u64) | (p << 50u64) | (e << 18u64) | (b << 25u64);
    assert(((word >> 57u64) as u8) & 0x7F == s as u8 && ((word >> 50u64) as u8) & 0x7F == p as u8
        && ((word >> 18u64) as u8) & 0x7F == e as u8 && ((word >> 25u64) as u8) & 0x7F == b as u8
        && word & !0xFFFC_0000_FFFC_0000u64 == flags) by (bit_vector)
        requires
            word == flags | (s << 57u64) | (p << 50u64) | (e << 18u64) | (b << 25u64),
            flags & 0xFFFC_0000_FFFC_0000u64 == 0,
            s < 128,
            p < 128,
            e < 128,
            b < 128,
    ;
    assert(s as u8 == digit_separator & 0x7F && p as u8 == decimal_point & 0x7F && e as u8
        == exponent_decimal & 0x7F && b as u8 == exponent_backup & 0x7F) by (bit_vector)
        requires
            s == (digit_separator & 0x7F) as u64,
            p == (decimal_point & 0x7F) as u64,
            e == (exponent_decimal & 0x7F) as u64,
            b == (exponent_backup & 0x7F) as u64,
    ;
}

/// A word below the lowest punctuation field holds no punctuation byte.
pub proof fn lemma_flags_only_word(bits: u64)
    requires
        bits < 0x4_0000,
    ensures
        spec_from_flags(bits, DIGIT_SEPARATOR_SHIFT) == 0,
        spec_from_flags(bits, DECIMAL_POINT_SHIFT) == 0,
        spec_from_flags(bits, EXPONENT_DECIMAL_SHIFT) == 0,
        spec_from_flags(bits, EXPONENT_BACKUP_SHIFT) == 0,
{
    assert(bits < 0x4_0000 ==> ((bits >> 57u64) as u8) & 0x7F == 0 && ((bits >> 50u64) as u8)
        & 0x7F == 0 && ((bits >> 18u64) as u8) & 0x7F == 0 && ((bits >> 25u64) as u8) & 0x7F
        == 0) by (bit_vector);
}

/// An ASCII byte keeps all its bits when it is masked for packing.
pub proof fn lemma_ascii_is_kept(ch: u8)
    requires
        ch < 128,
    ensures
        ch & PUNCTUATION_MASK == ch,
{
    assert(ch < 128 ==> ch & 0x7F == ch) by (bit_vector);
}

/// A word made of the flags on the components of a number, each set or
/// not, and of bits that are none of these flags holds each flag as it was
/// given.
pub proof fn lemma_component_flags(
    t0: u64,
    t1: u64,
    t2: u64,
    t3: u64,
    t4: u64,
    t5: u64,
    t6: u64,
    t7: u64,
    t8: u64,
    t9: u64,
    t10: u64,
    t11: u64,
    t12: u64,
    t13: u64,
    rest: u64,
)
    requires
        t0 & !REQUIRED_INTEGER_DIGITS == 0,
        t1 & !REQUIRED_FRACTION_DIGITS == 0,
        t2 & !REQUIRED_EXPONENT_DIGITS == 0,
        t3 & !NO_POSITIVE_MANTISSA_SIGN == 0,
        t4 & !REQUIRED_MANTISSA_SIGN == 0,
        t5 & !NO_EXPONENT_NOTATION == 0,
        t6 & !NO_POSITIVE_EXPONENT_SIGN == 0,
        t7 & !REQUIRED_EXPONENT_SIGN == 0,
        t8 & !NO_EXPONENT_WITHOUT_FRACTION == 0,
        t9 & !NO_SPECIAL == 0,
        t10 & !CASE_SENSITIVE_SPECIAL == 0,
        t11 & !NO_INTEGER_LEADING_ZEROS == 0,
        t12 & !NO_FLOAT_LEADING_ZEROS == 0,
        t13 & !REQUIRED_EXPONENT_NOTATION == 0,
        rest & FLAG_MASK == 0,
    ensures
        ((t0 | t1 | t2 | t3 | t4 | t5 | t6 | t7 | t8 | t9 | t10 | t11 | t12 | t13) | rest) & REQUIRED_INTEGER_DIGITS == t0,
        ((t0 | t1 | t2 | t3 | t4 | t5 | t6 | t7 | t8 | t9 | t10 | t11 | t12 | t13) | rest) & REQUIRED_FRACTION_DIGITS == t1,
        ((t0 | t1 | t2 | t3 | t4 | t5 | t6 | t7 | t8 | t9 | t10 | t11 | t12 | t13) | rest) & REQUIRED_EXPONENT_DIGITS == t2,
        ((t0 | t1 | t2 | t3 | t4 | t5 | t6 | t7 | t8 | t9 | t10 | t11 | t12 | t13) | rest) & NO_POSITIVE_MANTISSA_SIGN == t3,
        ((t0 | t1 | t2 | t3 | t4 | t5 | t6 | t7 | t8 | t9 | t10 | t11 | t12 | t13) | rest) & REQUIRED_MANTISSA_SIGN == t4,
        ((t0 | t1 | t2 | t3 | t4 | t5 | t6 | t7 | t8 | t9 | t10 | t11 | t12 | t13) | rest) & NO_EXPONENT_NOTATION == t5,
        ((t0 | t1 | t2 | t3 | t4 | t5 | t6 | t7 | t8 | t9 | t10 | t11 | t12 | t13) | rest) & NO_POSITIVE_EXPONENT_SIGN == t6,
        ((t0 | t1 | t2 | t3 | t4 | t5 | t6 | t7 | t8 | t9 | t10 | t11 | t12 | t13) | rest) & REQUIRED_EXPONENT_SIGN == t7,
        ((t0 | t1 | t2 | t3 | t4 | t5 | t6 | t7 | t8 | t9 | t10 | t11 | t12 | t13) | rest) & NO_EXPONENT_WITHOUT_FRACTION == t8,
        ((t0 | t1 | t2 | t3 | t4 | t5 | t6 | t7 | t8 | t9 | t10 | t11 | t12 | t13) | rest) & NO_SPECIAL == t9,
        ((t0 | t1 | t2 | t3 | t4 | t5 | t6 | t7 | t8 | t9 | t10 | t11 | t12 | t13) | rest) & CASE_SENSITIVE_SPECIAL == t10,
        ((t0 | t1 | t2 | t3 | t4 | t5 | t6 | t7 | t8 | t9 | t10 | t11 | t12 | t13) | rest) & NO_INTEGER_LEADING_ZEROS == t11,
        ((t0 | t1 | t2 | t3 | t4 | t5 | t6 | t7 | t8 | t9 | t10 | t11 | t12 | t13) | rest) & NO_FLOAT_LEADING_ZEROS == t12,
        ((t0 | t1 | t2 | t3 | t4 | t5 | t6 | t7 | t8 | t9 | t10 | t11 | t12 | t13) | rest) & REQUIRED_EXPONENT_NOTATION == t13,
{
    let word = t0 | t1 | t2 | t3 | t4 | t5 | t6 | t7 | t8 | t9 | t10 | t11 | t12 | t13;
    assert((word | rest) & 0x1u64 == t0 && (word | rest) & 0x2u64 == t1 && (word | rest) & 0x4u64 == t2 && (word | rest) & 0x8u64 == t3 && (word | rest) & 0x10u64 == t4 && (word | rest) & 0x20u64 == t5 && (word | rest) & 0x40u64 == t6 && (word | rest) & 0x80u64 == t7 && (word | rest) & 0x100u64 == t8 && (word | rest) & 0x200u64 == t9 && (word | rest) & 0x400u64 == t10 && (word | rest) & 0x800u64 == t11 && (word | rest) & 0x1000u64 == t12 && (word | rest) & 0x2000u64 == t13) by (bit_vector)
        requires
            word == t0 | t1 | t2 | t3 | t4 | t5 | t6 | t7 | t8 | t9 | t10 | t11 | t12 | t13,
            rest & 0x3FFFu64 == 0,
            t0 & !0x1u64 == 0,
            t1 & !0x2u64 == 0,
            t2 & !0x4u64 == 0,
            t3 & !0x8u64 == 0,
            t4 & !0x10u64 == 0,
            t5 & !0x20u64 == 0,
            t6 & !0x40u64 == 0,
            t7 & !0x80u64 == 0,
            t8 & !0x100u64 == 0,
            t9 & !0x200u64 == 0,
            t10 & !0x400u64 == 0,
            t11 & !0x800u64 == 0,
            t12 & !0x1000u64 == 0,
            t13 & !0x2000u64 == 0,
    ;
}

/// A word made of the flags on the components of a number holds nothing
/// else.
pub proof fn lemma_components_within(
    t0: u64,
    t1: u64,
    t2: u64,
    t3: u64,
    t4: u64,
    t5: u64,
    t6: u64,
    t7: u64,
    t8: u64,
    t9: u64,
    t10: u64,
    t11: u64,
    t12: u64,
    t13: u64,
)
    requires
        t0 & !REQUIRED_INTEGER_DIGITS == 0,
        t1 & !REQUIRED_FRACTION_DIGITS == 0,
        t2 & !REQUIRED_EXPONENT_DIGITS == 0,
        t3 & !NO_POSITIVE_MANTISSA_SIGN == 0,
        t4 & !REQUIRED_MANTISSA_SIGN == 0,
        t5 & !NO_EXPONENT_NOTATION == 0,
        t6 & !NO_POSITIVE_EXPONENT_SIGN == 0,
        t7 & !REQUIRED_EXPONENT_SIGN == 0,
        t8 & !NO_EXPONENT_WITHOUT_FRACTION == 0,
        t9 & !NO_SPECIAL == 0,
        t10 & !CASE_SENSITIVE_SPECIAL == 0,
        t11 & !NO_INTEGER_LEADING_ZEROS == 0,
        t12 & !NO_FLOAT_LEADING_ZEROS == 0,
        t13 & !REQUIRED_EXPONENT_NOTATION == 0,
    ensures
        (t0 | t1 | t2 | t3 | t4 | t5 | t6 | t7 | t8 | t9 | t10 | t11 | t12 | t13) & !FLAG_MASK == 0,
{
    let word = t0 | t1 | t2 | t3 | t4 | t5 | t6 | t7 | t8 | t9 | t10 | t11 | t12 | t13;
    assert(word & !0x3FFFu64 == 0) by (bit_vector)
        requires
            word == t0 | t1 | t2 | t3 | t4 | t5 | t6 | t7 | t8 | t9 | t10 | t11 | t12 | t13,
            t0 & !0x1u64 == 0,
            t1 & !0x2u64 == 0,
            t2 & !0x4u64 == 0,
            t3 & !0x8u64 == 0,
            t4 & !0x10u64 == 0,
            t5 & !0x20u64 == 0,
            t6 & !0x40u64 == 0,
            t7 & !0x80u64 == 0,
            t8 & !0x100u64 == 0,
            t9 & !0x200u64 == 0,
            t10 & !0x400u64 == 0,
            t11 & !0x800u64 == 0,
            t12 & !0x1000u64 == 0,
            t13 & !0x2000u64 == 0,
    ;
}

/// A word made of the flags on where a digit separator may stand, each set
/// or not, and of bits that are none of these flags holds each flag as it
/// was given.
pub proof fn lemma_separator_flags(
    t0: u64,
    t1: u64,
    t2: u64,
    t3: u64,
    t4: u64,
    t5: u64,
    t6: u64,
    t7: u64,
    t8: u64,
    t9: u64,
    t10: u64,
    t11: u64,
    t12: u64,
    rest: u64,
)
    requires
        t0 & !INTEGER_INTERNAL_DIGIT_SEPARATOR == 0,
        t1 & !FRACTION_INTERNAL_DIGIT_SEPARATOR == 0,
        t2 & !EXPONENT_INTERNAL_DIGIT_SEPARATOR == 0,
        t3 & !INTEGER_LEADING_DIGIT_SEPARATOR == 0,
        t4 & !FRACTION_LEADING_DIGIT_SEPARATOR == 0,
        t5 & !EXPONENT_LEADING_DIGIT_SEPARATOR == 0,
        t6 & !INTEGER_TRAILING_DIGIT_SEPARATOR == 0,
        t7 & !FRACTION_TRAILING_DIGIT_SEPARATOR == 0,
        t8 & !EXPONENT_TRAILING_DIGIT_SEPARATOR == 0,
        t9 & !INTEGER_CONSECUTIVE_DIGIT_SEPARATOR == 0,
        t10 & !FRACTION_CONSECUTIVE_DIGIT_SEPARATOR == 0,
        t11 & !EXPONENT_CONSECUTIVE_DIGIT_SEPARATOR == 0,
        t12 & !SPECIAL_DIGIT_SEPARATOR == 0,
        rest & SEPARATOR_BITS == 0,
    ensures
        ((t0 | t1 | t2 | t3 | t4 | t5 | t6 | t7 | t8 | t9 | t10 | t11 | t12) | rest) & INTEGER_INTERNAL_DIGIT_SEPARATOR == t0,
        ((t0 | t1 | t2 | t3 | t4 | t5 | t6 | t7 | t8 | t9 | t10 | t11 | t12) | rest) & FRACTION_INTERNAL_DIGIT_SEPARATOR == t1,
        ((t0 | t1 | t2 | t3 | t4 | t5 | t6 | t7 | t8 | t9 | t10 | t11 | t12) | rest) & EXPONENT_INTERNAL_DIGIT_SEPARATOR == t2,
        ((t0 | t1 | t2 | t3 | t4 | t5 | t6 | t7 | t8 | t9 | t10 | t11 | t12) | rest) & INTEGER_LEADING_DIGIT_SEPARATOR == t3,
        ((t0 | t1 | t2 | t3 | t4 | t5 | t6 | t7 | t8 | t9 | t10 | t11 | t12) | rest) & FRACTION_LEADING_DIGIT_SEPARATOR == t4,
        ((t0 | t1 | t2 | t3 | t4 | t5 | t6 | t7 | t8 | t9 | t10 | t11 | t12) | rest) & EXPONENT_LEADING_DIGIT_SEPARATOR == t5,
        ((t0 | t1 | t2 | t3 | t4 | t5 | t6 | t7 | t8 | t9 | t10 | t11 | t12) | rest) & INTEGER_TRAILING_DIGIT_SEPARATOR == t6,
        ((t0 | t1 | t2 | t3 | t4 | t5 | t6 | t7 | t8 | t9 | t10 | t11 | t12) | rest) & FRACTION_TRAILING_DIGIT_SEPARATOR == t7,
        ((t0 | t1 | t2 | t3 | t4 | t5 | t6 | t7 | t8 | t9 | t10 | t11 | t12) | rest) & EXPONENT_TRAILING_DIGIT_SEPARATOR == t8,
        ((t0 | t1 | t2 | t3 | t4 | t5 | t6 | t7 | t8 | t9 | t10 | t11 | t12) | rest) & INTEGER_CONSECUTIVE_DIGIT_SEPARATOR == t9,
        ((t0 | t1 | t2 | t3 | t4 | t5 | t6 | t7 | t8 | t9 | t10 | t11 | t12) | rest) & FRACTION_CONSECUTIVE_DIGIT_SEPARATOR == t10,
        ((t0 | t1 | t2 | t3 | t4 | t5 | t6 | t7 | t8 | t9 | t10 | t11 | t12) | rest) & EXPONENT_CONSECUTIVE_DIGIT_SEPARATOR == t11,
        ((t0 | t1 | t2 | t3 | t4 | t5 | t6 | t7 | t8 | t9 | t10 | t11 | t12) | rest) & SPECIAL_DIGIT_SEPARATOR == t12,
{
    let word = t0 | t1 | t2 | t3 | t4 | t5 | t6 | t7 | t8 | t9 | t10 | t11 | t12;
    assert((word | rest) & 0x1_0000_0000u64 == t0 && (word | rest) & 0x10_0000_0000u64 == t1 && (word | rest) & 0x100_0000_0000u64 == t2 && (word | rest) & 0x2_0000_0000u64 == t3 && (word | rest) & 0x20_0000_0000u64 == t4 && (word | rest) & 0x200_0000_0000u64 == t5 && (word | rest) & 0x4_0000_0000u64 == t6 && (word | rest) & 0x40_0000_0000u64 == t7 && (word | rest) & 0x400_0000_0000u64 == t8 && (word | rest) & 0x8_0000_0000u64 == t9 && (word | rest) & 0x80_0000_0000u64 == t10 && (word | rest) & 0x800_0000_0000u64 == t11 && (word | rest) & 0x1000_0000_0000u64 == t12) by (bit_vector)
        requires
            word == t0 | t1 | t2 | t3 | t4 | t5 | t6 | t7 | t8 | t9 | t10 | t11 | t12,
            rest & 0x1FFF_0000_0000u64 == 0,
            t0 & !0x1_0000_0000u64 == 0,
            t1 & !0x10_0000_0000u64 == 0,
            t2 & !0x100_0000_0000u64 == 0,
            t3 & !0x2_0000_0000u64 == 0,
            t4 & !0x20_0000_0000u64 == 0,
            t5 & !0x200_0000_0000u64 == 0,
            t6 & !0x4_0000_0000u64 == 0,
            t7 & !0x40_0000_0000u64 == 0,
            t8 & !0x400_0000_0000u64 == 0,
            t9 & !0x8_0000_0000u64 == 0,
            t10 & !0x80_0000_0000u64 == 0,
            t11 & !0x800_0000_0000u64 == 0,
            t12 & !0x1000_0000_0000u64 == 0,
    ;
}

/// A word made of the flags on where a digit separator may stand holds
/// nothing else.
pub proof fn lemma_separators_within(
    t0: u64,
    t1: u64,
    t2: u64,
    t3: u64,
    t4: u64,
    t5: u64,
    t6: u64,
    t7: u64,
    t8: u64,
    t9: u64,
    t10: u64,
    t11: u64,
    t12: u64,
)
    requires
        t0 & !INTEGER_INTERNAL_DIGIT_SEPARATOR == 0,
        t1 & !FRACTION_INTERNAL_DIGIT_SEPARATOR == 0,
        t2 & !EXPONENT_INTERNAL_DIGIT_SEPARATOR == 0,
        t3 & !INTEGER_LEADING_DIGIT_SEPARATOR == 0,
        t4 & !FRACTION_LEADING_DIGIT_SEPARATOR == 0,
        t5 & !EXPONENT_LEADING_DIGIT_SEPARATOR == 0,
        t6 & !INTEGER_TRAILING_DIGIT_SEPARATOR == 0,
        t7 & !FRACTION_TRAILING_DIGIT_SEPARATOR == 0,
        t8 & !EXPONENT_TRAILING_DIGIT_SEPARATOR == 0,
        t9 & !INTEGER_CONSECUTIVE_DIGIT_SEPARATOR == 0,
        t10 & !FRACTION_CONSECUTIVE_DIGIT_SEPARATOR == 0,
        t11 & !EXPONENT_CONSECUTIVE_DIGIT_SEPARATOR == 0,
        t12 & !SPECIAL_DIGIT_SEPARATOR == 0,
    ensures
        (t0 | t1 | t2 | t3 | t4 | t5 | t6 | t7 | t8 | t9 | t10 | t11 | t12) & !SEPARATOR_BITS == 0,
{
    let word = t0 | t1 | t2 | t3 | t4 | t5 | t6 | t7 | t8 | t9 | t10 | t11 | t12;
    assert(word & !0x1FFF_0000_0000u64 == 0) by (bit_vector)
        requires
            word == t0 | t1 | t2 | t3 | t4 | t5 | t6 | t7 | t8 | t9 | t10 | t11 | t12,
            t0 & !0x1_0000_0000u64 == 0,
            t1 & !0x10_0000_0000u64 == 0,
            t2 & !0x100_0000_0000u64 == 0,
            t3 & !0x2_0000_0000u64 == 0,
            t4 & !0x20_0000_0000u64 == 0,
            t5 & !0x200_0000_0000u64 == 0,
            t6 & !0x4_0000_0000u64 == 0,
            t7 & !0x40_0000_0000u64 == 0,
            t8 & !0x400_0000_0000u64 == 0,
            t9 & !0x8_0000_0000u64 == 0,
            t10 & !0x80_0000_0000u64 == 0,
            t11 & !0x800_0000_0000u64 == 0,
            t12 & !0x1000_0000_0000u64 == 0,
    ;
}

/// A punctuation byte that is packed at `shift` lies within the bits of the
/// punctuation.
pub proof fn lemma_packed_within_field(ch: u8)
    ensures
        spec_to_flags(ch, DIGIT_SEPARATOR_SHIFT) & !PUNCTUATION_BITS == 0,
        spec_to_flags(ch, DECIMAL_POINT_SHIFT) & !PUNCTUATION_BITS == 0,
        spec_to_flags(ch, EXPONENT_DECIMAL_SHIFT) & !PUNCTUATION_BITS == 0,
        spec_to_flags(ch, EXPONENT_BACKUP_SHIFT) & !PUNCTUATION_BITS == 0,
{
    assert((((ch & 0x7F) as u64) << 57u64) & !0xFFFC_0000_FFFC_0000u64 == 0 && (((ch & 0x7F)
        as u64) << 50u64) & !0xFFFC_0000_FFFC_0000u64 == 0 && (((ch & 0x7F) as u64) << 18u64)
        & !0xFFFC_0000_FFFC_0000u64 == 0 && (((ch & 0x7F) as u64) << 25u64)
        & !0xFFFC_0000_FFFC_0000u64 == 0) by (bit_vector);
}

/// In a word made of the two groups of flags and of the four punctuation
/// fields, each group stands beside bits that are none of its own, and the
/// flags hold no bit of the punctuation.
pub proof fn lemma_word_in_groups(low: u64, separators: u64, f0: u64, f1: u64, f2: u64, f3: u64)
    requires
        low & !FLAG_MASK == 0,
        separators & !SEPARATOR_BITS == 0,
        f0 & !PUNCTUATION_BITS == 0,
        f1 & !PUNCTUATION_BITS == 0,
        f2 & !PUNCTUATION_BITS == 0,
        f3 & !PUNCTUATION_BITS == 0,
    ensures
        (low | separators) | f0 | f1 | f2 | f3 == low | (separators | f0 | f1 | f2 | f3),
        (low | separators) | f0 | f1 | f2 | f3 == separators | (low | f0 | f1 | f2 | f3),
        (separators | f0 | f1 | f2 | f3) & FLAG_MASK == 0,
        (low | f0 | f1 | f2 | f3) & SEPARATOR_BITS == 0,
        (low | separators) & PUNCTUATION_BITS == 0,
{
    assert((low | separators) | f0 | f1 | f2 | f3 == low | (separators | f0 | f1 | f2 | f3) && (low
        | separators) | f0 | f1 | f2 | f3 == separators | (low | f0 | f1 | f2 | f3) && (separators
        | f0 | f1 | f2 | f3) & 0x3FFFu64 == 0 && (low | f0 | f1 | f2 | f3) & 0x1FFF_0000_0000u64
        == 0 && (low | separators) & 0xFFFC_0000_FFFC_0000u64 == 0) by (bit_vector)
        requires
            low & !0x3FFFu64 == 0,
            separators & !0x1FFF_0000_0000u64 == 0,
            f0 & !0xFFFC_0000_FFFC_0000u64 == 0,
            f1 & !0xFFFC_0000_FFFC_0000u64 == 0,
            f2 & !0xFFFC_0000_FFFC_0000u64 == 0,
            f3 & !0xFFFC_0000_FFFC_0000u64 == 0,
    ;
}

} // verus!

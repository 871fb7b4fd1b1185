//! The grammar of numbers as one 64-bit word, and its builder.

use vstd::prelude::*;

use crate::ascii::{CARET, LOWER_E, POINT};
use crate::builder::{Buildable, Builder};
use crate::flags::{
    decimal_point_from_flags, decimal_point_to_flags, digit_separator_from_flags,
    digit_separator_to_flags, exponent_backup_from_flags, exponent_backup_to_flags,
    exponent_decimal_from_flags, exponent_decimal_to_flags, is_valid_decimal_point,
    is_valid_digit_separator, is_valid_exponent_backup, is_valid_exponent_decimal,
    is_valid_punctuation, spec_from_flags, spec_is_valid_digit_separator,
    spec_is_valid_exponent_decimal, spec_is_valid_punctuation, spec_to_flags,
    DECIMAL_POINT_SHIFT, DIGIT_SEPARATOR_FLAG_MASK, DIGIT_SEPARATOR_SHIFT,
    EXPONENT_BACKUP_SHIFT, EXPONENT_DECIMAL_SHIFT,
    CASE_SENSITIVE_SPECIAL, EXPONENT_CONSECUTIVE_DIGIT_SEPARATOR,
    EXPONENT_INTERNAL_DIGIT_SEPARATOR, EXPONENT_LEADING_DIGIT_SEPARATOR,
    EXPONENT_TRAILING_DIGIT_SEPARATOR, FRACTION_CONSECUTIVE_DIGIT_SEPARATOR,
    FRACTION_INTERNAL_DIGIT_SEPARATOR, FRACTION_LEADING_DIGIT_SEPARATOR,
    FRACTION_TRAILING_DIGIT_SEPARATOR, INTEGER_CONSECUTIVE_DIGIT_SEPARATOR,
    INTEGER_INTERNAL_DIGIT_SEPARATOR, INTEGER_LEADING_DIGIT_SEPARATOR,
    INTEGER_TRAILING_DIGIT_SEPARATOR, NO_EXPONENT_NOTATION, NO_EXPONENT_WITHOUT_FRACTION,
    NO_FLOAT_LEADING_ZEROS, NO_INTEGER_LEADING_ZEROS, NO_POSITIVE_EXPONENT_SIGN,
    NO_POSITIVE_MANTISSA_SIGN, NO_SPECIAL, REQUIRED_EXPONENT_DIGITS,
    REQUIRED_EXPONENT_NOTATION, REQUIRED_EXPONENT_SIGN, REQUIRED_FRACTION_DIGITS,
    REQUIRED_INTEGER_DIGITS, REQUIRED_MANTISSA_SIGN, SPECIAL_DIGIT_SEPARATOR,
    REQUIRED_DIGITS,
};

verus! {

/// The word of the standard format: exponent digits are required after an
/// exponent character, nothing else is asked or forbidden.
pub const STANDARD: u64 = REQUIRED_EXPONENT_DIGITS;

/// The word of the format that asks and forbids nothing.
pub const PERMISSIVE: u64 = 0;

/// The word of the format that accepts digit separators wherever they stand.
pub const IGNORE: u64 = DIGIT_SEPARATOR_FLAG_MASK;

/// The word of the format of JSON numbers.
pub const JSON: u64 = REQUIRED_DIGITS | NO_POSITIVE_MANTISSA_SIGN | NO_SPECIAL
    | NO_INTEGER_LEADING_ZEROS | NO_FLOAT_LEADING_ZEROS;

/// The first radix in which `e` is a digit, so that the backup exponent
/// character takes its place.
pub const BACKUP_EXPONENT_RADIX: u32 = 15;

/// `flag` if `set`, no bit otherwise.
#[verifier::opaque]
pub open spec fn spec_flag_bit(set: bool, flag: u64) -> u64 {
    if set {
        flag
    } else {
        0
    }
}

/// `flag` if `set`, no bit otherwise.
pub fn flag_bit(set: bool, flag: u64) -> (r: u64)
    ensures
        r == spec_flag_bit(set, flag),
{
    proof {
        reveal(spec_flag_bit);
    }
    if set {
        flag
    } else {
        0
    }
}

/// The grammar that a parser accepts, as one 64-bit word: flags that require
/// or forbid parts of a number, flags that say where digit separators may
/// stand, and four punctuation bytes of seven bits each.
///
/// A punctuation field that holds no bit stands for its default: `.` for the
/// decimal point, `e` and `^` for the exponent characters. The digit
/// separator has no default.
#[derive(Clone, Copy, Debug, PartialEq, Eq, Hash, Structural)]
pub struct NumberFormat {
    /// The word.
    pub bits: u64,
}

impl NumberFormat {
    /// Whether any bit of `flag` is set.
    pub open spec fn has(self, flag: u64) -> bool {
        self.bits & flag != 0
    }

    /// The digit separator.
    pub open spec fn spec_digit_separator(self) -> u8 {
        spec_from_flags(self.bits, DIGIT_SEPARATOR_SHIFT)
    }

    /// The decimal point.
    pub open spec fn spec_decimal_point(self) -> u8 {
        let c = spec_from_flags(self.bits, DECIMAL_POINT_SHIFT);
        if c == 0 {
            POINT
        } else {
            c
        }
    }

    /// The primary exponent character.
    pub open spec fn spec_exponent_decimal(self) -> u8 {
        let c = spec_from_flags(self.bits, EXPONENT_DECIMAL_SHIFT);
        if c == 0 {
            LOWER_E
        } else {
            c
        }
    }

    /// The backup exponent character.
    pub open spec fn spec_exponent_backup(self) -> u8 {
        let c = spec_from_flags(self.bits, EXPONENT_BACKUP_SHIFT);
        if c == 0 {
            CARET
        } else {
            c
        }
    }

    /// The exponent character for `radix`: the primary one, or the backup one
    /// from the radix on in which `e` is a digit.
    pub open spec fn spec_exponent(self, radix: u32) -> u8 {
        if radix >= BACKUP_EXPONENT_RADIX {
            self.spec_exponent_backup()
        } else {
            self.spec_exponent_decimal()
        }
    }

    /// The exponent character that the format itself sets for `radix`: the
    /// primary one, or the backup one from the radix on in which `e` is a
    /// digit; zero where the format sets none.
    pub open spec fn spec_exponent_set(self, radix: u32) -> u8 {
        if radix >= BACKUP_EXPONENT_RADIX {
            spec_from_flags(self.bits, EXPONENT_BACKUP_SHIFT)
        } else {
            spec_from_flags(self.bits, EXPONENT_DECIMAL_SHIFT)
        }
    }

    /// The exponent character that is read in `radix` under options whose
    /// exponent character is `exponent_char`: the one that the format sets
    /// for the radix, where it sets one, and that of the options otherwise.
    pub open spec fn spec_exponent_marker(self, radix: u32, exponent_char: u8) -> u8 {
        if self.spec_exponent_set(radix) != 0 {
            self.spec_exponent_set(radix)
        } else {
            exponent_char
        }
    }

    /// Whether the punctuation can serve: each byte is of a kind that cannot be
    /// taken for part of a number, the digit separator only where a flag
    /// allows one to stand, and the bytes differ where the grammar must tell
    /// them apart. A format cannot both forbid and require exponent notation.
    pub open spec fn spec_is_valid(self) -> bool {
        &&& spec_is_valid_digit_separator(self.spec_decimal_point())
        &&& spec_is_valid_exponent_decimal(self.spec_exponent_decimal())
        &&& spec_is_valid_digit_separator(self.spec_exponent_backup())
        &&& (self.has(DIGIT_SEPARATOR_FLAG_MASK) ==> spec_is_valid_digit_separator(
            self.spec_digit_separator(),
        ))
        &&& spec_is_valid_punctuation(
            self.spec_digit_separator(),
            self.spec_decimal_point(),
            self.spec_exponent_decimal(),
            self.spec_exponent_backup(),
        )
        &&& !(self.has(NO_EXPONENT_NOTATION) && self.has(REQUIRED_EXPONENT_NOTATION))
    }

    /// The format with the word `bits`.
    pub fn from_bits(bits: u64) -> (r: NumberFormat)
        ensures
            r.bits == bits,
    {
        NumberFormat { bits }
    }

    /// The word of the format.
    pub fn bits(self) -> (r: u64)
        ensures
            r == self.bits,
    {
        self.bits
    }

    /// The standard format.
    pub fn standard() -> (r: Option<NumberFormat>)
        ensures
            r == Some(NumberFormat { bits: STANDARD }),
    {
        Some(NumberFormat { bits: STANDARD })
    }

    /// The format that asks and forbids nothing.
    pub fn permissive() -> (r: Option<NumberFormat>)
        ensures
            r == Some(NumberFormat { bits: PERMISSIVE }),
    {
        Some(NumberFormat { bits: PERMISSIVE })
    }

    /// The format of JSON numbers.
    pub fn json() -> (r: NumberFormat)
        ensures
            r.bits == JSON,
    {
        NumberFormat { bits: JSON }
    }

    /// The format that skips `digit_separator` wherever it stands, if that
    /// byte is an ASCII byte.
    pub fn ignore(digit_separator: u8) -> (r: Option<NumberFormat>)
        ensures
            r == if digit_separator < 128 {
                Some(
                    NumberFormat {
                        bits: IGNORE | spec_to_flags(digit_separator, DIGIT_SEPARATOR_SHIFT),
                    },
                )
            } else {
                None
            },
    {
        if digit_separator < 128 {
            Some(NumberFormat { bits: IGNORE | digit_separator_to_flags(digit_separator) })
        } else {
            None
        }
    }

    /// The format that names `digit_separator` and sets no flag.
    pub fn from_separator(digit_separator: u8) -> (r: NumberFormat)
        ensures
            r.bits == spec_to_flags(digit_separator, DIGIT_SEPARATOR_SHIFT),
    {
        NumberFormat { bits: digit_separator_to_flags(digit_separator) }
    }

    /// Whether any bit of `flag` is set.
    pub fn intersects(self, flag: u64) -> (r: bool)
        ensures
            r == self.has(flag),
    {
        self.bits & flag != 0
    }


    /// Whether digits are required before the decimal point.
    pub fn required_integer_digits(self) -> (r: bool)
        ensures
            r == self.has(REQUIRED_INTEGER_DIGITS),
    {
        self.bits & REQUIRED_INTEGER_DIGITS != 0
    }

    /// Whether digits are required after the decimal point, if there is one.
    pub fn required_fraction_digits(self) -> (r: bool)
        ensures
            r == self.has(REQUIRED_FRACTION_DIGITS),
    {
        self.bits & REQUIRED_FRACTION_DIGITS != 0
    }

    /// Whether digits are required after the exponent character, if there is one.
    pub fn required_exponent_digits(self) -> (r: bool)
        ensures
            r == self.has(REQUIRED_EXPONENT_DIGITS),
    {
        self.bits & REQUIRED_EXPONENT_DIGITS != 0
    }

    /// Whether a positive sign before the mantissa is not allowed.
    pub fn no_positive_mantissa_sign(self) -> (r: bool)
        ensures
            r == self.has(NO_POSITIVE_MANTISSA_SIGN),
    {
        self.bits & NO_POSITIVE_MANTISSA_SIGN != 0
    }

    /// Whether a sign before the mantissa is required.
    pub fn required_mantissa_sign(self) -> (r: bool)
        ensures
            r == self.has(REQUIRED_MANTISSA_SIGN),
    {
        self.bits & REQUIRED_MANTISSA_SIGN != 0
    }

    /// Whether exponent notation is not allowed.
    pub fn no_exponent_notation(self) -> (r: bool)
        ensures
            r == self.has(NO_EXPONENT_NOTATION),
    {
        self.bits & NO_EXPONENT_NOTATION != 0
    }

    /// Whether a positive sign before the exponent is not allowed.
    pub fn no_positive_exponent_sign(self) -> (r: bool)
        ensures
            r == self.has(NO_POSITIVE_EXPONENT_SIGN),
    {
        self.bits & NO_POSITIVE_EXPONENT_SIGN != 0
    }

    /// Whether a sign before the exponent is required.
    pub fn required_exponent_sign(self) -> (r: bool)
        ensures
            r == self.has(REQUIRED_EXPONENT_SIGN),
    {
        self.bits & REQUIRED_EXPONENT_SIGN != 0
    }

    /// Whether an exponent that follows no decimal point is not allowed.
    pub fn no_exponent_without_fraction(self) -> (r: bool)
        ensures
            r == self.has(NO_EXPONENT_WITHOUT_FRACTION),
    {
        self.bits & NO_EXPONENT_WITHOUT_FRACTION != 0
    }

    /// Whether special (non-finite) values are not allowed.
    pub fn no_special(self) -> (r: bool)
        ensures
            r == self.has(NO_SPECIAL),
    {
        self.bits & NO_SPECIAL != 0
    }

    /// Whether special (non-finite) values are matched with their case.
    pub fn case_sensitive_special(self) -> (r: bool)
        ensures
            r == self.has(CASE_SENSITIVE_SPECIAL),
    {
        self.bits & CASE_SENSITIVE_SPECIAL != 0
    }

    /// Whether leading zeros before an integer are not allowed.
    pub fn no_integer_leading_zeros(self) -> (r: bool)
        ensures
            r == self.has(NO_INTEGER_LEADING_ZEROS),
    {
        self.bits & NO_INTEGER_LEADING_ZEROS != 0
    }

    /// Whether leading zeros before a float are not allowed.
    pub fn no_float_leading_zeros(self) -> (r: bool)
        ensures
            r == self.has(NO_FLOAT_LEADING_ZEROS),
    {
        self.bits & NO_FLOAT_LEADING_ZEROS != 0
    }

    /// Whether exponent notation is required.
    pub fn required_exponent_notation(self) -> (r: bool)
        ensures
            r == self.has(REQUIRED_EXPONENT_NOTATION),
    {
        self.bits & REQUIRED_EXPONENT_NOTATION != 0
    }

    /// Whether digit separators are allowed between integer digits.
    pub fn integer_internal_digit_separator(self) -> (r: bool)
        ensures
            r == self.has(INTEGER_INTERNAL_DIGIT_SEPARATOR),
    {
        self.bits & INTEGER_INTERNAL_DIGIT_SEPARATOR != 0
    }

    /// Whether digit separators are allowed between fraction digits.
    pub fn fraction_internal_digit_separator(self) -> (r: bool)
        ensures
            r == self.has(FRACTION_INTERNAL_DIGIT_SEPARATOR),
    {
        self.bits & FRACTION_INTERNAL_DIGIT_SEPARATOR != 0
    }

    /// Whether digit separators are allowed between exponent digits.
    pub fn exponent_internal_digit_separator(self) -> (r: bool)
        ensures
            r == self.has(EXPONENT_INTERNAL_DIGIT_SEPARATOR),
    {
        self.bits & EXPONENT_INTERNAL_DIGIT_SEPARATOR != 0
    }

    /// Whether a digit separator is allowed before any integer digits.
    pub fn integer_leading_digit_separator(self) -> (r: bool)
        ensures
            r == self.has(INTEGER_LEADING_DIGIT_SEPARATOR),
    {
        self.bits & INTEGER_LEADING_DIGIT_SEPARATOR != 0
    }

    /// Whether a digit separator is allowed before any fraction digits.
    pub fn fraction_leading_digit_separator(self) -> (r: bool)
        ensures
            r == self.has(FRACTION_LEADING_DIGIT_SEPARATOR),
    {
        self.bits & FRACTION_LEADING_DIGIT_SEPARATOR != 0
    }

    /// Whether a digit separator is allowed before any exponent digits.
    pub fn exponent_leading_digit_separator(self) -> (r: bool)
        ensures
            r == self.has(EXPONENT_LEADING_DIGIT_SEPARATOR),
    {
        self.bits & EXPONENT_LEADING_DIGIT_SEPARATOR != 0
    }

    /// Whether a digit separator is allowed after any integer digits.
    pub fn integer_trailing_digit_separator(self) -> (r: bool)
        ensures
            r == self.has(INTEGER_TRAILING_DIGIT_SEPARATOR),
    {
        self.bits & INTEGER_TRAILING_DIGIT_SEPARATOR != 0
    }

    /// Whether a digit separator is allowed after any fraction digits.
    pub fn fraction_trailing_digit_separator(self) -> (r: bool)
        ensures
            r == self.has(FRACTION_TRAILING_DIGIT_SEPARATOR),
    {
        self.bits & FRACTION_TRAILING_DIGIT_SEPARATOR != 0
    }

    /// Whether a digit separator is allowed after any exponent digits.
    pub fn exponent_trailing_digit_separator(self) -> (r: bool)
        ensures
            r == self.has(EXPONENT_TRAILING_DIGIT_SEPARATOR),
    {
        self.bits & EXPONENT_TRAILING_DIGIT_SEPARATOR != 0
    }

    /// Whether several integer digit separators may stand side by side.
    pub fn integer_consecutive_digit_separator(self) -> (r: bool)
        ensures
            r == self.has(INTEGER_CONSECUTIVE_DIGIT_SEPARATOR),
    {
        self.bits & INTEGER_CONSECUTIVE_DIGIT_SEPARATOR != 0
    }

    /// Whether several fraction digit separators may stand side by side.
    pub fn fraction_consecutive_digit_separator(self) -> (r: bool)
        ensures
            r == self.has(FRACTION_CONSECUTIVE_DIGIT_SEPARATOR),
    {
        self.bits & FRACTION_CONSECUTIVE_DIGIT_SEPARATOR != 0
    }

    /// Whether several exponent digit separators may stand side by side.
    pub fn exponent_consecutive_digit_separator(self) -> (r: bool)
        ensures
            r == self.has(EXPONENT_CONSECUTIVE_DIGIT_SEPARATOR),
    {
        self.bits & EXPONENT_CONSECUTIVE_DIGIT_SEPARATOR != 0
    }

    /// Whether digit separators are allowed inside special values.
    pub fn special_digit_separator(self) -> (r: bool)
        ensures
            r == self.has(SPECIAL_DIGIT_SEPARATOR),
    {
        self.bits & SPECIAL_DIGIT_SEPARATOR != 0
    }

    /// The digit separator.
    pub fn digit_separator(self) -> (r: u8)
        ensures
            r == self.spec_digit_separator(),
            r < 128,
    {
        digit_separator_from_flags(self.bits)
    }

    /// The decimal point.
    pub fn decimal_point(self) -> (r: u8)
        ensures
            r == self.spec_decimal_point(),
            r < 128,
    {
        let c = decimal_point_from_flags(self.bits);
        if c == 0 {
            POINT
        } else {
            c
        }
    }

    /// The primary exponent character.
    pub fn exponent_decimal(self) -> (r: u8)
        ensures
            r == self.spec_exponent_decimal(),
            r < 128,
    {
        let c = exponent_decimal_from_flags(self.bits);
        if c == 0 {
            LOWER_E
        } else {
            c
        }
    }

    /// The backup exponent character.
    pub fn exponent_backup(self) -> (r: u8)
        ensures
            r == self.spec_exponent_backup(),
            r < 128,
    {
        let c = exponent_backup_from_flags(self.bits);
        if c == 0 {
            CARET
        } else {
            c
        }
    }

    /// The exponent character for `radix`.
    pub fn exponent(self, radix: u32) -> (r: u8)
        ensures
            r == self.spec_exponent(radix),
            r < 128,
    {
        if radix >= BACKUP_EXPONENT_RADIX {
            self.exponent_backup()
        } else {
            self.exponent_decimal()
        }
    }

    /// The exponent character that is read in `radix` under options whose
    /// exponent character is `exponent_char`: the one that the format sets
    /// for the radix, where it sets one, and that of the options otherwise.
    pub fn exponent_marker(self, radix: u32, exponent_char: u8) -> (r: u8)
        ensures
            r == self.spec_exponent_marker(radix, exponent_char),
    {
        let set = if radix >= BACKUP_EXPONENT_RADIX {
            exponent_backup_from_flags(self.bits)
        } else {
            exponent_decimal_from_flags(self.bits)
        };
        if set != 0 {
            set
        } else {
            exponent_char
        }
    }

    /// Whether the punctuation of the format can serve.
    pub fn is_valid(self) -> (r: bool)
        ensures
            r == self.spec_is_valid(),
    {
        let digit_separator = self.digit_separator();
        let decimal_point = self.decimal_point();
        let exponent_decimal = self.exponent_decimal();
        let exponent_backup = self.exponent_backup();
        is_valid_decimal_point(decimal_point) && is_valid_exponent_decimal(exponent_decimal)
            && is_valid_exponent_backup(exponent_backup) && (!self.intersects(
            DIGIT_SEPARATOR_FLAG_MASK,
        ) || is_valid_digit_separator(digit_separator)) && is_valid_punctuation(
            digit_separator,
            decimal_point,
            exponent_decimal,
            exponent_backup,
        ) && !(self.no_exponent_notation() && self.required_exponent_notation())
    }

    /// A builder that starts from this format.
    pub fn rebuild(self) -> (r: NumberFormatBuilder)
        ensures
            r == self.spec_rebuild(),
    {
        NumberFormatBuilder {
            digit_separator: self.digit_separator(),
            decimal_point: self.decimal_point(),
            exponent_decimal: self.exponent_decimal(),
            exponent_backup: self.exponent_backup(),
            required_integer_digits: self.required_integer_digits(),
            required_fraction_digits: self.required_fraction_digits(),
            required_exponent_digits: self.required_exponent_digits(),
            no_positive_mantissa_sign: self.no_positive_mantissa_sign(),
            required_mantissa_sign: self.required_mantissa_sign(),
            no_exponent_notation: self.no_exponent_notation(),
            no_positive_exponent_sign: self.no_positive_exponent_sign(),
            required_exponent_sign: self.required_exponent_sign(),
            no_exponent_without_fraction: self.no_exponent_without_fraction(),
            no_special: self.no_special(),
            case_sensitive_special: self.case_sensitive_special(),
            no_integer_leading_zeros: self.no_integer_leading_zeros(),
            no_float_leading_zeros: self.no_float_leading_zeros(),
            required_exponent_notation: self.required_exponent_notation(),
            integer_internal_digit_separator: self.integer_internal_digit_separator(),
            fraction_internal_digit_separator: self.fraction_internal_digit_separator(),
            exponent_internal_digit_separator: self.exponent_internal_digit_separator(),
            integer_leading_digit_separator: self.integer_leading_digit_separator(),
            fraction_leading_digit_separator: self.fraction_leading_digit_separator(),
            exponent_leading_digit_separator: self.exponent_leading_digit_separator(),
            integer_trailing_digit_separator: self.integer_trailing_digit_separator(),
            fraction_trailing_digit_separator: self.fraction_trailing_digit_separator(),
            exponent_trailing_digit_separator: self.exponent_trailing_digit_separator(),
            integer_consecutive_digit_separator: self.integer_consecutive_digit_separator(),
            fraction_consecutive_digit_separator: self.fraction_consecutive_digit_separator(),
            exponent_consecutive_digit_separator: self.exponent_consecutive_digit_separator(),
            special_digit_separator: self.special_digit_separator(),
        }
    }

    /// The builder that holds what this format holds.
    pub open spec fn spec_rebuild(self) -> NumberFormatBuilder {
        NumberFormatBuilder {
            digit_separator: self.spec_digit_separator(),
            decimal_point: self.spec_decimal_point(),
            exponent_decimal: self.spec_exponent_decimal(),
            exponent_backup: self.spec_exponent_backup(),
            required_integer_digits: self.has(REQUIRED_INTEGER_DIGITS),
            required_fraction_digits: self.has(REQUIRED_FRACTION_DIGITS),
            required_exponent_digits: self.has(REQUIRED_EXPONENT_DIGITS),
            no_positive_mantissa_sign: self.has(NO_POSITIVE_MANTISSA_SIGN),
            required_mantissa_sign: self.has(REQUIRED_MANTISSA_SIGN),
            no_exponent_notation: self.has(NO_EXPONENT_NOTATION),
            no_positive_exponent_sign: self.has(NO_POSITIVE_EXPONENT_SIGN),
            required_exponent_sign: self.has(REQUIRED_EXPONENT_SIGN),
            no_exponent_without_fraction: self.has(NO_EXPONENT_WITHOUT_FRACTION),
            no_special: self.has(NO_SPECIAL),
            case_sensitive_special: self.has(CASE_SENSITIVE_SPECIAL),
            no_integer_leading_zeros: self.has(NO_INTEGER_LEADING_ZEROS),
            no_float_leading_zeros: self.has(NO_FLOAT_LEADING_ZEROS),
            required_exponent_notation: self.has(REQUIRED_EXPONENT_NOTATION),
            integer_internal_digit_separator: self.has(INTEGER_INTERNAL_DIGIT_SEPARATOR),
            fraction_internal_digit_separator: self.has(FRACTION_INTERNAL_DIGIT_SEPARATOR),
            exponent_internal_digit_separator: self.has(EXPONENT_INTERNAL_DIGIT_SEPARATOR),
            integer_leading_digit_separator: self.has(INTEGER_LEADING_DIGIT_SEPARATOR),
            fraction_leading_digit_separator: self.has(FRACTION_LEADING_DIGIT_SEPARATOR),
            exponent_leading_digit_separator: self.has(EXPONENT_LEADING_DIGIT_SEPARATOR),
            integer_trailing_digit_separator: self.has(INTEGER_TRAILING_DIGIT_SEPARATOR),
            fraction_trailing_digit_separator: self.has(FRACTION_TRAILING_DIGIT_SEPARATOR),
            exponent_trailing_digit_separator: self.has(EXPONENT_TRAILING_DIGIT_SEPARATOR),
            integer_consecutive_digit_separator: self.has(INTEGER_CONSECUTIVE_DIGIT_SEPARATOR),
            fraction_consecutive_digit_separator: self.has(FRACTION_CONSECUTIVE_DIGIT_SEPARATOR),
            exponent_consecutive_digit_separator: self.has(EXPONENT_CONSECUTIVE_DIGIT_SEPARATOR),
            special_digit_separator: self.has(SPECIAL_DIGIT_SEPARATOR),
        }
    }
}

impl std::ops::BitOr for NumberFormat {
    type Output = NumberFormat;

    fn bitor(self, rhs: NumberFormat) -> (r: NumberFormat) {
        NumberFormat { bits: self.bits | rhs.bits }
    }
}

impl vstd::std_specs::ops::BitOrSpecImpl for NumberFormat {
    open spec fn obeys_bitor_spec() -> bool {
        true
    }

    open spec fn bitor_req(self, rhs: NumberFormat) -> bool {
        true
    }

    open spec fn bitor_spec(self, rhs: NumberFormat) -> NumberFormat {
        NumberFormat { bits: self.bits | rhs.bits }
    }
}

impl Buildable for NumberFormat {
    type Builder = NumberFormatBuilder;

    open spec fn is_default_builder(builder: NumberFormatBuilder) -> bool {
        builder == NumberFormatBuilder::spec_new()
    }

    fn builder() -> (r: NumberFormatBuilder) {
        NumberFormatBuilder::new()
    }
}

/// The parts of a number format, one field each.
#[derive(Clone, Copy, Debug, PartialEq, Eq, Structural)]
pub struct NumberFormatBuilder {
    /// The digit separator.
    pub digit_separator: u8,
    /// The decimal point.
    pub decimal_point: u8,
    /// The primary exponent character.
    pub exponent_decimal: u8,
    /// The backup exponent character.
    pub exponent_backup: u8,
    /// Whether digits are required before the decimal point.
    pub required_integer_digits: bool,
    /// Whether digits are required after the decimal point, if there is one.
    pub required_fraction_digits: bool,
    /// Whether digits are required after the exponent character, if there is one.
    pub required_exponent_digits: bool,
    /// Whether a positive sign before the mantissa is not allowed.
    pub no_positive_mantissa_sign: bool,
    /// Whether a sign before the mantissa is required.
    pub required_mantissa_sign: bool,
    /// Whether exponent notation is not allowed.
    pub no_exponent_notation: bool,
    /// Whether a positive sign before the exponent is not allowed.
    pub no_positive_exponent_sign: bool,
    /// Whether a sign before the exponent is required.
    pub required_exponent_sign: bool,
    /// Whether an exponent that follows no decimal point is not allowed.
    pub no_exponent_without_fraction: bool,
    /// Whether special (non-finite) values are not allowed.
    pub no_special: bool,
    /// Whether special (non-finite) values are matched with their case.
    pub case_sensitive_special: bool,
    /// Whether leading zeros before an integer are not allowed.
    pub no_integer_leading_zeros: bool,
    /// Whether leading zeros before a float are not allowed.
    pub no_float_leading_zeros: bool,
    /// Whether exponent notation is required.
    pub required_exponent_notation: bool,
    /// Whether digit separators are allowed between integer digits.
    pub integer_internal_digit_separator: bool,
    /// Whether digit separators are allowed between fraction digits.
    pub fraction_internal_digit_separator: bool,
    /// Whether digit separators are allowed between exponent digits.
    pub exponent_internal_digit_separator: bool,
    /// Whether a digit separator is allowed before any integer digits.
    pub integer_leading_digit_separator: bool,
    /// Whether a digit separator is allowed before any fraction digits.
    pub fraction_leading_digit_separator: bool,
    /// Whether a digit separator is allowed before any exponent digits.
    pub exponent_leading_digit_separator: bool,
    /// Whether a digit separator is allowed after any integer digits.
    pub integer_trailing_digit_separator: bool,
    /// Whether a digit separator is allowed after any fraction digits.
    pub fraction_trailing_digit_separator: bool,
    /// Whether a digit separator is allowed after any exponent digits.
    pub exponent_trailing_digit_separator: bool,
    /// Whether several integer digit separators may stand side by side.
    pub integer_consecutive_digit_separator: bool,
    /// Whether several fraction digit separators may stand side by side.
    pub fraction_consecutive_digit_separator: bool,
    /// Whether several exponent digit separators may stand side by side.
    pub exponent_consecutive_digit_separator: bool,
    /// Whether digit separators are allowed inside special values.
    pub special_digit_separator: bool,
}

impl NumberFormatBuilder {
    /// The builder of the format that asks and forbids nothing, with the
    /// default punctuation and no digit separator.
    pub open spec fn spec_new() -> NumberFormatBuilder {
        NumberFormatBuilder {
            digit_separator: 0,
            decimal_point: POINT,
            exponent_decimal: LOWER_E,
            exponent_backup: CARET,
            required_integer_digits: false,
            required_fraction_digits: false,
            required_exponent_digits: false,
            no_positive_mantissa_sign: false,
            required_mantissa_sign: false,
            no_exponent_notation: false,
            no_positive_exponent_sign: false,
            required_exponent_sign: false,
            no_exponent_without_fraction: false,
            no_special: false,
            case_sensitive_special: false,
            no_integer_leading_zeros: false,
            no_float_leading_zeros: false,
            required_exponent_notation: false,
            integer_internal_digit_separator: false,
            fraction_internal_digit_separator: false,
            exponent_internal_digit_separator: false,
            integer_leading_digit_separator: false,
            fraction_leading_digit_separator: false,
            exponent_leading_digit_separator: false,
            integer_trailing_digit_separator: false,
            fraction_trailing_digit_separator: false,
            exponent_trailing_digit_separator: false,
            integer_consecutive_digit_separator: false,
            fraction_consecutive_digit_separator: false,
            exponent_consecutive_digit_separator: false,
            special_digit_separator: false,
        }
    }

    /// The builder of the format that asks and forbids nothing, with the
    /// default punctuation and no digit separator.
    pub fn new() -> (r: NumberFormatBuilder)
        ensures
            r == Self::spec_new(),
    {
        NumberFormatBuilder {
            digit_separator: 0,
            decimal_point: POINT,
            exponent_decimal: LOWER_E,
            exponent_backup: CARET,
            required_integer_digits: false,
            required_fraction_digits: false,
            required_exponent_digits: false,
            no_positive_mantissa_sign: false,
            required_mantissa_sign: false,
            no_exponent_notation: false,
            no_positive_exponent_sign: false,
            required_exponent_sign: false,
            no_exponent_without_fraction: false,
            no_special: false,
            case_sensitive_special: false,
            no_integer_leading_zeros: false,
            no_float_leading_zeros: false,
            required_exponent_notation: false,
            integer_internal_digit_separator: false,
            fraction_internal_digit_separator: false,
            exponent_internal_digit_separator: false,
            integer_leading_digit_separator: false,
            fraction_leading_digit_separator: false,
            exponent_leading_digit_separator: false,
            integer_trailing_digit_separator: false,
            fraction_trailing_digit_separator: false,
            exponent_trailing_digit_separator: false,
            integer_consecutive_digit_separator: false,
            fraction_consecutive_digit_separator: false,
            exponent_consecutive_digit_separator: false,
            special_digit_separator: false,
        }
    }

    /// Set the digit separator.
    pub fn digit_separator(self, digit_separator: u8) -> (r: NumberFormatBuilder)
        ensures
            r == (NumberFormatBuilder { digit_separator, ..self }),
    {
        NumberFormatBuilder { digit_separator, ..self }
    }

    /// Set the decimal point.
    pub fn decimal_point(self, decimal_point: u8) -> (r: NumberFormatBuilder)
        ensures
            r == (NumberFormatBuilder { decimal_point, ..self }),
    {
        NumberFormatBuilder { decimal_point, ..self }
    }

    /// Set the primary exponent character.
    pub fn exponent_decimal(self, exponent_decimal: u8) -> (r: NumberFormatBuilder)
        ensures
            r == (NumberFormatBuilder { exponent_decimal, ..self }),
    {
        NumberFormatBuilder { exponent_decimal, ..self }
    }

    /// Set the backup exponent character, used where the primary one is a digit.
    pub fn exponent_backup(self, exponent_backup: u8) -> (r: NumberFormatBuilder)
        ensures
            r == (NumberFormatBuilder { exponent_backup, ..self }),
    {
        NumberFormatBuilder { exponent_backup, ..self }
    }

    /// Set whether digits are required before the decimal point.
    pub fn required_integer_digits(self, required_integer_digits: bool) -> (r: NumberFormatBuilder)
        ensures
            r == (NumberFormatBuilder { required_integer_digits, ..self }),
    {
        NumberFormatBuilder { required_integer_digits, ..self }
    }

    /// Set whether digits are required after the decimal point, if there is one.
    pub fn required_fraction_digits(self, required_fraction_digits: bool) -> (r: NumberFormatBuilder)
        ensures
            r == (NumberFormatBuilder { required_fraction_digits, ..self }),
    {
        NumberFormatBuilder { required_fraction_digits, ..self }
    }

    /// Set whether digits are required after the exponent character, if there is one.
    pub fn required_exponent_digits(self, required_exponent_digits: bool) -> (r: NumberFormatBuilder)
        ensures
            r == (NumberFormatBuilder { required_exponent_digits, ..self }),
    {
        NumberFormatBuilder { required_exponent_digits, ..self }
    }

    /// Set whether a positive sign before the mantissa is not allowed.
    pub fn no_positive_mantissa_sign(self, no_positive_mantissa_sign: bool) -> (r: NumberFormatBuilder)
        ensures
            r == (NumberFormatBuilder { no_positive_mantissa_sign, ..self }),
    {
        NumberFormatBuilder { no_positive_mantissa_sign, ..self }
    }

    /// Set whether a sign before the mantissa is required.
    pub fn required_mantissa_sign(self, required_mantissa_sign: bool) -> (r: NumberFormatBuilder)
        ensures
            r == (NumberFormatBuilder { required_mantissa_sign, ..self }),
    {
        NumberFormatBuilder { required_mantissa_sign, ..self }
    }

    /// Set whether exponent notation is not allowed.
    pub fn no_exponent_notation(self, no_exponent_notation: bool) -> (r: NumberFormatBuilder)
        ensures
            r == (NumberFormatBuilder { no_exponent_notation, ..self }),
    {
        NumberFormatBuilder { no_exponent_notation, ..self }
    }

    /// Set whether a positive sign before the exponent is not allowed.
    pub fn no_positive_exponent_sign(self, no_positive_exponent_sign: bool) -> (r: NumberFormatBuilder)
        ensures
            r == (NumberFormatBuilder { no_positive_exponent_sign, ..self }),
    {
        NumberFormatBuilder { no_positive_exponent_sign, ..self }
    }

    /// Set whether a sign before the exponent is required.
    pub fn required_exponent_sign(self, required_exponent_sign: bool) -> (r: NumberFormatBuilder)
        ensures
            r == (NumberFormatBuilder { required_exponent_sign, ..self }),
    {
        NumberFormatBuilder { required_exponent_sign, ..self }
    }

    /// Set whether an exponent that follows no decimal point is not allowed.
    pub fn no_exponent_without_fraction(self, no_exponent_without_fraction: bool) -> (r: NumberFormatBuilder)
        ensures
            r == (NumberFormatBuilder { no_exponent_without_fraction, ..self }),
    {
        NumberFormatBuilder { no_exponent_without_fraction, ..self }
    }

    /// Set whether special (non-finite) values are not allowed.
    pub fn no_special(self, no_special: bool) -> (r: NumberFormatBuilder)
        ensures
            r == (NumberFormatBuilder { no_special, ..self }),
    {
        NumberFormatBuilder { no_special, ..self }
    }

    /// Set whether special (non-finite) values are matched with their case.
    pub fn case_sensitive_special(self, case_sensitive_special: bool) -> (r: NumberFormatBuilder)
        ensures
            r == (NumberFormatBuilder { case_sensitive_special, ..self }),
    {
        NumberFormatBuilder { case_sensitive_special, ..self }
    }

    /// Set whether leading zeros before an integer are not allowed.
    pub fn no_integer_leading_zeros(self, no_integer_leading_zeros: bool) -> (r: NumberFormatBuilder)
        ensures
            r == (NumberFormatBuilder { no_integer_leading_zeros, ..self }),
    {
        NumberFormatBuilder { no_integer_leading_zeros, ..self }
    }

    /// Set whether leading zeros before a float are not allowed.
    pub fn no_float_leading_zeros(self, no_float_leading_zeros: bool) -> (r: NumberFormatBuilder)
        ensures
            r == (NumberFormatBuilder { no_float_leading_zeros, ..self }),
    {
        NumberFormatBuilder { no_float_leading_zeros, ..self }
    }

    /// Set whether exponent notation is required.
    pub fn required_exponent_notation(self, required_exponent_notation: bool) -> (r: NumberFormatBuilder)
        ensures
            r == (NumberFormatBuilder { required_exponent_notation, ..self }),
    {
        NumberFormatBuilder { required_exponent_notation, ..self }
    }

    /// Set whether digit separators are allowed between integer digits.
    pub fn integer_internal_digit_separator(self, integer_internal_digit_separator: bool) -> (r: NumberFormatBuilder)
        ensures
            r == (NumberFormatBuilder { integer_internal_digit_separator, ..self }),
    {
        NumberFormatBuilder { integer_internal_digit_separator, ..self }
    }

    /// Set whether digit separators are allowed between fraction digits.
    pub fn fraction_internal_digit_separator(self, fraction_internal_digit_separator: bool) -> (r: NumberFormatBuilder)
        ensures
            r == (NumberFormatBuilder { fraction_internal_digit_separator, ..self }),
    {
        NumberFormatBuilder { fraction_internal_digit_separator, ..self }
    }

    /// Set whether digit separators are allowed between exponent digits.
    pub fn exponent_internal_digit_separator(self, exponent_internal_digit_separator: bool) -> (r: NumberFormatBuilder)
        ensures
            r == (NumberFormatBuilder { exponent_internal_digit_separator, ..self }),
    {
        NumberFormatBuilder { exponent_internal_digit_separator, ..self }
    }

    /// Set whether a digit separator is allowed before any integer digits.
    pub fn integer_leading_digit_separator(self, integer_leading_digit_separator: bool) -> (r: NumberFormatBuilder)
        ensures
            r == (NumberFormatBuilder { integer_leading_digit_separator, ..self }),
    {
        NumberFormatBuilder { integer_leading_digit_separator, ..self }
    }

    /// Set whether a digit separator is allowed before any fraction digits.
    pub fn fraction_leading_digit_separator(self, fraction_leading_digit_separator: bool) -> (r: NumberFormatBuilder)
        ensures
            r == (NumberFormatBuilder { fraction_leading_digit_separator, ..self }),
    {
        NumberFormatBuilder { fraction_leading_digit_separator, ..self }
    }

    /// Set whether a digit separator is allowed before any exponent digits.
    pub fn exponent_leading_digit_separator(self, exponent_leading_digit_separator: bool) -> (r: NumberFormatBuilder)
        ensures
            r == (NumberFormatBuilder { exponent_leading_digit_separator, ..self }),
    {
        NumberFormatBuilder { exponent_leading_digit_separator, ..self }
    }

    /// Set whether a digit separator is allowed after any integer digits.
    pub fn integer_trailing_digit_separator(self, integer_trailing_digit_separator: bool) -> (r: NumberFormatBuilder)
        ensures
            r == (NumberFormatBuilder { integer_trailing_digit_separator, ..self }),
    {
        NumberFormatBuilder { integer_trailing_digit_separator, ..self }
    }

    /// Set whether a digit separator is allowed after any fraction digits.
    pub fn fraction_trailing_digit_separator(self, fraction_trailing_digit_separator: bool) -> (r: NumberFormatBuilder)
        ensures
            r == (NumberFormatBuilder { fraction_trailing_digit_separator, ..self }),
    {
        NumberFormatBuilder { fraction_trailing_digit_separator, ..self }
    }

    /// Set whether a digit separator is allowed after any exponent digits.
    pub fn exponent_trailing_digit_separator(self, exponent_trailing_digit_separator: bool) -> (r: NumberFormatBuilder)
        ensures
            r == (NumberFormatBuilder { exponent_trailing_digit_separator, ..self }),
    {
        NumberFormatBuilder { exponent_trailing_digit_separator, ..self }
    }

    /// Set whether several integer digit separators may stand side by side.
    pub fn integer_consecutive_digit_separator(self, integer_consecutive_digit_separator: bool) -> (r: NumberFormatBuilder)
        ensures
            r == (NumberFormatBuilder { integer_consecutive_digit_separator, ..self }),
    {
        NumberFormatBuilder { integer_consecutive_digit_separator, ..self }
    }

    /// Set whether several fraction digit separators may stand side by side.
    pub fn fraction_consecutive_digit_separator(self, fraction_consecutive_digit_separator: bool) -> (r: NumberFormatBuilder)
        ensures
            r == (NumberFormatBuilder { fraction_consecutive_digit_separator, ..self }),
    {
        NumberFormatBuilder { fraction_consecutive_digit_separator, ..self }
    }

    /// Set whether several exponent digit separators may stand side by side.
    pub fn exponent_consecutive_digit_separator(self, exponent_consecutive_digit_separator: bool) -> (r: NumberFormatBuilder)
        ensures
            r == (NumberFormatBuilder { exponent_consecutive_digit_separator, ..self }),
    {
        NumberFormatBuilder { exponent_consecutive_digit_separator, ..self }
    }

    /// Set whether digit separators are allowed inside special values.
    pub fn special_digit_separator(self, special_digit_separator: bool) -> (r: NumberFormatBuilder)
        ensures
            r == (NumberFormatBuilder { special_digit_separator, ..self }),
    {
        NumberFormatBuilder { special_digit_separator, ..self }
    }

    /// Whether any flag lets a digit separator stand somewhere.
    pub open spec fn has_digit_separator_flag(self) -> bool {
        ||| self.integer_internal_digit_separator
        ||| self.fraction_internal_digit_separator
        ||| self.exponent_internal_digit_separator
        ||| self.integer_leading_digit_separator
        ||| self.fraction_leading_digit_separator
        ||| self.exponent_leading_digit_separator
        ||| self.integer_trailing_digit_separator
        ||| self.fraction_trailing_digit_separator
        ||| self.exponent_trailing_digit_separator
        ||| self.integer_consecutive_digit_separator
        ||| self.fraction_consecutive_digit_separator
        ||| self.exponent_consecutive_digit_separator
        ||| self.special_digit_separator
    }

    /// Whether the parts make a format: see [`NumberFormat::spec_is_valid`].
    pub open spec fn spec_is_valid(self) -> bool {
        &&& spec_is_valid_digit_separator(self.decimal_point)
        &&& spec_is_valid_exponent_decimal(self.exponent_decimal)
        &&& spec_is_valid_digit_separator(self.exponent_backup)
        &&& (self.has_digit_separator_flag() ==> spec_is_valid_digit_separator(
            self.digit_separator,
        ))
        &&& spec_is_valid_punctuation(
            self.digit_separator,
            self.decimal_point,
            self.exponent_decimal,
            self.exponent_backup,
        )
        &&& !(self.no_exponent_notation && self.required_exponent_notation)
    }

    /// The flags on the components of a number.
    pub open spec fn spec_component_flags(self) -> u64 {
        spec_flag_bit(self.required_integer_digits, REQUIRED_INTEGER_DIGITS)
            | spec_flag_bit(self.required_fraction_digits, REQUIRED_FRACTION_DIGITS)
            | spec_flag_bit(self.required_exponent_digits, REQUIRED_EXPONENT_DIGITS)
            | spec_flag_bit(self.no_positive_mantissa_sign, NO_POSITIVE_MANTISSA_SIGN)
            | spec_flag_bit(self.required_mantissa_sign, REQUIRED_MANTISSA_SIGN)
            | spec_flag_bit(self.no_exponent_notation, NO_EXPONENT_NOTATION)
            | spec_flag_bit(self.no_positive_exponent_sign, NO_POSITIVE_EXPONENT_SIGN)
            | spec_flag_bit(self.required_exponent_sign, REQUIRED_EXPONENT_SIGN)
            | spec_flag_bit(self.no_exponent_without_fraction, NO_EXPONENT_WITHOUT_FRACTION)
            | spec_flag_bit(self.no_special, NO_SPECIAL)
            | spec_flag_bit(self.case_sensitive_special, CASE_SENSITIVE_SPECIAL)
            | spec_flag_bit(self.no_integer_leading_zeros, NO_INTEGER_LEADING_ZEROS)
            | spec_flag_bit(self.no_float_leading_zeros, NO_FLOAT_LEADING_ZEROS)
            | spec_flag_bit(self.required_exponent_notation, REQUIRED_EXPONENT_NOTATION)
    }

    /// The flags on where a digit separator may stand.
    pub open spec fn spec_separator_flags(self) -> u64 {
        spec_flag_bit(self.integer_internal_digit_separator, INTEGER_INTERNAL_DIGIT_SEPARATOR)
            | spec_flag_bit(self.fraction_internal_digit_separator, FRACTION_INTERNAL_DIGIT_SEPARATOR)
            | spec_flag_bit(self.exponent_internal_digit_separator, EXPONENT_INTERNAL_DIGIT_SEPARATOR)
            | spec_flag_bit(self.integer_leading_digit_separator, INTEGER_LEADING_DIGIT_SEPARATOR)
            | spec_flag_bit(self.fraction_leading_digit_separator, FRACTION_LEADING_DIGIT_SEPARATOR)
            | spec_flag_bit(self.exponent_leading_digit_separator, EXPONENT_LEADING_DIGIT_SEPARATOR)
            | spec_flag_bit(self.integer_trailing_digit_separator, INTEGER_TRAILING_DIGIT_SEPARATOR)
            | spec_flag_bit(self.fraction_trailing_digit_separator, FRACTION_TRAILING_DIGIT_SEPARATOR)
            | spec_flag_bit(self.exponent_trailing_digit_separator, EXPONENT_TRAILING_DIGIT_SEPARATOR)
            | spec_flag_bit(self.integer_consecutive_digit_separator, INTEGER_CONSECUTIVE_DIGIT_SEPARATOR)
            | spec_flag_bit(self.fraction_consecutive_digit_separator, FRACTION_CONSECUTIVE_DIGIT_SEPARATOR)
            | spec_flag_bit(self.exponent_consecutive_digit_separator, EXPONENT_CONSECUTIVE_DIGIT_SEPARATOR)
            | spec_flag_bit(self.special_digit_separator, SPECIAL_DIGIT_SEPARATOR)
    }

    /// The word without the flags on the components.
    pub open spec fn spec_rest_of_components(self) -> u64 {
        self.spec_separator_flags() | spec_to_flags(self.digit_separator, DIGIT_SEPARATOR_SHIFT)
            | spec_to_flags(self.decimal_point, DECIMAL_POINT_SHIFT) | spec_to_flags(
            self.exponent_decimal,
            EXPONENT_DECIMAL_SHIFT,
        ) | spec_to_flags(self.exponent_backup, EXPONENT_BACKUP_SHIFT)
    }

    /// The word without the flags on digit separators.
    pub open spec fn spec_rest_of_separators(self) -> u64 {
        self.spec_component_flags() | spec_to_flags(self.digit_separator, DIGIT_SEPARATOR_SHIFT)
            | spec_to_flags(self.decimal_point, DECIMAL_POINT_SHIFT) | spec_to_flags(
            self.exponent_decimal,
            EXPONENT_DECIMAL_SHIFT,
        ) | spec_to_flags(self.exponent_backup, EXPONENT_BACKUP_SHIFT)
    }

    /// The flags of the parts, without the punctuation.
    pub open spec fn spec_flags(self) -> u64 {
        self.spec_component_flags() | self.spec_separator_flags()
    }

    /// The word of the parts: the flags and the four punctuation bytes.
    pub open spec fn spec_word(self) -> u64 {
        self.spec_flags() | spec_to_flags(self.digit_separator, DIGIT_SEPARATOR_SHIFT)
            | spec_to_flags(self.decimal_point, DECIMAL_POINT_SHIFT) | spec_to_flags(
            self.exponent_decimal,
            EXPONENT_DECIMAL_SHIFT,
        ) | spec_to_flags(self.exponent_backup, EXPONENT_BACKUP_SHIFT)
    }

    /// Whether the parts make a format.
    pub fn is_valid(&self) -> (r: bool)
        ensures
            r == self.spec_is_valid(),
    {
        let has_flag = self.integer_internal_digit_separator
            || self.fraction_internal_digit_separator
            || self.exponent_internal_digit_separator
            || self.integer_leading_digit_separator
            || self.fraction_leading_digit_separator
            || self.exponent_leading_digit_separator
            || self.integer_trailing_digit_separator
            || self.fraction_trailing_digit_separator
            || self.exponent_trailing_digit_separator
            || self.integer_consecutive_digit_separator
            || self.fraction_consecutive_digit_separator
            || self.exponent_consecutive_digit_separator
            || self.special_digit_separator;
        is_valid_decimal_point(self.decimal_point) && is_valid_exponent_decimal(
            self.exponent_decimal,
        ) && is_valid_exponent_backup(self.exponent_backup) && (!has_flag
            || is_valid_digit_separator(self.digit_separator)) && is_valid_punctuation(
            self.digit_separator,
            self.decimal_point,
            self.exponent_decimal,
            self.exponent_backup,
        ) && !(self.no_exponent_notation && self.required_exponent_notation)
    }

    /// The flags of the parts, without the punctuation.
    pub fn flags(&self) -> (r: u64)
        ensures
            r == self.spec_flags(),
    {
        let low = flag_bit(self.required_integer_digits, REQUIRED_INTEGER_DIGITS)
            | flag_bit(self.required_fraction_digits, REQUIRED_FRACTION_DIGITS)
            | flag_bit(self.required_exponent_digits, REQUIRED_EXPONENT_DIGITS)
            | flag_bit(self.no_positive_mantissa_sign, NO_POSITIVE_MANTISSA_SIGN)
            | flag_bit(self.required_mantissa_sign, REQUIRED_MANTISSA_SIGN)
            | flag_bit(self.no_exponent_notation, NO_EXPONENT_NOTATION)
            | flag_bit(self.no_positive_exponent_sign, NO_POSITIVE_EXPONENT_SIGN)
            | flag_bit(self.required_exponent_sign, REQUIRED_EXPONENT_SIGN)
            | flag_bit(self.no_exponent_without_fraction, NO_EXPONENT_WITHOUT_FRACTION)
            | flag_bit(self.no_special, NO_SPECIAL)
            | flag_bit(self.case_sensitive_special, CASE_SENSITIVE_SPECIAL)
            | flag_bit(self.no_integer_leading_zeros, NO_INTEGER_LEADING_ZEROS)
            | flag_bit(self.no_float_leading_zeros, NO_FLOAT_LEADING_ZEROS)
            | flag_bit(self.required_exponent_notation, REQUIRED_EXPONENT_NOTATION);
        let separators = flag_bit(self.integer_internal_digit_separator, INTEGER_INTERNAL_DIGIT_SEPARATOR)
            | flag_bit(self.fraction_internal_digit_separator, FRACTION_INTERNAL_DIGIT_SEPARATOR)
            | flag_bit(self.exponent_internal_digit_separator, EXPONENT_INTERNAL_DIGIT_SEPARATOR)
            | flag_bit(self.integer_leading_digit_separator, INTEGER_LEADING_DIGIT_SEPARATOR)
            | flag_bit(self.fraction_leading_digit_separator, FRACTION_LEADING_DIGIT_SEPARATOR)
            | flag_bit(self.exponent_leading_digit_separator, EXPONENT_LEADING_DIGIT_SEPARATOR)
            | flag_bit(self.integer_trailing_digit_separator, INTEGER_TRAILING_DIGIT_SEPARATOR)
            | flag_bit(self.fraction_trailing_digit_separator, FRACTION_TRAILING_DIGIT_SEPARATOR)
            | flag_bit(self.exponent_trailing_digit_separator, EXPONENT_TRAILING_DIGIT_SEPARATOR)
            | flag_bit(self.integer_consecutive_digit_separator, INTEGER_CONSECUTIVE_DIGIT_SEPARATOR)
            | flag_bit(self.fraction_consecutive_digit_separator, FRACTION_CONSECUTIVE_DIGIT_SEPARATOR)
            | flag_bit(self.exponent_consecutive_digit_separator, EXPONENT_CONSECUTIVE_DIGIT_SEPARATOR)
            | flag_bit(self.special_digit_separator, SPECIAL_DIGIT_SEPARATOR);
        low | separators
    }
}

impl Builder for NumberFormatBuilder {
    type Buildable = NumberFormat;

    open spec fn builds(self, made: Option<NumberFormat>) -> bool {
        made == if self.spec_is_valid() {
            Some(NumberFormat { bits: self.spec_word() })
        } else {
            None
        }
    }

    fn build(self) -> (r: Option<NumberFormat>) {
        if self.is_valid() {
            let bits = self.flags() | digit_separator_to_flags(self.digit_separator)
                | decimal_point_to_flags(self.decimal_point) | exponent_decimal_to_flags(
                self.exponent_decimal,
            ) | exponent_backup_to_flags(self.exponent_backup);
            Some(NumberFormat { bits })
        } else {
            None
        }
    }
}

/// A flag that is set or not holds no bit but its own.
proof fn lemma_flag_bit(set: bool, flag: u64)
    ensures
        spec_flag_bit(set, flag) & !flag == 0,
{
    reveal(spec_flag_bit);
    assert(flag & !flag == 0 && 0u64 & !flag == 0) by (bit_vector);
}

/// A word that holds of a flag what was given holds the flag if and only
/// if it was set.
proof fn lemma_flag_is_set(word: u64, set: bool, flag: u64)
    requires
        flag != 0,
        word & flag == spec_flag_bit(set, flag),
    ensures
        (NumberFormat { bits: word }).has(flag) == set,
{
    reveal(spec_flag_bit);
}

/// Each flag of the parts holds no bit but its own.
proof fn lemma_flag_bits(builder: NumberFormatBuilder)
    ensures
        spec_flag_bit(builder.required_integer_digits, REQUIRED_INTEGER_DIGITS) & !REQUIRED_INTEGER_DIGITS == 0,
        spec_flag_bit(builder.required_fraction_digits, REQUIRED_FRACTION_DIGITS) & !REQUIRED_FRACTION_DIGITS == 0,
        spec_flag_bit(builder.required_exponent_digits, REQUIRED_EXPONENT_DIGITS) & !REQUIRED_EXPONENT_DIGITS == 0,
        spec_flag_bit(builder.no_positive_mantissa_sign, NO_POSITIVE_MANTISSA_SIGN) & !NO_POSITIVE_MANTISSA_SIGN == 0,
        spec_flag_bit(builder.required_mantissa_sign, REQUIRED_MANTISSA_SIGN) & !REQUIRED_MANTISSA_SIGN == 0,
        spec_flag_bit(builder.no_exponent_notation, NO_EXPONENT_NOTATION) & !NO_EXPONENT_NOTATION == 0,
        spec_flag_bit(builder.no_positive_exponent_sign, NO_POSITIVE_EXPONENT_SIGN) & !NO_POSITIVE_EXPONENT_SIGN == 0,
        spec_flag_bit(builder.required_exponent_sign, REQUIRED_EXPONENT_SIGN) & !REQUIRED_EXPONENT_SIGN == 0,
        spec_flag_bit(builder.no_exponent_without_fraction, NO_EXPONENT_WITHOUT_FRACTION) & !NO_EXPONENT_WITHOUT_FRACTION == 0,
        spec_flag_bit(builder.no_special, NO_SPECIAL) & !NO_SPECIAL == 0,
        spec_flag_bit(builder.case_sensitive_special, CASE_SENSITIVE_SPECIAL) & !CASE_SENSITIVE_SPECIAL == 0,
        spec_flag_bit(builder.no_integer_leading_zeros, NO_INTEGER_LEADING_ZEROS) & !NO_INTEGER_LEADING_ZEROS == 0,
        spec_flag_bit(builder.no_float_leading_zeros, NO_FLOAT_LEADING_ZEROS) & !NO_FLOAT_LEADING_ZEROS == 0,
        spec_flag_bit(builder.required_exponent_notation, REQUIRED_EXPONENT_NOTATION) & !REQUIRED_EXPONENT_NOTATION == 0,
        spec_flag_bit(builder.integer_internal_digit_separator, INTEGER_INTERNAL_DIGIT_SEPARATOR) & !INTEGER_INTERNAL_DIGIT_SEPARATOR == 0,
        spec_flag_bit(builder.fraction_internal_digit_separator, FRACTION_INTERNAL_DIGIT_SEPARATOR) & !FRACTION_INTERNAL_DIGIT_SEPARATOR == 0,
        spec_flag_bit(builder.exponent_internal_digit_separator, EXPONENT_INTERNAL_DIGIT_SEPARATOR) & !EXPONENT_INTERNAL_DIGIT_SEPARATOR == 0,
        spec_flag_bit(builder.integer_leading_digit_separator, INTEGER_LEADING_DIGIT_SEPARATOR) & !INTEGER_LEADING_DIGIT_SEPARATOR == 0,
        spec_flag_bit(builder.fraction_leading_digit_separator, FRACTION_LEADING_DIGIT_SEPARATOR) & !FRACTION_LEADING_DIGIT_SEPARATOR == 0,
        spec_flag_bit(builder.exponent_leading_digit_separator, EXPONENT_LEADING_DIGIT_SEPARATOR) & !EXPONENT_LEADING_DIGIT_SEPARATOR == 0,
        spec_flag_bit(builder.integer_trailing_digit_separator, INTEGER_TRAILING_DIGIT_SEPARATOR) & !INTEGER_TRAILING_DIGIT_SEPARATOR == 0,
        spec_flag_bit(builder.fraction_trailing_digit_separator, FRACTION_TRAILING_DIGIT_SEPARATOR) & !FRACTION_TRAILING_DIGIT_SEPARATOR == 0,
        spec_flag_bit(builder.exponent_trailing_digit_separator, EXPONENT_TRAILING_DIGIT_SEPARATOR) & !EXPONENT_TRAILING_DIGIT_SEPARATOR == 0,
        spec_flag_bit(builder.integer_consecutive_digit_separator, INTEGER_CONSECUTIVE_DIGIT_SEPARATOR) & !INTEGER_CONSECUTIVE_DIGIT_SEPARATOR == 0,
        spec_flag_bit(builder.fraction_consecutive_digit_separator, FRACTION_CONSECUTIVE_DIGIT_SEPARATOR) & !FRACTION_CONSECUTIVE_DIGIT_SEPARATOR == 0,
        spec_flag_bit(builder.exponent_consecutive_digit_separator, EXPONENT_CONSECUTIVE_DIGIT_SEPARATOR) & !EXPONENT_CONSECUTIVE_DIGIT_SEPARATOR == 0,
        spec_flag_bit(builder.special_digit_separator, SPECIAL_DIGIT_SEPARATOR) & !SPECIAL_DIGIT_SEPARATOR == 0,
{
    lemma_flag_bit(builder.required_integer_digits, REQUIRED_INTEGER_DIGITS);
    lemma_flag_bit(builder.required_fraction_digits, REQUIRED_FRACTION_DIGITS);
    lemma_flag_bit(builder.required_exponent_digits, REQUIRED_EXPONENT_DIGITS);
    lemma_flag_bit(builder.no_positive_mantissa_sign, NO_POSITIVE_MANTISSA_SIGN);
    lemma_flag_bit(builder.required_mantissa_sign, REQUIRED_MANTISSA_SIGN);
    lemma_flag_bit(builder.no_exponent_notation, NO_EXPONENT_NOTATION);
    lemma_flag_bit(builder.no_positive_exponent_sign, NO_POSITIVE_EXPONENT_SIGN);
    lemma_flag_bit(builder.required_exponent_sign, REQUIRED_EXPONENT_SIGN);
    lemma_flag_bit(builder.no_exponent_without_fraction, NO_EXPONENT_WITHOUT_FRACTION);
    lemma_flag_bit(builder.no_special, NO_SPECIAL);
    lemma_flag_bit(builder.case_sensitive_special, CASE_SENSITIVE_SPECIAL);
    lemma_flag_bit(builder.no_integer_leading_zeros, NO_INTEGER_LEADING_ZEROS);
    lemma_flag_bit(builder.no_float_leading_zeros, NO_FLOAT_LEADING_ZEROS);
    lemma_flag_bit(builder.required_exponent_notation, REQUIRED_EXPONENT_NOTATION);
    lemma_flag_bit(builder.integer_internal_digit_separator, INTEGER_INTERNAL_DIGIT_SEPARATOR);
    lemma_flag_bit(builder.fraction_internal_digit_separator, FRACTION_INTERNAL_DIGIT_SEPARATOR);
    lemma_flag_bit(builder.exponent_internal_digit_separator, EXPONENT_INTERNAL_DIGIT_SEPARATOR);
    lemma_flag_bit(builder.integer_leading_digit_separator, INTEGER_LEADING_DIGIT_SEPARATOR);
    lemma_flag_bit(builder.fraction_leading_digit_separator, FRACTION_LEADING_DIGIT_SEPARATOR);
    lemma_flag_bit(builder.exponent_leading_digit_separator, EXPONENT_LEADING_DIGIT_SEPARATOR);
    lemma_flag_bit(builder.integer_trailing_digit_separator, INTEGER_TRAILING_DIGIT_SEPARATOR);
    lemma_flag_bit(builder.fraction_trailing_digit_separator, FRACTION_TRAILING_DIGIT_SEPARATOR);
    lemma_flag_bit(builder.exponent_trailing_digit_separator, EXPONENT_TRAILING_DIGIT_SEPARATOR);
    lemma_flag_bit(builder.integer_consecutive_digit_separator, INTEGER_CONSECUTIVE_DIGIT_SEPARATOR);
    lemma_flag_bit(builder.fraction_consecutive_digit_separator, FRACTION_CONSECUTIVE_DIGIT_SEPARATOR);
    lemma_flag_bit(builder.exponent_consecutive_digit_separator, EXPONENT_CONSECUTIVE_DIGIT_SEPARATOR);
    lemma_flag_bit(builder.special_digit_separator, SPECIAL_DIGIT_SEPARATOR);
}

/// The two groups of flags hold no bit of each other or of the
/// punctuation, and the word is each group beside the rest.
proof fn lemma_built_groups(builder: NumberFormatBuilder)
    ensures
        builder.spec_flags() & crate::flags::PUNCTUATION_BITS == 0,
        builder.spec_word() == builder.spec_component_flags() | builder.spec_rest_of_components(),
        builder.spec_word() == builder.spec_separator_flags() | builder.spec_rest_of_separators(),
        builder.spec_rest_of_components() & crate::flags::FLAG_MASK == 0,
        builder.spec_rest_of_separators() & crate::flags::SEPARATOR_BITS == 0,
{
    let low = builder.spec_component_flags();
    let separators = builder.spec_separator_flags();
    let f0 = spec_to_flags(builder.digit_separator, DIGIT_SEPARATOR_SHIFT);
    let f1 = spec_to_flags(builder.decimal_point, DECIMAL_POINT_SHIFT);
    let f2 = spec_to_flags(builder.exponent_decimal, EXPONENT_DECIMAL_SHIFT);
    let f3 = spec_to_flags(builder.exponent_backup, EXPONENT_BACKUP_SHIFT);
    crate::flags::lemma_packed_within_field(builder.digit_separator);
    crate::flags::lemma_packed_within_field(builder.decimal_point);
    crate::flags::lemma_packed_within_field(builder.exponent_decimal);
    crate::flags::lemma_packed_within_field(builder.exponent_backup);
    lemma_flag_bits(builder);
    crate::flags::lemma_components_within(
        spec_flag_bit(builder.required_integer_digits, REQUIRED_INTEGER_DIGITS),
        spec_flag_bit(builder.required_fraction_digits, REQUIRED_FRACTION_DIGITS),
        spec_flag_bit(builder.required_exponent_digits, REQUIRED_EXPONENT_DIGITS),
        spec_flag_bit(builder.no_positive_mantissa_sign, NO_POSITIVE_MANTISSA_SIGN),
        spec_flag_bit(builder.required_mantissa_sign, REQUIRED_MANTISSA_SIGN),
        spec_flag_bit(builder.no_exponent_notation, NO_EXPONENT_NOTATION),
        spec_flag_bit(builder.no_positive_exponent_sign, NO_POSITIVE_EXPONENT_SIGN),
        spec_flag_bit(builder.required_exponent_sign, REQUIRED_EXPONENT_SIGN),
        spec_flag_bit(builder.no_exponent_without_fraction, NO_EXPONENT_WITHOUT_FRACTION),
        spec_flag_bit(builder.no_special, NO_SPECIAL),
        spec_flag_bit(builder.case_sensitive_special, CASE_SENSITIVE_SPECIAL),
        spec_flag_bit(builder.no_integer_leading_zeros, NO_INTEGER_LEADING_ZEROS),
        spec_flag_bit(builder.no_float_leading_zeros, NO_FLOAT_LEADING_ZEROS),
        spec_flag_bit(builder.required_exponent_notation, REQUIRED_EXPONENT_NOTATION),
    );
    crate::flags::lemma_separators_within(
        spec_flag_bit(builder.integer_internal_digit_separator, INTEGER_INTERNAL_DIGIT_SEPARATOR),
        spec_flag_bit(builder.fraction_internal_digit_separator, FRACTION_INTERNAL_DIGIT_SEPARATOR),
        spec_flag_bit(builder.exponent_internal_digit_separator, EXPONENT_INTERNAL_DIGIT_SEPARATOR),
        spec_flag_bit(builder.integer_leading_digit_separator, INTEGER_LEADING_DIGIT_SEPARATOR),
        spec_flag_bit(builder.fraction_leading_digit_separator, FRACTION_LEADING_DIGIT_SEPARATOR),
        spec_flag_bit(builder.exponent_leading_digit_separator, EXPONENT_LEADING_DIGIT_SEPARATOR),
        spec_flag_bit(builder.integer_trailing_digit_separator, INTEGER_TRAILING_DIGIT_SEPARATOR),
        spec_flag_bit(builder.fraction_trailing_digit_separator, FRACTION_TRAILING_DIGIT_SEPARATOR),
        spec_flag_bit(builder.exponent_trailing_digit_separator, EXPONENT_TRAILING_DIGIT_SEPARATOR),
        spec_flag_bit(builder.integer_consecutive_digit_separator, INTEGER_CONSECUTIVE_DIGIT_SEPARATOR),
        spec_flag_bit(builder.fraction_consecutive_digit_separator, FRACTION_CONSECUTIVE_DIGIT_SEPARATOR),
        spec_flag_bit(builder.exponent_consecutive_digit_separator, EXPONENT_CONSECUTIVE_DIGIT_SEPARATOR),
        spec_flag_bit(builder.special_digit_separator, SPECIAL_DIGIT_SEPARATOR),
    );
    crate::flags::lemma_word_in_groups(low, separators, f0, f1, f2, f3);
}

/// A word holds the flags on the components that it was built from.
proof fn lemma_built_components(builder: NumberFormatBuilder)
    ensures
        (NumberFormat { bits: builder.spec_word() }).has(REQUIRED_INTEGER_DIGITS) == builder.required_integer_digits,
        (NumberFormat { bits: builder.spec_word() }).has(REQUIRED_FRACTION_DIGITS) == builder.required_fraction_digits,
        (NumberFormat { bits: builder.spec_word() }).has(REQUIRED_EXPONENT_DIGITS) == builder.required_exponent_digits,
        (NumberFormat { bits: builder.spec_word() }).has(NO_POSITIVE_MANTISSA_SIGN) == builder.no_positive_mantissa_sign,
        (NumberFormat { bits: builder.spec_word() }).has(REQUIRED_MANTISSA_SIGN) == builder.required_mantissa_sign,
        (NumberFormat { bits: builder.spec_word() }).has(NO_EXPONENT_NOTATION) == builder.no_exponent_notation,
        (NumberFormat { bits: builder.spec_word() }).has(NO_POSITIVE_EXPONENT_SIGN) == builder.no_positive_exponent_sign,
        (NumberFormat { bits: builder.spec_word() }).has(REQUIRED_EXPONENT_SIGN) == builder.required_exponent_sign,
        (NumberFormat { bits: builder.spec_word() }).has(NO_EXPONENT_WITHOUT_FRACTION) == builder.no_exponent_without_fraction,
        (NumberFormat { bits: builder.spec_word() }).has(NO_SPECIAL) == builder.no_special,
        (NumberFormat { bits: builder.spec_word() }).has(CASE_SENSITIVE_SPECIAL) == builder.case_sensitive_special,
        (NumberFormat { bits: builder.spec_word() }).has(NO_INTEGER_LEADING_ZEROS) == builder.no_integer_leading_zeros,
        (NumberFormat { bits: builder.spec_word() }).has(NO_FLOAT_LEADING_ZEROS) == builder.no_float_leading_zeros,
        (NumberFormat { bits: builder.spec_word() }).has(REQUIRED_EXPONENT_NOTATION) == builder.required_exponent_notation,
{
    let word = builder.spec_word();
    lemma_built_groups(builder);
    lemma_flag_bits(builder);
    crate::flags::lemma_component_flags(
        spec_flag_bit(builder.required_integer_digits, REQUIRED_INTEGER_DIGITS),
        spec_flag_bit(builder.required_fraction_digits, REQUIRED_FRACTION_DIGITS),
        spec_flag_bit(builder.required_exponent_digits, REQUIRED_EXPONENT_DIGITS),
        spec_flag_bit(builder.no_positive_mantissa_sign, NO_POSITIVE_MANTISSA_SIGN),
        spec_flag_bit(builder.required_mantissa_sign, REQUIRED_MANTISSA_SIGN),
        spec_flag_bit(builder.no_exponent_notation, NO_EXPONENT_NOTATION),
        spec_flag_bit(builder.no_positive_exponent_sign, NO_POSITIVE_EXPONENT_SIGN),
        spec_flag_bit(builder.required_exponent_sign, REQUIRED_EXPONENT_SIGN),
        spec_flag_bit(builder.no_exponent_without_fraction, NO_EXPONENT_WITHOUT_FRACTION),
        spec_flag_bit(builder.no_special, NO_SPECIAL),
        spec_flag_bit(builder.case_sensitive_special, CASE_SENSITIVE_SPECIAL),
        spec_flag_bit(builder.no_integer_leading_zeros, NO_INTEGER_LEADING_ZEROS),
        spec_flag_bit(builder.no_float_leading_zeros, NO_FLOAT_LEADING_ZEROS),
        spec_flag_bit(builder.required_exponent_notation, REQUIRED_EXPONENT_NOTATION),
        builder.spec_rest_of_components(),
    );
    lemma_flag_is_set(word, builder.required_integer_digits, REQUIRED_INTEGER_DIGITS);
    lemma_flag_is_set(word, builder.required_fraction_digits, REQUIRED_FRACTION_DIGITS);
    lemma_flag_is_set(word, builder.required_exponent_digits, REQUIRED_EXPONENT_DIGITS);
    lemma_flag_is_set(word, builder.no_positive_mantissa_sign, NO_POSITIVE_MANTISSA_SIGN);
    lemma_flag_is_set(word, builder.required_mantissa_sign, REQUIRED_MANTISSA_SIGN);
    lemma_flag_is_set(word, builder.no_exponent_notation, NO_EXPONENT_NOTATION);
    lemma_flag_is_set(word, builder.no_positive_exponent_sign, NO_POSITIVE_EXPONENT_SIGN);
    lemma_flag_is_set(word, builder.required_exponent_sign, REQUIRED_EXPONENT_SIGN);
    lemma_flag_is_set(word, builder.no_exponent_without_fraction, NO_EXPONENT_WITHOUT_FRACTION);
    lemma_flag_is_set(word, builder.no_special, NO_SPECIAL);
    lemma_flag_is_set(word, builder.case_sensitive_special, CASE_SENSITIVE_SPECIAL);
    lemma_flag_is_set(word, builder.no_integer_leading_zeros, NO_INTEGER_LEADING_ZEROS);
    lemma_flag_is_set(word, builder.no_float_leading_zeros, NO_FLOAT_LEADING_ZEROS);
    lemma_flag_is_set(word, builder.required_exponent_notation, REQUIRED_EXPONENT_NOTATION);
}

/// A word holds the flags on digit separators that it was built from.
proof fn lemma_built_separators(builder: NumberFormatBuilder)
    ensures
        (NumberFormat { bits: builder.spec_word() }).has(INTEGER_INTERNAL_DIGIT_SEPARATOR) == builder.integer_internal_digit_separator,
        (NumberFormat { bits: builder.spec_word() }).has(FRACTION_INTERNAL_DIGIT_SEPARATOR) == builder.fraction_internal_digit_separator,
        (NumberFormat { bits: builder.spec_word() }).has(EXPONENT_INTERNAL_DIGIT_SEPARATOR) == builder.exponent_internal_digit_separator,
        (NumberFormat { bits: builder.spec_word() }).has(INTEGER_LEADING_DIGIT_SEPARATOR) == builder.integer_leading_digit_separator,
        (NumberFormat { bits: builder.spec_word() }).has(FRACTION_LEADING_DIGIT_SEPARATOR) == builder.fraction_leading_digit_separator,
        (NumberFormat { bits: builder.spec_word() }).has(EXPONENT_LEADING_DIGIT_SEPARATOR) == builder.exponent_leading_digit_separator,
        (NumberFormat { bits: builder.spec_word() }).has(INTEGER_TRAILING_DIGIT_SEPARATOR) == builder.integer_trailing_digit_separator,
        (NumberFormat { bits: builder.spec_word() }).has(FRACTION_TRAILING_DIGIT_SEPARATOR) == builder.fraction_trailing_digit_separator,
        (NumberFormat { bits: builder.spec_word() }).has(EXPONENT_TRAILING_DIGIT_SEPARATOR) == builder.exponent_trailing_digit_separator,
        (NumberFormat { bits: builder.spec_word() }).has(INTEGER_CONSECUTIVE_DIGIT_SEPARATOR) == builder.integer_consecutive_digit_separator,
        (NumberFormat { bits: builder.spec_word() }).has(FRACTION_CONSECUTIVE_DIGIT_SEPARATOR) == builder.fraction_consecutive_digit_separator,
        (NumberFormat { bits: builder.spec_word() }).has(EXPONENT_CONSECUTIVE_DIGIT_SEPARATOR) == builder.exponent_consecutive_digit_separator,
        (NumberFormat { bits: builder.spec_word() }).has(SPECIAL_DIGIT_SEPARATOR) == builder.special_digit_separator,
{
    let word = builder.spec_word();
    lemma_built_groups(builder);
    lemma_flag_bits(builder);
    crate::flags::lemma_separator_flags(
        spec_flag_bit(builder.integer_internal_digit_separator, INTEGER_INTERNAL_DIGIT_SEPARATOR),
        spec_flag_bit(builder.fraction_internal_digit_separator, FRACTION_INTERNAL_DIGIT_SEPARATOR),
        spec_flag_bit(builder.exponent_internal_digit_separator, EXPONENT_INTERNAL_DIGIT_SEPARATOR),
        spec_flag_bit(builder.integer_leading_digit_separator, INTEGER_LEADING_DIGIT_SEPARATOR),
        spec_flag_bit(builder.fraction_leading_digit_separator, FRACTION_LEADING_DIGIT_SEPARATOR),
        spec_flag_bit(builder.exponent_leading_digit_separator, EXPONENT_LEADING_DIGIT_SEPARATOR),
        spec_flag_bit(builder.integer_trailing_digit_separator, INTEGER_TRAILING_DIGIT_SEPARATOR),
        spec_flag_bit(builder.fraction_trailing_digit_separator, FRACTION_TRAILING_DIGIT_SEPARATOR),
        spec_flag_bit(builder.exponent_trailing_digit_separator, EXPONENT_TRAILING_DIGIT_SEPARATOR),
        spec_flag_bit(builder.integer_consecutive_digit_separator, INTEGER_CONSECUTIVE_DIGIT_SEPARATOR),
        spec_flag_bit(builder.fraction_consecutive_digit_separator, FRACTION_CONSECUTIVE_DIGIT_SEPARATOR),
        spec_flag_bit(builder.exponent_consecutive_digit_separator, EXPONENT_CONSECUTIVE_DIGIT_SEPARATOR),
        spec_flag_bit(builder.special_digit_separator, SPECIAL_DIGIT_SEPARATOR),
        builder.spec_rest_of_separators(),
    );
    lemma_flag_is_set(word, builder.integer_internal_digit_separator, INTEGER_INTERNAL_DIGIT_SEPARATOR);
    lemma_flag_is_set(word, builder.fraction_internal_digit_separator, FRACTION_INTERNAL_DIGIT_SEPARATOR);
    lemma_flag_is_set(word, builder.exponent_internal_digit_separator, EXPONENT_INTERNAL_DIGIT_SEPARATOR);
    lemma_flag_is_set(word, builder.integer_leading_digit_separator, INTEGER_LEADING_DIGIT_SEPARATOR);
    lemma_flag_is_set(word, builder.fraction_leading_digit_separator, FRACTION_LEADING_DIGIT_SEPARATOR);
    lemma_flag_is_set(word, builder.exponent_leading_digit_separator, EXPONENT_LEADING_DIGIT_SEPARATOR);
    lemma_flag_is_set(word, builder.integer_trailing_digit_separator, INTEGER_TRAILING_DIGIT_SEPARATOR);
    lemma_flag_is_set(word, builder.fraction_trailing_digit_separator, FRACTION_TRAILING_DIGIT_SEPARATOR);
    lemma_flag_is_set(word, builder.exponent_trailing_digit_separator, EXPONENT_TRAILING_DIGIT_SEPARATOR);
    lemma_flag_is_set(word, builder.integer_consecutive_digit_separator, INTEGER_CONSECUTIVE_DIGIT_SEPARATOR);
    lemma_flag_is_set(word, builder.fraction_consecutive_digit_separator, FRACTION_CONSECUTIVE_DIGIT_SEPARATOR);
    lemma_flag_is_set(word, builder.exponent_consecutive_digit_separator, EXPONENT_CONSECUTIVE_DIGIT_SEPARATOR);
    lemma_flag_is_set(word, builder.special_digit_separator, SPECIAL_DIGIT_SEPARATOR);
}

/// A format holds what it was built from: built from parts whose
/// punctuation bytes are ASCII, and none of them zero but the digit
/// separator, it gives each part back.
pub proof fn lemma_build_keeps_parts(builder: NumberFormatBuilder)
    requires
        builder.digit_separator < 128,
        0 < builder.decimal_point < 128,
        0 < builder.exponent_decimal < 128,
        0 < builder.exponent_backup < 128,
    ensures
        (NumberFormat { bits: builder.spec_word() }).spec_rebuild() == builder,
{
    lemma_built_groups(builder);
    lemma_built_components(builder);
    lemma_built_separators(builder);
    crate::flags::lemma_punctuation_fields_are_independent(
        builder.spec_flags(),
        builder.digit_separator,
        builder.decimal_point,
        builder.exponent_decimal,
        builder.exponent_backup,
    );
    crate::flags::lemma_ascii_is_kept(builder.digit_separator);
    crate::flags::lemma_ascii_is_kept(builder.decimal_point);
    crate::flags::lemma_ascii_is_kept(builder.exponent_decimal);
    crate::flags::lemma_ascii_is_kept(builder.exponent_backup);
}

} // verus!

//! The settings of the parsers and writers: four immutable option types,
//! each checked when it is made, and their builders.

use vstd::prelude::*;

use crate::ascii::{CARET, LOWER_E, LOWER_I, LOWER_N, LOWER_P, MINUS, PLUS};
use crate::builder::{Buildable, Builder};
use crate::digit::{is_digit, is_digit_in, is_radix};
use crate::flags::spec_to_ascii_lowercase;
use crate::flags::to_ascii_lowercase;
use crate::format::{NumberFormat, BACKUP_EXPONENT_RADIX, STANDARD};
use crate::rounding::RoundingKind;

verus! {

/// The exponent character that is used where none is named.
pub const DEFAULT_EXPONENT_CHAR: u8 = LOWER_E;

/// The radix that is used where none is named.
pub const DEFAULT_RADIX: u8 = 10;

/// Whether the lossy parser is used where nothing is said.
pub const DEFAULT_LOSSY: bool = false;

/// Whether a trailing `.0` is trimmed where nothing is said.
pub const DEFAULT_TRIM_FLOATS: bool = false;

/// The bytes of `NaN`.
pub const DEFAULT_NAN_BYTES: [u8; 3] = [0x4E, 0x61, 0x4E];

/// The bytes of `inf`.
pub const DEFAULT_INF_BYTES: [u8; 3] = [0x69, 0x6E, 0x66];

/// The bytes of `infinity`.
pub const DEFAULT_INFINITY_BYTES: [u8; 8] = [0x69, 0x6E, 0x66, 0x69, 0x6E, 0x69, 0x74, 0x79];

/// The string `NaN`.
pub open spec fn spec_default_nan_string() -> Seq<u8> {
    seq![0x4Eu8, 0x61u8, 0x4Eu8]
}

/// The string `inf`.
pub open spec fn spec_default_inf_string() -> Seq<u8> {
    seq![0x69u8, 0x6Eu8, 0x66u8]
}

/// The string `infinity`.
pub open spec fn spec_default_infinity_string() -> Seq<u8> {
    seq![0x69u8, 0x6Eu8, 0x66u8, 0x69u8, 0x6Eu8, 0x69u8, 0x74u8, 0x79u8]
}

/// The string that stands for not-a-number where none is named: `NaN`.
pub fn default_nan_string() -> (r: &'static [u8])
    ensures
        r@ == spec_default_nan_string(),
{
    let r = vstd::array::array_as_slice(&DEFAULT_NAN_BYTES);
    assert(r@ =~= spec_default_nan_string());
    r
}

/// The short string that stands for infinity where none is named: `inf`.
pub fn default_inf_string() -> (r: &'static [u8])
    ensures
        r@ == spec_default_inf_string(),
{
    let r = vstd::array::array_as_slice(&DEFAULT_INF_BYTES);
    assert(r@ =~= spec_default_inf_string());
    r
}

/// The long string that stands for infinity where none is named: `infinity`.
pub fn default_infinity_string() -> (r: &'static [u8])
    ensures
        r@ == spec_default_infinity_string(),
{
    let r = vstd::array::array_as_slice(&DEFAULT_INFINITY_BYTES);
    assert(r@ =~= spec_default_infinity_string());
    r
}

/// The format that is used where none is named: the standard one.
pub open spec fn spec_default_format() -> NumberFormat {
    NumberFormat { bits: STANDARD }
}

/// The format that is used where none is named: the standard one.
pub fn default_format() -> (r: NumberFormat)
    ensures
        r == spec_default_format(),
{
    NumberFormat::from_bits(STANDARD)
}

/// The exponent character of a radix where none is named: `e`, or `^` from
/// the radix on in which `e` is a digit.
pub open spec fn spec_exponent_notation_char(radix: u32) -> u8 {
    if radix >= BACKUP_EXPONENT_RADIX {
        CARET
    } else {
        LOWER_E
    }
}

/// The exponent character of a radix where none is named.
pub fn exponent_notation_char(radix: u32) -> (r: u8)
    ensures
        r == spec_exponent_notation_char(radix),
        is_radix(radix) ==> !is_digit(r, radix),
{
    if radix >= BACKUP_EXPONENT_RADIX {
        CARET
    } else {
        LOWER_E
    }
}

/// Whether `bytes` starts with `letter` in either case; `letter` is the
/// lowercase one.
pub open spec fn starts_with_letter(bytes: Seq<u8>, letter: u8) -> bool {
    bytes.len() > 0 && spec_to_ascii_lowercase(bytes[0]) == letter
}

/// Check if byte array starts with case-insensitive N.
pub fn starts_with_n(bytes: &[u8]) -> (r: bool)
    ensures
        r == starts_with_letter(bytes@, LOWER_N),
{
    bytes.len() > 0 && to_ascii_lowercase(bytes[0]) == LOWER_N
}

/// Check if byte array starts with case-insensitive I.
pub fn starts_with_i(bytes: &[u8]) -> (r: bool)
    ensures
        r == starts_with_letter(bytes@, LOWER_I),
{
    bytes.len() > 0 && to_ascii_lowercase(bytes[0]) == LOWER_I
}

/// Get radix if radix is valid.
pub fn to_radix(radix: u8) -> (r: Option<u32>)
    ensures
        r == if is_radix(radix as u32) {
            Some(radix as u32)
        } else {
            None
        },
{
    if radix >= 2 && radix <= 36 {
        Some(radix as u32)
    } else {
        None
    }
}

/// Get exponent character if character is valid: if it is no digit of the
/// radix.
pub fn to_exponent_char(exponent_char: u8, radix: u32) -> (r: Option<u8>)
    requires
        is_radix(radix),
    ensures
        r == if is_digit(exponent_char, radix) {
            None
        } else {
            Some(exponent_char)
        },
{
    if is_digit_in(exponent_char, radix) {
        None
    } else {
        Some(exponent_char)
    }
}

/// Whether a digit separator can be told from what integers are made of in
/// `radix`: it is no digit of the radix and no sign.
pub open spec fn is_integer_separator(digit_separator: u8, radix: u32) -> bool {
    !is_digit(digit_separator, radix) && digit_separator != PLUS && digit_separator != MINUS
}

/// Whether a digit separator can be told from what floats are made of in
/// `radix`: it is no digit of the radix, no sign and not the exponent
/// character.
pub open spec fn is_float_separator(digit_separator: u8, radix: u32, exponent_char: u8) -> bool {
    is_integer_separator(digit_separator, radix) && digit_separator != exponent_char
}

/// Get number format if format is valid for integers in `radix`.
pub fn to_format_integer(format: NumberFormat, radix: u32) -> (r: Option<NumberFormat>)
    requires
        is_radix(radix),
    ensures
        r == if is_integer_separator(format.spec_digit_separator(), radix) {
            Some(format)
        } else {
            None
        },
{
    let digit_separator = format.digit_separator();
    if is_digit_in(digit_separator, radix) || digit_separator == PLUS || digit_separator == MINUS {
        None
    } else {
        Some(format)
    }
}

/// Get number format if format is valid for floats in `radix` with the
/// exponent character `exponent_char`.
pub fn to_format_float(format: NumberFormat, radix: u32, exponent_char: u8) -> (r: Option<
    NumberFormat,
>)
    requires
        is_radix(radix),
    ensures
        r == if is_float_separator(format.spec_digit_separator(), radix, exponent_char) {
            Some(format)
        } else {
            None
        },
{
    let digit_separator = format.digit_separator();
    if is_digit_in(digit_separator, radix) || digit_separator == PLUS || digit_separator == MINUS
        || digit_separator == exponent_char {
        None
    } else {
        Some(format)
    }
}

/// Get rounding if rounding is valid: every rounding is.
pub fn to_rounding(rounding: RoundingKind) -> (r: Option<RoundingKind>)
    ensures
        r == Some(rounding),
{
    Some(rounding)
}

/// Get nan string if string is valid: if it starts with `N` or `n`.
pub fn to_nan_string(nan_string: &'static [u8]) -> (r: Option<&'static [u8]>)
    ensures
        r == if starts_with_letter(nan_string@, LOWER_N) {
            Some(nan_string)
        } else {
            None
        },
{
    if starts_with_n(nan_string) {
        Some(nan_string)
    } else {
        None
    }
}

/// Get inf string if string is valid: if it starts with `I` or `i`.
pub fn to_inf_string(inf_string: &'static [u8]) -> (r: Option<&'static [u8]>)
    ensures
        r == if starts_with_letter(inf_string@, LOWER_I) {
            Some(inf_string)
        } else {
            None
        },
{
    if starts_with_i(inf_string) {
        Some(inf_string)
    } else {
        None
    }
}

/// Get infinity string if string is valid: if it starts with `I` or `i` and
/// is not shorter than the inf string.
pub fn to_infinity_string(infinity_string: &'static [u8], inf_string: &'static [u8]) -> (r:
    Option<&'static [u8]>)
    ensures
        r == if infinity_string@.len() >= inf_string@.len() && starts_with_letter(
            infinity_string@,
            LOWER_I,
        ) {
            Some(infinity_string)
        } else {
            None
        },
{
    let longer = infinity_string.len() >= inf_string.len();
    let starts_with = starts_with_i(infinity_string);
    if longer && starts_with {
        Some(infinity_string)
    } else {
        None
    }
}

/// Options to customize parsing integers.
#[derive(Clone, Copy, Debug)]
pub struct ParseIntegerOptions {
    /// The radix.
    radix: u32,
    /// The number format.
    format: NumberFormat,
}

impl ParseIntegerOptions {
    /// The radix.
    pub closed spec fn spec_radix(self) -> u32 {
        self.radix
    }

    /// The number format.
    pub closed spec fn spec_format(self) -> NumberFormat {
        self.format
    }

    /// Whether the options hold exactly these parts.
    pub open spec fn holds(self, radix: u32, format: NumberFormat) -> bool {
        &&& self.spec_radix() == radix
        &&& self.spec_format() == format
    }

    /// Whether parts fit together and so make options.
    pub open spec fn fits(radix: u32, format: NumberFormat) -> bool {
        &&& is_radix(radix)
        &&& is_integer_separator(format.spec_digit_separator(), radix)
    }

    /// What holds of all options: their parts fit together.
    #[verifier::type_invariant]
    pub open spec fn is_valid(self) -> bool {
        Self::fits(self.spec_radix(), self.spec_format())
    }

    /// Create new options using default values.
    pub fn new() -> (r: ParseIntegerOptions)
        ensures
            r.holds(10, spec_default_format()),
    {
        let format = default_format();
        proof {
            crate::flags::lemma_flags_only_word(STANDARD);
        }
        ParseIntegerOptions { radix: 10, format }
    }

    /// Create new options from radix and default values.
    pub fn from_radix(radix: u8) -> (r: Option<ParseIntegerOptions>)
        ensures
            r.is_some() == (is_radix(radix as u32)),
            r.is_some() ==> r.unwrap().holds(radix as u32, spec_default_format()),
    {
        let radix = match to_radix(radix) {
            Some(v) => v,
            None => return None,
        };
        let format = default_format();
        proof {
            crate::flags::lemma_flags_only_word(STANDARD);
        }
        Some(ParseIntegerOptions { radix, format })
    }

    /// Create new options from format and default values.
    pub fn from_format(format: NumberFormat) -> (r: Option<ParseIntegerOptions>)
        ensures
            r.is_some() == (Self::fits(10, format)),
            r.is_some() ==> r.unwrap().holds(10, format),
    {
        let format = match to_format_integer(format, 10) {
            Some(v) => v,
            None => return None,
        };
        Some(ParseIntegerOptions { radix: 10, format })
    }

    /// Create new options from format and radix.
    pub fn from_format_and_radix(format: NumberFormat, radix: u8) -> (r: Option<ParseIntegerOptions>)
        ensures
            r.is_some() == (Self::fits(radix as u32, format)),
            r.is_some() ==> r.unwrap().holds(radix as u32, format),
    {
        Self::create(radix, format)
    }

    /// Create new options from fields: the radix of the numbers and their format.
    pub fn create(radix: u8, format: NumberFormat) -> (r: Option<ParseIntegerOptions>)
        ensures
            r.is_some() == (Self::fits(radix as u32, format)),
            r.is_some() ==> r.unwrap().holds(radix as u32, format),
    {
        let radix = match to_radix(radix) {
            Some(v) => v,
            None => return None,
        };
        let format = match to_format_integer(format, radix) {
            Some(v) => v,
            None => return None,
        };
        Some(ParseIntegerOptions { radix, format })
    }

    /// Create new options to parse the default binary format.
    pub fn binary() -> (r: ParseIntegerOptions)
        ensures
            r.holds(2, spec_default_format()),
    {
        let format = default_format();
        proof {
            crate::flags::lemma_flags_only_word(STANDARD);
        }
        ParseIntegerOptions { radix: 2, format }
    }

    /// Create new options to parse the default decimal format.
    pub fn decimal() -> (r: ParseIntegerOptions)
        ensures
            r.holds(10, spec_default_format()),
    {
        let format = default_format();
        proof {
            crate::flags::lemma_flags_only_word(STANDARD);
        }
        ParseIntegerOptions { radix: 10, format }
    }

    /// Create new options to parse the default hexadecimal format.
    pub fn hexadecimal() -> (r: ParseIntegerOptions)
        ensures
            r.holds(16, spec_default_format()),
    {
        let format = default_format();
        proof {
            crate::flags::lemma_flags_only_word(STANDARD);
        }
        ParseIntegerOptions { radix: 16, format }
    }

    /// Get the radix.
    pub fn radix(&self) -> (r: u32)
        ensures
            r == self.spec_radix(),
    {
        self.radix
    }

    /// Get the number format.
    pub fn format(&self) -> (r: NumberFormat)
        ensures
            r == self.spec_format(),
    {
        self.format
    }

}

/// Options to customize parsing floats.
#[derive(Clone, Copy, Debug)]
pub struct ParseFloatOptions {
    /// If the lossy parser is used.
    lossy: bool,
    /// The character that starts the exponent.
    exponent_char: u8,
    /// The radix.
    radix: u32,
    /// The number format.
    format: NumberFormat,
    /// The rounding of values that lie between two floats.
    rounding: RoundingKind,
    /// The string that stands for not-a-number.
    nan_string: &'static [u8],
    /// The short string that stands for infinity.
    inf_string: &'static [u8],
    /// The long string that stands for infinity.
    infinity_string: &'static [u8],
}

impl ParseFloatOptions {
    /// If the lossy parser is used.
    pub closed spec fn spec_lossy(self) -> bool {
        self.lossy
    }

    /// The character that starts the exponent.
    pub closed spec fn spec_exponent_char(self) -> u8 {
        self.exponent_char
    }

    /// The radix.
    pub closed spec fn spec_radix(self) -> u32 {
        self.radix
    }

    /// The number format.
    pub closed spec fn spec_format(self) -> NumberFormat {
        self.format
    }

    /// The rounding of values that lie between two floats.
    pub closed spec fn spec_rounding(self) -> RoundingKind {
        self.rounding
    }

    /// The string that stands for not-a-number.
    pub closed spec fn spec_nan_string(self) -> Seq<u8> {
        self.nan_string@
    }

    /// The short string that stands for infinity.
    pub closed spec fn spec_inf_string(self) -> Seq<u8> {
        self.inf_string@
    }

    /// The long string that stands for infinity.
    pub closed spec fn spec_infinity_string(self) -> Seq<u8> {
        self.infinity_string@
    }

    /// Whether the options hold exactly these parts.
    pub open spec fn holds(self, lossy: bool, exponent_char: u8, radix: u32, format: NumberFormat, rounding: RoundingKind, nan_string: Seq<u8>, inf_string: Seq<u8>, infinity_string: Seq<u8>) -> bool {
        &&& self.spec_lossy() == lossy
        &&& self.spec_exponent_char() == exponent_char
        &&& self.spec_radix() == radix
        &&& self.spec_format() == format
        &&& self.spec_rounding() == rounding
        &&& self.spec_nan_string() == nan_string
        &&& self.spec_inf_string() == inf_string
        &&& self.spec_infinity_string() == infinity_string
    }

    /// Whether parts fit together and so make options.
    pub open spec fn fits(lossy: bool, exponent_char: u8, radix: u32, format: NumberFormat, rounding: RoundingKind, nan_string: Seq<u8>, inf_string: Seq<u8>, infinity_string: Seq<u8>) -> bool {
        &&& is_radix(radix)
        &&& !is_digit(exponent_char, radix)
        &&& is_float_separator(format.spec_digit_separator(), radix, exponent_char)
        &&& starts_with_letter(nan_string, LOWER_N)
        &&& starts_with_letter(inf_string, LOWER_I)
        &&& starts_with_letter(infinity_string, LOWER_I)
        &&& infinity_string.len() >= inf_string.len()
    }

    /// What holds of all options: their parts fit together.
    #[verifier::type_invariant]
    pub open spec fn is_valid(self) -> bool {
        Self::fits(self.spec_lossy(), self.spec_exponent_char(), self.spec_radix(), self.spec_format(), self.spec_rounding(), self.spec_nan_string(), self.spec_inf_string(), self.spec_infinity_string())
    }

    /// Create new options using default values.
    pub fn new() -> (r: ParseFloatOptions)
        ensures
            r.holds(false, LOWER_E, 10, spec_default_format(), RoundingKind::NearestTieEven, spec_default_nan_string(), spec_default_inf_string(), spec_default_infinity_string()),
    {
        let format = default_format();
        proof {
            crate::flags::lemma_flags_only_word(STANDARD);
        }
        let rounding = RoundingKind::NearestTieEven;
        let nan_string = default_nan_string();
        let inf_string = default_inf_string();
        let infinity_string = default_infinity_string();
        ParseFloatOptions { lossy: false, exponent_char: LOWER_E, radix: 10, format, rounding, nan_string, inf_string, infinity_string }
    }

    /// Create new options from lossy and default values.
    pub fn from_lossy(lossy: bool) -> (r: Option<ParseFloatOptions>)
        ensures
            r.is_some() == (true),
            r.is_some() ==> r.unwrap().holds(lossy, LOWER_E, 10, spec_default_format(), RoundingKind::NearestTieEven, spec_default_nan_string(), spec_default_inf_string(), spec_default_infinity_string()),
    {
        let format = default_format();
        proof {
            crate::flags::lemma_flags_only_word(STANDARD);
        }
        let rounding = RoundingKind::NearestTieEven;
        let nan_string = default_nan_string();
        let inf_string = default_inf_string();
        let infinity_string = default_infinity_string();
        Some(ParseFloatOptions { lossy, exponent_char: LOWER_E, radix: 10, format, rounding, nan_string, inf_string, infinity_string })
    }

    /// Create new options from radix and default values.
    pub fn from_radix(radix: u8) -> (r: Option<ParseFloatOptions>)
        ensures
            r.is_some() == (is_radix(radix as u32)),
            r.is_some() ==> r.unwrap().holds(false, spec_exponent_notation_char(radix as u32), radix as u32, spec_default_format(), RoundingKind::NearestTieEven, spec_default_nan_string(), spec_default_inf_string(), spec_default_infinity_string()),
    {
        let radix = match to_radix(radix) {
            Some(v) => v,
            None => return None,
        };
        let exponent_char = exponent_notation_char(radix);
        let format = default_format();
        proof {
            crate::flags::lemma_flags_only_word(STANDARD);
        }
        let rounding = RoundingKind::NearestTieEven;
        let nan_string = default_nan_string();
        let inf_string = default_inf_string();
        let infinity_string = default_infinity_string();
        Some(ParseFloatOptions { lossy: false, exponent_char, radix, format, rounding, nan_string, inf_string, infinity_string })
    }

    /// Create new options from format and default values.
    pub fn from_format(format: NumberFormat) -> (r: Option<ParseFloatOptions>)
        ensures
            r.is_some() == (is_float_separator(format.spec_digit_separator(), 10, LOWER_E)),
            r.is_some() ==> r.unwrap().holds(false, LOWER_E, 10, format, RoundingKind::NearestTieEven, spec_default_nan_string(), spec_default_inf_string(), spec_default_infinity_string()),
    {
        let format = match to_format_float(format, 10, LOWER_E) {
            Some(v) => v,
            None => return None,
        };
        let rounding = RoundingKind::NearestTieEven;
        let nan_string = default_nan_string();
        let inf_string = default_inf_string();
        let infinity_string = default_infinity_string();
        Some(ParseFloatOptions { lossy: false, exponent_char: LOWER_E, radix: 10, format, rounding, nan_string, inf_string, infinity_string })
    }

    /// Create new options from format and radix.
    pub fn from_format_and_radix(format: NumberFormat, radix: u8) -> (r: Option<ParseFloatOptions>)
        ensures
            r.is_some() == (is_radix(radix as u32) && is_float_separator(format.spec_digit_separator(), radix as u32, spec_exponent_notation_char(radix as u32))),
            r.is_some() ==> r.unwrap().holds(false, spec_exponent_notation_char(radix as u32), radix as u32, format, RoundingKind::NearestTieEven, spec_default_nan_string(), spec_default_inf_string(), spec_default_infinity_string()),
    {
        let radix = match to_radix(radix) {
            Some(v) => v,
            None => return None,
        };
        let exponent_char = exponent_notation_char(radix);
        let format = match to_format_float(format, radix, exponent_char) {
            Some(v) => v,
            None => return None,
        };
        let rounding = RoundingKind::NearestTieEven;
        let nan_string = default_nan_string();
        let inf_string = default_inf_string();
        let infinity_string = default_infinity_string();
        Some(ParseFloatOptions { lossy: false, exponent_char, radix, format, rounding, nan_string, inf_string, infinity_string })
    }

    /// Create new options from lossy, radix and default values.
    pub fn from_lossy_and_radix(lossy: bool, radix: u8) -> (r: Option<ParseFloatOptions>)
        ensures
            r.is_some() == (is_radix(radix as u32)),
            r.is_some() ==> r.unwrap().holds(lossy, spec_exponent_notation_char(radix as u32), radix as u32, spec_default_format(), RoundingKind::NearestTieEven, spec_default_nan_string(), spec_default_inf_string(), spec_default_infinity_string()),
    {
        let radix = match to_radix(radix) {
            Some(v) => v,
            None => return None,
        };
        let exponent_char = exponent_notation_char(radix);
        let format = default_format();
        proof {
            crate::flags::lemma_flags_only_word(STANDARD);
        }
        let rounding = RoundingKind::NearestTieEven;
        let nan_string = default_nan_string();
        let inf_string = default_inf_string();
        let infinity_string = default_infinity_string();
        Some(ParseFloatOptions { lossy, exponent_char, radix, format, rounding, nan_string, inf_string, infinity_string })
    }

    /// Create new options from lossy, format and default values.
    pub fn from_lossy_and_format(lossy: bool, format: NumberFormat) -> (r: Option<ParseFloatOptions>)
        ensures
            r.is_some() == (is_float_separator(format.spec_digit_separator(), 10, LOWER_E)),
            r.is_some() ==> r.unwrap().holds(lossy, LOWER_E, 10, format, RoundingKind::NearestTieEven, spec_default_nan_string(), spec_default_inf_string(), spec_default_infinity_string()),
    {
        let format = match to_format_float(format, 10, LOWER_E) {
            Some(v) => v,
            None => return None,
        };
        let rounding = RoundingKind::NearestTieEven;
        let nan_string = default_nan_string();
        let inf_string = default_inf_string();
        let infinity_string = default_infinity_string();
        Some(ParseFloatOptions { lossy, exponent_char: LOWER_E, radix: 10, format, rounding, nan_string, inf_string, infinity_string })
    }

    /// Create new options from lossy, format and radix.
    pub fn from_lossy_and_format_and_radix(lossy: bool, format: NumberFormat, radix: u8) -> (r: Option<ParseFloatOptions>)
        ensures
            r.is_some() == (is_radix(radix as u32) && is_float_separator(format.spec_digit_separator(), radix as u32, spec_exponent_notation_char(radix as u32))),
            r.is_some() ==> r.unwrap().holds(lossy, spec_exponent_notation_char(radix as u32), radix as u32, format, RoundingKind::NearestTieEven, spec_default_nan_string(), spec_default_inf_string(), spec_default_infinity_string()),
    {
        let radix = match to_radix(radix) {
            Some(v) => v,
            None => return None,
        };
        let exponent_char = exponent_notation_char(radix);
        let format = match to_format_float(format, radix, exponent_char) {
            Some(v) => v,
            None => return None,
        };
        let rounding = RoundingKind::NearestTieEven;
        let nan_string = default_nan_string();
        let inf_string = default_inf_string();
        let infinity_string = default_infinity_string();
        Some(ParseFloatOptions { lossy, exponent_char, radix, format, rounding, nan_string, inf_string, infinity_string })
    }

    /// Create new options from fields.
    ///
    /// * `lossy`           - Use the lossy, fast parser.
    /// * `exponent_char`   - Character to designate exponent component.
    /// * `radix`           - Radix for the number parsing.
    /// * `format`          - Numerical format.
    /// * `rounding`        - Rounding kind for float.
    /// * `nan_string`      - String representation of Not A Number.
    /// * `inf_string`      - String representation of short infinity.
    /// * `infinity_string` - String representation of long infinity.
    ///
    /// The options are made if and only if the fields fit together.
    pub fn create(lossy: bool, exponent_char: u8, radix: u8, format: NumberFormat, rounding: RoundingKind, nan_string: &'static [u8], inf_string: &'static [u8], infinity_string: &'static [u8]) -> (r: Option<ParseFloatOptions>)
        ensures
            r.is_some() == (Self::fits(lossy, exponent_char, radix as u32, format, rounding, nan_string@, inf_string@, infinity_string@)),
            r.is_some() ==> r.unwrap().holds(lossy, exponent_char, radix as u32, format, rounding, nan_string@, inf_string@, infinity_string@),
    {
        let radix = match to_radix(radix) {
            Some(v) => v,
            None => return None,
        };
        let exponent_char = match to_exponent_char(exponent_char, radix) {
            Some(v) => v,
            None => return None,
        };
        let format = match to_format_float(format, radix, exponent_char) {
            Some(v) => v,
            None => return None,
        };
        let rounding = match to_rounding(rounding) {
            Some(v) => v,
            None => return None,
        };
        let nan_string = match to_nan_string(nan_string) {
            Some(v) => v,
            None => return None,
        };
        let inf_string = match to_inf_string(inf_string) {
            Some(v) => v,
            None => return None,
        };
        let infinity_string = match to_infinity_string(infinity_string, inf_string) {
            Some(v) => v,
            None => return None,
        };
        Some(ParseFloatOptions { lossy, exponent_char, radix, format, rounding, nan_string, inf_string, infinity_string })
    }

    /// Create new options to parse the default binary format.
    pub fn binary() -> (r: ParseFloatOptions)
        ensures
            r.holds(false, LOWER_E, 2, spec_default_format(), RoundingKind::NearestTieEven, spec_default_nan_string(), spec_default_inf_string(), spec_default_infinity_string()),
    {
        let format = default_format();
        proof {
            crate::flags::lemma_flags_only_word(STANDARD);
        }
        let rounding = RoundingKind::NearestTieEven;
        let nan_string = default_nan_string();
        let inf_string = default_inf_string();
        let infinity_string = default_infinity_string();
        ParseFloatOptions { lossy: false, exponent_char: LOWER_E, radix: 2, format, rounding, nan_string, inf_string, infinity_string }
    }

    /// Create new options to parse the default decimal format.
    pub fn decimal() -> (r: ParseFloatOptions)
        ensures
            r.holds(false, LOWER_E, 10, spec_default_format(), RoundingKind::NearestTieEven, spec_default_nan_string(), spec_default_inf_string(), spec_default_infinity_string()),
    {
        let format = default_format();
        proof {
            crate::flags::lemma_flags_only_word(STANDARD);
        }
        let rounding = RoundingKind::NearestTieEven;
        let nan_string = default_nan_string();
        let inf_string = default_inf_string();
        let infinity_string = default_infinity_string();
        ParseFloatOptions { lossy: false, exponent_char: LOWER_E, radix: 10, format, rounding, nan_string, inf_string, infinity_string }
    }

    /// Create new options to parse the default hexadecimal format.
    pub fn hexadecimal() -> (r: ParseFloatOptions)
        ensures
            r.holds(false, LOWER_P, 16, spec_default_format(), RoundingKind::NearestTieEven, spec_default_nan_string(), spec_default_inf_string(), spec_default_infinity_string()),
    {
        let format = default_format();
        proof {
            crate::flags::lemma_flags_only_word(STANDARD);
        }
        let rounding = RoundingKind::NearestTieEven;
        let nan_string = default_nan_string();
        let inf_string = default_inf_string();
        let infinity_string = default_infinity_string();
        ParseFloatOptions { lossy: false, exponent_char: LOWER_P, radix: 16, format, rounding, nan_string, inf_string, infinity_string }
    }

    /// Get if the lossy parser is used.
    pub fn lossy(&self) -> (r: bool)
        ensures
            r == self.spec_lossy(),
    {
        self.lossy
    }

    /// Get the character that starts the exponent.
    pub fn exponent_char(&self) -> (r: u8)
        ensures
            r == self.spec_exponent_char(),
    {
        self.exponent_char
    }

    /// Get the radix.
    pub fn radix(&self) -> (r: u32)
        ensures
            r == self.spec_radix(),
    {
        self.radix
    }

    /// Get the number format.
    pub fn format(&self) -> (r: NumberFormat)
        ensures
            r == self.spec_format(),
    {
        self.format
    }

    /// Get the rounding of values that lie between two floats.
    pub fn rounding(&self) -> (r: RoundingKind)
        ensures
            r == self.spec_rounding(),
    {
        self.rounding
    }

    /// Get the string that stands for not-a-number.
    pub fn nan_string(&self) -> (r: &'static [u8])
        ensures
            r@ == self.spec_nan_string(),
    {
        self.nan_string
    }

    /// Get the short string that stands for infinity.
    pub fn inf_string(&self) -> (r: &'static [u8])
        ensures
            r@ == self.spec_inf_string(),
    {
        self.inf_string
    }

    /// Get the long string that stands for infinity.
    pub fn infinity_string(&self) -> (r: &'static [u8])
        ensures
            r@ == self.spec_infinity_string(),
    {
        self.infinity_string
    }

}

/// Immutable options to customize writing integers.
#[derive(Clone, Copy, Debug)]
pub struct WriteIntegerOptions {
    /// The radix.
    radix: u32,
}

impl WriteIntegerOptions {
    /// The radix.
    pub closed spec fn spec_radix(self) -> u32 {
        self.radix
    }

    /// Whether the options hold exactly these parts.
    pub open spec fn holds(self, radix: u32) -> bool {
        &&& self.spec_radix() == radix
    }

    /// Whether parts fit together and so make options.
    pub open spec fn fits(radix: u32) -> bool {
        &&& is_radix(radix)
    }

    /// What holds of all options: their parts fit together.
    #[verifier::type_invariant]
    pub open spec fn is_valid(self) -> bool {
        Self::fits(self.spec_radix())
    }

    /// Create new options using default values.
    pub fn new() -> (r: WriteIntegerOptions)
        ensures
            r.holds(10),
    {
        WriteIntegerOptions { radix: 10 }
    }

    /// Create new options from radix and default values.
    pub fn from_radix(radix: u8) -> (r: Option<WriteIntegerOptions>)
        ensures
            r.is_some() == (is_radix(radix as u32)),
            r.is_some() ==> r.unwrap().holds(radix as u32),
    {
        let radix = match to_radix(radix) {
            Some(v) => v,
            None => return None,
        };
        Some(WriteIntegerOptions { radix })
    }

    /// Create new options from fields: the radix of the numbers.
    pub fn create(radix: u8) -> (r: Option<WriteIntegerOptions>)
        ensures
            r.is_some() == (is_radix(radix as u32)),
            r.is_some() ==> r.unwrap().holds(radix as u32),
    {
        let radix = match to_radix(radix) {
            Some(v) => v,
            None => return None,
        };
        Some(WriteIntegerOptions { radix })
    }

    /// Create new options to write the default binary format.
    pub fn binary() -> (r: WriteIntegerOptions)
        ensures
            r.holds(2),
    {
        WriteIntegerOptions { radix: 2 }
    }

    /// Create new options to write the default decimal format.
    pub fn decimal() -> (r: WriteIntegerOptions)
        ensures
            r.holds(10),
    {
        WriteIntegerOptions { radix: 10 }
    }

    /// Create new options to write the default hexadecimal format.
    pub fn hexadecimal() -> (r: WriteIntegerOptions)
        ensures
            r.holds(16),
    {
        WriteIntegerOptions { radix: 16 }
    }

    /// Get the radix.
    pub fn radix(&self) -> (r: u32)
        ensures
            r == self.spec_radix(),
    {
        self.radix
    }

}

/// Options to customize writing floats.
#[derive(Clone, Copy, Debug)]
pub struct WriteFloatOptions {
    /// The character that starts the exponent.
    exponent_char: u8,
    /// The radix.
    radix: u32,
    /// If a trailing `.0` is trimmed from floats that are integers.
    trim_floats: bool,
    /// The string that stands for not-a-number.
    nan_string: &'static [u8],
    /// The string that stands for infinity.
    inf_string: &'static [u8],
}

impl WriteFloatOptions {
    /// The character that starts the exponent.
    pub closed spec fn spec_exponent_char(self) -> u8 {
        self.exponent_char
    }

    /// The radix.
    pub closed spec fn spec_radix(self) -> u32 {
        self.radix
    }

    /// If a trailing `.0` is trimmed from floats that are integers.
    pub closed spec fn spec_trim_floats(self) -> bool {
        self.trim_floats
    }

    /// The string that stands for not-a-number.
    pub closed spec fn spec_nan_string(self) -> Seq<u8> {
        self.nan_string@
    }

    /// The string that stands for infinity.
    pub closed spec fn spec_inf_string(self) -> Seq<u8> {
        self.inf_string@
    }

    /// Whether the options hold exactly these parts.
    pub open spec fn holds(self, exponent_char: u8, radix: u32, trim_floats: bool, nan_string: Seq<u8>, inf_string: Seq<u8>) -> bool {
        &&& self.spec_exponent_char() == exponent_char
        &&& self.spec_radix() == radix
        &&& self.spec_trim_floats() == trim_floats
        &&& self.spec_nan_string() == nan_string
        &&& self.spec_inf_string() == inf_string
    }

    /// Whether parts fit together and so make options.
    pub open spec fn fits(exponent_char: u8, radix: u32, trim_floats: bool, nan_string: Seq<u8>, inf_string: Seq<u8>) -> bool {
        &&& is_radix(radix)
        &&& !is_digit(exponent_char, radix)
        &&& starts_with_letter(nan_string, LOWER_N)
        &&& starts_with_letter(inf_string, LOWER_I)
    }

    /// What holds of all options: their parts fit together.
    #[verifier::type_invariant]
    pub open spec fn is_valid(self) -> bool {
        Self::fits(self.spec_exponent_char(), self.spec_radix(), self.spec_trim_floats(), self.spec_nan_string(), self.spec_inf_string())
    }

    /// Create new options using default values.
    pub fn new() -> (r: WriteFloatOptions)
        ensures
            r.holds(LOWER_E, 10, false, spec_default_nan_string(), spec_default_inf_string()),
    {
        let nan_string = default_nan_string();
        let inf_string = default_inf_string();
        WriteFloatOptions { exponent_char: LOWER_E, radix: 10, trim_floats: false, nan_string, inf_string }
    }

    /// Create new options from radix and default values.
    pub fn from_radix(radix: u8) -> (r: Option<WriteFloatOptions>)
        ensures
            r.is_some() == (is_radix(radix as u32)),
            r.is_some() ==> r.unwrap().holds(spec_exponent_notation_char(radix as u32), radix as u32, false, spec_default_nan_string(), spec_default_inf_string()),
    {
        let radix = match to_radix(radix) {
            Some(v) => v,
            None => return None,
        };
        let exponent_char = exponent_notation_char(radix);
        let nan_string = default_nan_string();
        let inf_string = default_inf_string();
        Some(WriteFloatOptions { exponent_char, radix, trim_floats: false, nan_string, inf_string })
    }

    /// Create new options from fields.
    ///
    /// * `exponent_char`   - Character to designate exponent component.
    /// * `radix`           - Radix for the number parsing.
    /// * `trim_floats`     - Trim the trailing ".0" from integral float strings.
    /// * `nan_string`      - String representation of Not A Number.
    /// * `inf_string`      - String representation of short infinity.
    ///
    /// The options are made if and only if the fields fit together.
    pub fn create(exponent_char: u8, radix: u8, trim_floats: bool, nan_string: &'static [u8], inf_string: &'static [u8]) -> (r: Option<WriteFloatOptions>)
        ensures
            r.is_some() == (Self::fits(exponent_char, radix as u32, trim_floats, nan_string@, inf_string@)),
            r.is_some() ==> r.unwrap().holds(exponent_char, radix as u32, trim_floats, nan_string@, inf_string@),
    {
        let radix = match to_radix(radix) {
            Some(v) => v,
            None => return None,
        };
        let exponent_char = match to_exponent_char(exponent_char, radix) {
            Some(v) => v,
            None => return None,
        };
        let nan_string = match to_nan_string(nan_string) {
            Some(v) => v,
            None => return None,
        };
        let inf_string = match to_inf_string(inf_string) {
            Some(v) => v,
            None => return None,
        };
        Some(WriteFloatOptions { exponent_char, radix, trim_floats, nan_string, inf_string })
    }

    /// Create new options to write the default binary format.
    pub fn binary() -> (r: WriteFloatOptions)
        ensures
            r.holds(LOWER_E, 2, false, spec_default_nan_string(), spec_default_inf_string()),
    {
        let nan_string = default_nan_string();
        let inf_string = default_inf_string();
        WriteFloatOptions { exponent_char: LOWER_E, radix: 2, trim_floats: false, nan_string, inf_string }
    }

    /// Create new options to write the default decimal format.
    pub fn decimal() -> (r: WriteFloatOptions)
        ensures
            r.holds(LOWER_E, 10, false, spec_default_nan_string(), spec_default_inf_string()),
    {
        let nan_string = default_nan_string();
        let inf_string = default_inf_string();
        WriteFloatOptions { exponent_char: LOWER_E, radix: 10, trim_floats: false, nan_string, inf_string }
    }

    /// Create new options to write the default hexadecimal format.
    pub fn hexadecimal() -> (r: WriteFloatOptions)
        ensures
            r.holds(LOWER_P, 16, false, spec_default_nan_string(), spec_default_inf_string()),
    {
        let nan_string = default_nan_string();
        let inf_string = default_inf_string();
        WriteFloatOptions { exponent_char: LOWER_P, radix: 16, trim_floats: false, nan_string, inf_string }
    }

    /// Get the character that starts the exponent.
    pub fn exponent_char(&self) -> (r: u8)
        ensures
            r == self.spec_exponent_char(),
    {
        self.exponent_char
    }

    /// Get the radix.
    pub fn radix(&self) -> (r: u32)
        ensures
            r == self.spec_radix(),
    {
        self.radix
    }

    /// Get if a trailing `.0` is trimmed from floats that are integers.
    pub fn trim_floats(&self) -> (r: bool)
        ensures
            r == self.spec_trim_floats(),
    {
        self.trim_floats
    }

    /// Get the string that stands for not-a-number.
    pub fn nan_string(&self) -> (r: &'static [u8])
        ensures
            r@ == self.spec_nan_string(),
    {
        self.nan_string
    }

    /// Get the string that stands for infinity.
    pub fn inf_string(&self) -> (r: &'static [u8])
        ensures
            r@ == self.spec_inf_string(),
    {
        self.inf_string
    }

}

/// The parts of [`ParseIntegerOptions`], one field each.
#[derive(Clone, Copy, Debug)]
pub struct ParseIntegerOptionsBuilder {
    /// The radix.
    pub radix: u8,
    /// The number format.
    pub format: NumberFormat,
}

impl ParseIntegerOptionsBuilder {
    /// A builder that holds the default of every part.
    pub fn new() -> (r: ParseIntegerOptionsBuilder)
        ensures
            r.radix == 10,
            r.format == spec_default_format(),
    {
        ParseIntegerOptionsBuilder {
            radix: DEFAULT_RADIX,
            format: default_format(),
        }
    }

    /// Set the radix.
    pub fn radix(self, radix: u8) -> (r: ParseIntegerOptionsBuilder)
        ensures
            r == (ParseIntegerOptionsBuilder { radix, ..self }),
    {
        ParseIntegerOptionsBuilder { radix, ..self }
    }

    /// Set the number format.
    pub fn format(self, format: NumberFormat) -> (r: ParseIntegerOptionsBuilder)
        ensures
            r == (ParseIntegerOptionsBuilder { format, ..self }),
    {
        ParseIntegerOptionsBuilder { format, ..self }
    }

}

impl Builder for ParseIntegerOptionsBuilder {
    type Buildable = ParseIntegerOptions;

    open spec fn builds(self, made: Option<ParseIntegerOptions>) -> bool {
        &&& made.is_some() == ParseIntegerOptions::fits(self.radix as u32, self.format)
        &&& made.is_some() ==> made.unwrap().holds(self.radix as u32, self.format)
    }

    fn build(self) -> (r: Option<ParseIntegerOptions>) {
        ParseIntegerOptions::create(self.radix, self.format)
    }
}

impl Buildable for ParseIntegerOptions {
    type Builder = ParseIntegerOptionsBuilder;

    open spec fn is_default_builder(builder: ParseIntegerOptionsBuilder) -> bool {
        &&& builder.radix == 10
        &&& builder.format == spec_default_format()
    }

    fn builder() -> (r: ParseIntegerOptionsBuilder) {
        ParseIntegerOptionsBuilder::new()
    }
}

impl Default for ParseIntegerOptions {
    fn default() -> (r: ParseIntegerOptions)
        ensures
            r.holds(10, spec_default_format()),
    {
        ParseIntegerOptions::new()
    }
}

/// The parts of [`ParseFloatOptions`], one field each.
#[derive(Clone, Copy, Debug)]
pub struct ParseFloatOptionsBuilder {
    /// Whether the lossy parser is used.
    pub lossy: bool,
    /// The character that starts the exponent.
    pub exponent_char: u8,
    /// The radix.
    pub radix: u8,
    /// The number format.
    pub format: NumberFormat,
    /// The rounding of values that lie between two floats.
    pub rounding: RoundingKind,
    /// The string that stands for not-a-number.
    pub nan_string: &'static [u8],
    /// The short string that stands for infinity.
    pub inf_string: &'static [u8],
    /// The long string that stands for infinity.
    pub infinity_string: &'static [u8],
}

impl ParseFloatOptionsBuilder {
    /// A builder that holds the default of every part.
    pub fn new() -> (r: ParseFloatOptionsBuilder)
        ensures
            r.lossy == false,
            r.exponent_char == LOWER_E,
            r.radix == 10,
            r.format == spec_default_format(),
            r.rounding == RoundingKind::NearestTieEven,
            r.nan_string@ == spec_default_nan_string(),
            r.inf_string@ == spec_default_inf_string(),
            r.infinity_string@ == spec_default_infinity_string(),
    {
        ParseFloatOptionsBuilder {
            lossy: DEFAULT_LOSSY,
            exponent_char: DEFAULT_EXPONENT_CHAR,
            radix: DEFAULT_RADIX,
            format: default_format(),
            rounding: RoundingKind::NearestTieEven,
            nan_string: default_nan_string(),
            inf_string: default_inf_string(),
            infinity_string: default_infinity_string(),
        }
    }

    /// Set whether the lossy parser is used.
    pub fn lossy(self, lossy: bool) -> (r: ParseFloatOptionsBuilder)
        ensures
            r == (ParseFloatOptionsBuilder { lossy, ..self }),
    {
        ParseFloatOptionsBuilder { lossy, ..self }
    }

    /// Set the character that starts the exponent.
    pub fn exponent_char(self, exponent_char: u8) -> (r: ParseFloatOptionsBuilder)
        ensures
            r == (ParseFloatOptionsBuilder { exponent_char, ..self }),
    {
        ParseFloatOptionsBuilder { exponent_char, ..self }
    }

    /// Set the radix.
    pub fn radix(self, radix: u8) -> (r: ParseFloatOptionsBuilder)
        ensures
            r == (ParseFloatOptionsBuilder { radix, ..self }),
    {
        ParseFloatOptionsBuilder { radix, ..self }
    }

    /// Set the number format.
    pub fn format(self, format: NumberFormat) -> (r: ParseFloatOptionsBuilder)
        ensures
            r == (ParseFloatOptionsBuilder { format, ..self }),
    {
        ParseFloatOptionsBuilder { format, ..self }
    }

    /// Set the rounding of values that lie between two floats.
    pub fn rounding(self, rounding: RoundingKind) -> (r: ParseFloatOptionsBuilder)
        ensures
            r == (ParseFloatOptionsBuilder { rounding, ..self }),
    {
        ParseFloatOptionsBuilder { rounding, ..self }
    }

    /// Set the string that stands for not-a-number.
    pub fn nan_string(self, nan_string: &'static [u8]) -> (r: ParseFloatOptionsBuilder)
        ensures
            r == (ParseFloatOptionsBuilder { nan_string, ..self }),
    {
        ParseFloatOptionsBuilder { nan_string, ..self }
    }

    /// Set the short string that stands for infinity.
    pub fn inf_string(self, inf_string: &'static [u8]) -> (r: ParseFloatOptionsBuilder)
        ensures
            r == (ParseFloatOptionsBuilder { inf_string, ..self }),
    {
        ParseFloatOptionsBuilder { inf_string, ..self }
    }

    /// Set the long string that stands for infinity.
    pub fn infinity_string(self, infinity_string: &'static [u8]) -> (r: ParseFloatOptionsBuilder)
        ensures
            r == (ParseFloatOptionsBuilder { infinity_string, ..self }),
    {
        ParseFloatOptionsBuilder { infinity_string, ..self }
    }

}

impl Builder for ParseFloatOptionsBuilder {
    type Buildable = ParseFloatOptions;

    open spec fn builds(self, made: Option<ParseFloatOptions>) -> bool {
        &&& made.is_some() == ParseFloatOptions::fits(self.lossy, self.exponent_char, self.radix as u32, self.format, self.rounding, self.nan_string@, self.inf_string@, self.infinity_string@)
        &&& made.is_some() ==> made.unwrap().holds(self.lossy, self.exponent_char, self.radix as u32, self.format, self.rounding, self.nan_string@, self.inf_string@, self.infinity_string@)
    }

    fn build(self) -> (r: Option<ParseFloatOptions>) {
        ParseFloatOptions::create(self.lossy, self.exponent_char, self.radix, self.format, self.rounding, self.nan_string, self.inf_string, self.infinity_string)
    }
}

impl Buildable for ParseFloatOptions {
    type Builder = ParseFloatOptionsBuilder;

    open spec fn is_default_builder(builder: ParseFloatOptionsBuilder) -> bool {
        &&& builder.lossy == false
        &&& builder.exponent_char == LOWER_E
        &&& builder.radix == 10
        &&& builder.format == spec_default_format()
        &&& builder.rounding == RoundingKind::NearestTieEven
        &&& builder.nan_string@ == spec_default_nan_string()
        &&& builder.inf_string@ == spec_default_inf_string()
        &&& builder.infinity_string@ == spec_default_infinity_string()
    }

    fn builder() -> (r: ParseFloatOptionsBuilder) {
        ParseFloatOptionsBuilder::new()
    }
}

impl Default for ParseFloatOptions {
    fn default() -> (r: ParseFloatOptions)
        ensures
            r.holds(false, LOWER_E, 10, spec_default_format(), RoundingKind::NearestTieEven, spec_default_nan_string(), spec_default_inf_string(), spec_default_infinity_string()),
    {
        ParseFloatOptions::new()
    }
}

/// The parts of [`WriteIntegerOptions`], one field each.
#[derive(Clone, Copy, Debug)]
pub struct WriteIntegerOptionsBuilder {
    /// The radix.
    pub radix: u8,
}

impl WriteIntegerOptionsBuilder {
    /// A builder that holds the default of every part.
    pub fn new() -> (r: WriteIntegerOptionsBuilder)
        ensures
            r.radix == 10,
    {
        WriteIntegerOptionsBuilder {
            radix: DEFAULT_RADIX,
        }
    }

    /// Set the radix.
    pub fn radix(self, radix: u8) -> (r: WriteIntegerOptionsBuilder)
        ensures
            r == (WriteIntegerOptionsBuilder { radix, ..self }),
    {
        WriteIntegerOptionsBuilder { radix, ..self }
    }

}

impl Builder for WriteIntegerOptionsBuilder {
    type Buildable = WriteIntegerOptions;

    open spec fn builds(self, made: Option<WriteIntegerOptions>) -> bool {
        &&& made.is_some() == WriteIntegerOptions::fits(self.radix as u32)
        &&& made.is_some() ==> made.unwrap().holds(self.radix as u32)
    }

    fn build(self) -> (r: Option<WriteIntegerOptions>) {
        WriteIntegerOptions::create(self.radix)
    }
}

impl Buildable for WriteIntegerOptions {
    type Builder = WriteIntegerOptionsBuilder;

    open spec fn is_default_builder(builder: WriteIntegerOptionsBuilder) -> bool {
        &&& builder.radix == 10
    }

    fn builder() -> (r: WriteIntegerOptionsBuilder) {
        WriteIntegerOptionsBuilder::new()
    }
}

impl Default for WriteIntegerOptions {
    fn default() -> (r: WriteIntegerOptions)
        ensures
            r.holds(10),
    {
        WriteIntegerOptions::new()
    }
}

/// The parts of [`WriteFloatOptions`], one field each.
#[derive(Clone, Copy, Debug)]
pub struct WriteFloatOptionsBuilder {
    /// The character that starts the exponent.
    pub exponent_char: u8,
    /// The radix.
    pub radix: u8,
    /// Whether a trailing `.0` is trimmed from floats that are integers.
    pub trim_floats: bool,
    /// The string that stands for not-a-number.
    pub nan_string: &'static [u8],
    /// The string that stands for infinity.
    pub inf_string: &'static [u8],
}

impl WriteFloatOptionsBuilder {
    /// A builder that holds the default of every part.
    pub fn new() -> (r: WriteFloatOptionsBuilder)
        ensures
            r.exponent_char == LOWER_E,
            r.radix == 10,
            r.trim_floats == false,
            r.nan_string@ == spec_default_nan_string(),
            r.inf_string@ == spec_default_inf_string(),
    {
        WriteFloatOptionsBuilder {
            exponent_char: DEFAULT_EXPONENT_CHAR,
            radix: DEFAULT_RADIX,
            trim_floats: DEFAULT_TRIM_FLOATS,
            nan_string: default_nan_string(),
            inf_string: default_inf_string(),
        }
    }

    /// Set the character that starts the exponent.
    pub fn exponent_char(self, exponent_char: u8) -> (r: WriteFloatOptionsBuilder)
        ensures
            r == (WriteFloatOptionsBuilder { exponent_char, ..self }),
    {
        WriteFloatOptionsBuilder { exponent_char, ..self }
    }

    /// Set the radix.
    pub fn radix(self, radix: u8) -> (r: WriteFloatOptionsBuilder)
        ensures
            r == (WriteFloatOptionsBuilder { radix, ..self }),
    {
        WriteFloatOptionsBuilder { radix, ..self }
    }

    /// Set whether a trailing `.0` is trimmed from floats that are integers.
    pub fn trim_floats(self, trim_floats: bool) -> (r: WriteFloatOptionsBuilder)
        ensures
            r == (WriteFloatOptionsBuilder { trim_floats, ..self }),
    {
        WriteFloatOptionsBuilder { trim_floats, ..self }
    }

    /// Set the string that stands for not-a-number.
    pub fn nan_string(self, nan_string: &'static [u8]) -> (r: WriteFloatOptionsBuilder)
        ensures
            r == (WriteFloatOptionsBuilder { nan_string, ..self }),
    {
        WriteFloatOptionsBuilder { nan_string, ..self }
    }

    /// Set the string that stands for infinity.
    pub fn inf_string(self, inf_string: &'static [u8]) -> (r: WriteFloatOptionsBuilder)
        ensures
            r == (WriteFloatOptionsBuilder { inf_string, ..self }),
    {
        WriteFloatOptionsBuilder { inf_string, ..self }
    }

}

impl Builder for WriteFloatOptionsBuilder {
    type Buildable = WriteFloatOptions;

    open spec fn builds(self, made: Option<WriteFloatOptions>) -> bool {
        &&& made.is_some() == WriteFloatOptions::fits(self.exponent_char, self.radix as u32, self.trim_floats, self.nan_string@, self.inf_string@)
        &&& made.is_some() ==> made.unwrap().holds(self.exponent_char, self.radix as u32, self.trim_floats, self.nan_string@, self.inf_string@)
    }

    fn build(self) -> (r: Option<WriteFloatOptions>) {
        WriteFloatOptions::create(self.exponent_char, self.radix, self.trim_floats, self.nan_string, self.inf_string)
    }
}

impl Buildable for WriteFloatOptions {
    type Builder = WriteFloatOptionsBuilder;

    open spec fn is_default_builder(builder: WriteFloatOptionsBuilder) -> bool {
        &&& builder.exponent_char == LOWER_E
        &&& builder.radix == 10
        &&& builder.trim_floats == false
        &&& builder.nan_string@ == spec_default_nan_string()
        &&& builder.inf_string@ == spec_default_inf_string()
    }

    fn builder() -> (r: WriteFloatOptionsBuilder) {
        WriteFloatOptionsBuilder::new()
    }
}

impl Default for WriteFloatOptions {
    fn default() -> (r: WriteFloatOptions)
        ensures
            r.holds(LOWER_E, 10, false, spec_default_nan_string(), spec_default_inf_string()),
    {
        WriteFloatOptions::new()
    }
}

} // verus!

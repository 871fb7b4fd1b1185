//! Parsing the float types.

use vstd::prelude::*;

use crate::atof::{
    float_den, float_num, grammar, parse_float, round_power, spec_parse_float, FloatGrammar,
};
use crate::bignum::Bigint;
use crate::convert::rounded;
use crate::digit::is_radix;
use crate::error::{Error, ErrorCode};
use crate::float::{ExtendedFloat, Float32, Float64, FloatLayout};
use crate::format::NumberFormat;
use crate::options::{
    default_format, is_float_separator, spec_default_format, spec_default_inf_string,
    spec_default_infinity_string, spec_default_nan_string, spec_exponent_notation_char,
    ParseFloatOptions,
};
use crate::rounding::RoundingKind;
use crate::traits::{
    complete, FromLexical, FromLexicalFormat, FromLexicalLossy, FromLexicalLossyFormat,
};

verus! {

/// The grammar of the options that are the default but for the parts named:
/// whether the lossy parser is asked for, the radix, with the exponent
/// character that goes with it, and the format.
pub open spec fn spec_grammar_with(lossy: bool, radix: u32, format: NumberFormat) -> FloatGrammar {
    FloatGrammar {
        lossy,
        exponent_char: format.spec_exponent_marker(radix, spec_exponent_notation_char(radix)),
        radix,
        format,
        rounding: RoundingKind::NearestTieEven,
        nan_string: spec_default_nan_string(),
        inf_string: spec_default_inf_string(),
        infinity_string: spec_default_infinity_string(),
    }
}

/// Whether options can be made of the defaults, `radix` with its exponent
/// character, and `format`.
pub open spec fn spec_float_fits(radix: u32, format: NumberFormat) -> bool {
    is_radix(radix) && is_float_separator(
        format.spec_digit_separator(),
        radix,
        spec_exponent_notation_char(radix),
    )
}

/// The default format goes with every radix.
pub proof fn lemma_default_format_fits(radix: u32)
    requires
        is_radix(radix),
    ensures
        spec_float_fits(radix, spec_default_format()),
{
    crate::flags::lemma_flags_only_word(crate::format::STANDARD);
}

/// Make the options that are the default but for the parts named.
fn options_with(lossy: bool, radix: u8, format: NumberFormat) -> (r: ParseFloatOptions)
    requires
        spec_float_fits(radix as u32, format),
    ensures
        grammar(r) == spec_grammar_with(lossy, radix as u32, format),
{
    match ParseFloatOptions::from_lossy_and_format_and_radix(lossy, format, radix) {
        Some(options) => options,
        None => ParseFloatOptions::new(),
    }
}

/// What parsing a [`Float32`] gives: the value and the number of bytes
/// consumed, or the error. See [`spec_parse_float`].
pub open spec fn spec_parse_float32(s: Seq<u8>, g: FloatGrammar) -> Result<(Float32, usize), Error> {
    match spec_parse_float(s, FloatLayout::Single, g) {
        Ok((bits, consumed)) => Ok((Float32 { bits: bits as u32 }, consumed)),
        Err(e) => Err(e),
    }
}

/// Parse a [`Float32`] from the start of `bytes`.
pub fn parse_float32(bytes: &[u8], options: &ParseFloatOptions) -> (r: Result<(Float32, usize), Error>)
    ensures
        r == spec_parse_float32(bytes@, grammar(*options)),
{
    match parse_float(bytes, FloatLayout::Single, options) {
        Ok((bits, consumed)) => Ok((Float32 { bits: bits as u32 }, consumed)),
        Err(e) => Err(e),
    }
}

/// Parse a [`Float32`] from the start of `bytes` under the options that are
/// the default but for the parts named.
fn parse_float32_with(bytes: &[u8], lossy: bool, radix: u8, format: NumberFormat) -> (r: Result<
    (Float32, usize),
    Error,
>)
    requires
        spec_float_fits(radix as u32, format),
    ensures
        r == spec_parse_float32(bytes@, spec_grammar_with(lossy, radix as u32, format)),
{
    let options = options_with(lossy, radix, format);
    parse_float32(bytes, &options)
}

impl FromLexical for Float32 {
    type Options = ParseFloatOptions;

    open spec fn spec_parse(bytes: Seq<u8>, options: ParseFloatOptions) -> Result<
        (Float32, usize),
        Error,
    > {
        spec_parse_float32(bytes, grammar(options))
    }

    open spec fn spec_parse_with(bytes: Seq<u8>, lossy: bool, radix: u32, format: NumberFormat)
        -> Result<(Float32, usize), Error> {
        spec_parse_float32(bytes, spec_grammar_with(lossy, radix, format))
    }

    open spec fn spec_fits(radix: u32, format: NumberFormat) -> bool {
        spec_float_fits(radix, format)
    }

    fn from_lexical(bytes: &[u8]) -> (r: Result<Float32, Error>) {
        proof {
            lemma_default_format_fits(10);
        }
        complete(parse_float32_with(bytes, false, 10, default_format()), bytes.len())
    }

    fn from_lexical_with_options(bytes: &[u8], options: &ParseFloatOptions) -> (r: Result<
        Float32,
        Error,
    >) {
        complete(parse_float32(bytes, options), bytes.len())
    }

    fn from_lexical_partial(bytes: &[u8]) -> (r: Result<(Float32, usize), Error>) {
        proof {
            lemma_default_format_fits(10);
        }
        parse_float32_with(bytes, false, 10, default_format())
    }

    fn from_lexical_partial_with_options(bytes: &[u8], options: &ParseFloatOptions) -> (r:
        Result<(Float32, usize), Error>) {
        parse_float32(bytes, options)
    }

    fn from_lexical_radix(bytes: &[u8], radix: u8) -> (r: Result<Float32, Error>) {
        proof {
            lemma_default_format_fits(radix as u32);
        }
        complete(parse_float32_with(bytes, false, radix, default_format()), bytes.len())
    }

    fn from_lexical_partial_radix(bytes: &[u8], radix: u8) -> (r: Result<(Float32, usize), Error>) {
        proof {
            lemma_default_format_fits(radix as u32);
        }
        parse_float32_with(bytes, false, radix, default_format())
    }
}

impl FromLexicalFormat for Float32 {
    fn from_lexical_format(bytes: &[u8], format: NumberFormat) -> (r: Result<Float32, Error>) {
        complete(parse_float32_with(bytes, false, 10, format), bytes.len())
    }

    fn from_lexical_partial_format(bytes: &[u8], format: NumberFormat) -> (r: Result<
        (Float32, usize),
        Error,
    >) {
        parse_float32_with(bytes, false, 10, format)
    }

    fn from_lexical_format_radix(bytes: &[u8], radix: u8, format: NumberFormat) -> (r:
        Result<Float32, Error>) {
        complete(parse_float32_with(bytes, false, radix, format), bytes.len())
    }

    fn from_lexical_partial_format_radix(bytes: &[u8], radix: u8, format: NumberFormat)
        -> (r: Result<(Float32, usize), Error>) {
        parse_float32_with(bytes, false, radix, format)
    }
}

impl FromLexicalLossyFormat for Float32 {
    fn from_lexical_lossy_format(bytes: &[u8], format: NumberFormat) -> (r: Result<Float32, Error>) {
        complete(parse_float32_with(bytes, true, 10, format), bytes.len())
    }

    fn from_lexical_partial_lossy_format(bytes: &[u8], format: NumberFormat) -> (r: Result<
        (Float32, usize),
        Error,
    >) {
        parse_float32_with(bytes, true, 10, format)
    }

    fn from_lexical_lossy_format_radix(bytes: &[u8], radix: u8, format: NumberFormat) -> (r:
        Result<Float32, Error>) {
        complete(parse_float32_with(bytes, true, radix, format), bytes.len())
    }

    fn from_lexical_partial_lossy_format_radix(bytes: &[u8], radix: u8, format: NumberFormat)
        -> (r: Result<(Float32, usize), Error>) {
        parse_float32_with(bytes, true, radix, format)
    }
}

impl FromLexicalLossy for Float32 {
    fn from_lexical_lossy(bytes: &[u8]) -> (r: Result<Float32, Error>) {
        proof {
            lemma_default_format_fits(10);
        }
        complete(parse_float32_with(bytes, true, 10, default_format()), bytes.len())
    }

    fn from_lexical_partial_lossy(bytes: &[u8]) -> (r: Result<(Float32, usize), Error>) {
        proof {
            lemma_default_format_fits(10);
        }
        parse_float32_with(bytes, true, 10, default_format())
    }

    fn from_lexical_lossy_radix(bytes: &[u8], radix: u8) -> (r: Result<Float32, Error>) {
        proof {
            lemma_default_format_fits(radix as u32);
        }
        complete(parse_float32_with(bytes, true, radix, default_format()), bytes.len())
    }

    fn from_lexical_partial_lossy_radix(bytes: &[u8], radix: u8) -> (r: Result<
        (Float32, usize),
        Error,
    >) {
        proof {
            lemma_default_format_fits(radix as u32);
        }
        parse_float32_with(bytes, true, radix, default_format())
    }
}

/// What parsing a [`Float64`] gives: the value and the number of bytes
/// consumed, or the error. See [`spec_parse_float`].
pub open spec fn spec_parse_float64(s: Seq<u8>, g: FloatGrammar) -> Result<(Float64, usize), Error> {
    match spec_parse_float(s, FloatLayout::Double, g) {
        Ok((bits, consumed)) => Ok((Float64 { bits: bits }, consumed)),
        Err(e) => Err(e),
    }
}

/// Parse a [`Float64`] from the start of `bytes`.
pub fn parse_float64(bytes: &[u8], options: &ParseFloatOptions) -> (r: Result<(Float64, usize), Error>)
    ensures
        r == spec_parse_float64(bytes@, grammar(*options)),
{
    match parse_float(bytes, FloatLayout::Double, options) {
        Ok((bits, consumed)) => Ok((Float64 { bits: bits }, consumed)),
        Err(e) => Err(e),
    }
}

/// Parse a [`Float64`] from the start of `bytes` under the options that are
/// the default but for the parts named.
fn parse_float64_with(bytes: &[u8], lossy: bool, radix: u8, format: NumberFormat) -> (r: Result<
    (Float64, usize),
    Error,
>)
    requires
        spec_float_fits(radix as u32, format),
    ensures
        r == spec_parse_float64(bytes@, spec_grammar_with(lossy, radix as u32, format)),
{
    let options = options_with(lossy, radix, format);
    parse_float64(bytes, &options)
}

impl FromLexical for Float64 {
    type Options = ParseFloatOptions;

    open spec fn spec_parse(bytes: Seq<u8>, options: ParseFloatOptions) -> Result<
        (Float64, usize),
        Error,
    > {
        spec_parse_float64(bytes, grammar(options))
    }

    open spec fn spec_parse_with(bytes: Seq<u8>, lossy: bool, radix: u32, format: NumberFormat)
        -> Result<(Float64, usize), Error> {
        spec_parse_float64(bytes, spec_grammar_with(lossy, radix, format))
    }

    open spec fn spec_fits(radix: u32, format: NumberFormat) -> bool {
        spec_float_fits(radix, format)
    }

    fn from_lexical(bytes: &[u8]) -> (r: Result<Float64, Error>) {
        proof {
            lemma_default_format_fits(10);
        }
        complete(parse_float64_with(bytes, false, 10, default_format()), bytes.len())
    }

    fn from_lexical_with_options(bytes: &[u8], options: &ParseFloatOptions) -> (r: Result<
        Float64,
        Error,
    >) {
        complete(parse_float64(bytes, options), bytes.len())
    }

    fn from_lexical_partial(bytes: &[u8]) -> (r: Result<(Float64, usize), Error>) {
        proof {
            lemma_default_format_fits(10);
        }
        parse_float64_with(bytes, false, 10, default_format())
    }

    fn from_lexical_partial_with_options(bytes: &[u8], options: &ParseFloatOptions) -> (r:
        Result<(Float64, usize), Error>) {
        parse_float64(bytes, options)
    }

    fn from_lexical_radix(bytes: &[u8], radix: u8) -> (r: Result<Float64, Error>) {
        proof {
            lemma_default_format_fits(radix as u32);
        }
        complete(parse_float64_with(bytes, false, radix, default_format()), bytes.len())
    }

    fn from_lexical_partial_radix(bytes: &[u8], radix: u8) -> (r: Result<(Float64, usize), Error>) {
        proof {
            lemma_default_format_fits(radix as u32);
        }
        parse_float64_with(bytes, false, radix, default_format())
    }
}

impl FromLexicalFormat for Float64 {
    fn from_lexical_format(bytes: &[u8], format: NumberFormat) -> (r: Result<Float64, Error>) {
        complete(parse_float64_with(bytes, false, 10, format), bytes.len())
    }

    fn from_lexical_partial_format(bytes: &[u8], format: NumberFormat) -> (r: Result<
        (Float64, usize),
        Error,
    >) {
        parse_float64_with(bytes, false, 10, format)
    }

    fn from_lexical_format_radix(bytes: &[u8], radix: u8, format: NumberFormat) -> (r:
        Result<Float64, Error>) {
        complete(parse_float64_with(bytes, false, radix, format), bytes.len())
    }

    fn from_lexical_partial_format_radix(bytes: &[u8], radix: u8, format: NumberFormat)
        -> (r: Result<(Float64, usize), Error>) {
        parse_float64_with(bytes, false, radix, format)
    }
}

impl FromLexicalLossyFormat for Float64 {
    fn from_lexical_lossy_format(bytes: &[u8], format: NumberFormat) -> (r: Result<Float64, Error>) {
        complete(parse_float64_with(bytes, true, 10, format), bytes.len())
    }

    fn from_lexical_partial_lossy_format(bytes: &[u8], format: NumberFormat) -> (r: Result<
        (Float64, usize),
        Error,
    >) {
        parse_float64_with(bytes, true, 10, format)
    }

    fn from_lexical_lossy_format_radix(bytes: &[u8], radix: u8, format: NumberFormat) -> (r:
        Result<Float64, Error>) {
        complete(parse_float64_with(bytes, true, radix, format), bytes.len())
    }

    fn from_lexical_partial_lossy_format_radix(bytes: &[u8], radix: u8, format: NumberFormat)
        -> (r: Result<(Float64, usize), Error>) {
        parse_float64_with(bytes, true, radix, format)
    }
}

impl FromLexicalLossy for Float64 {
    fn from_lexical_lossy(bytes: &[u8]) -> (r: Result<Float64, Error>) {
        proof {
            lemma_default_format_fits(10);
        }
        complete(parse_float64_with(bytes, true, 10, default_format()), bytes.len())
    }

    fn from_lexical_partial_lossy(bytes: &[u8]) -> (r: Result<(Float64, usize), Error>) {
        proof {
            lemma_default_format_fits(10);
        }
        parse_float64_with(bytes, true, 10, default_format())
    }

    fn from_lexical_lossy_radix(bytes: &[u8], radix: u8) -> (r: Result<Float64, Error>) {
        proof {
            lemma_default_format_fits(radix as u32);
        }
        complete(parse_float64_with(bytes, true, radix, default_format()), bytes.len())
    }

    fn from_lexical_partial_lossy_radix(bytes: &[u8], radix: u8) -> (r: Result<
        (Float64, usize),
        Error,
    >) {
        proof {
            lemma_default_format_fits(radix as u32);
        }
        parse_float64_with(bytes, true, radix, default_format())
    }
}

/// The bits of the float of `layout` that is nearest to the value of an
/// extended float, ties to the even mantissa.
pub open spec fn spec_round_extended(fp: ExtendedFloat, layout: FloatLayout) -> nat {
    rounded(
        layout,
        RoundingKind::NearestTieEven,
        false,
        float_num(fp.mant as nat, 2, fp.exp as int),
        float_den(2, fp.exp as int),
    )
}

/// Round an extended float to the nearest float of `layout`, ties to the
/// even mantissa, and return its bits.
pub fn round_extended(fp: ExtendedFloat, layout: FloatLayout) -> (bits: u64)
    ensures
        bits == spec_round_extended(fp, layout),
        bits <= layout.spec_infinity_bits(),
{
    proof {
        reveal_with_fuel(vstd::arithmetic::power::pow, 3);
        vstd::arithmetic::power2::lemma2_to64();
        vstd::arithmetic::power2::lemma2_to64_rest();
        vstd::arithmetic::power2::lemma_pow2(64);
    }
    round_power(
        Bigint::from_u64(fp.mant),
        64,
        2,
        fp.exp as i128,
        layout,
        RoundingKind::NearestTieEven,
        false,
    )
}

impl ExtendedFloat {
    /// Convert to the nearest binary32 value.
    pub fn into_f32(self) -> (r: Float32)
        ensures
            r.bits == spec_round_extended(self, FloatLayout::Single),
    {
        Float32 { bits: round_extended(self, FloatLayout::Single) as u32 }
    }

    /// Convert to the nearest binary64 value.
    pub fn into_f64(self) -> (r: Float64)
        ensures
            r.bits == spec_round_extended(self, FloatLayout::Double),
    {
        Float64 { bits: round_extended(self, FloatLayout::Double) }
    }
}

} // verus!

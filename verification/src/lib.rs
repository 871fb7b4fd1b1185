//! Conversion between numbers and their text, in any radix from 2 to 36.
//!
//! Integers of every width and IEEE binary32 / binary64 values are parsed from
//! and written to byte strings. The grammar that the parsers accept is set by a
//! [`NumberFormat`]; the parsers and writers take their remaining settings from
//! the option types of [`options`]. Floating-point values are held by their bit
//! patterns ([`Float32`], [`Float64`]), and every conversion is exact integer
//! arithmetic.

use vstd::prelude::*;

pub mod ascii;
pub mod atof;
pub mod atoi;
pub mod bignum;
pub mod builder;
pub mod cached;
pub mod convert;
pub mod digit;
pub mod error;
pub mod exponent;
pub mod fewest;
pub mod flags;
pub mod float;
pub mod floats;
pub mod format;
pub mod ftoa;
pub mod integers;
pub mod itoa;
pub mod margin;
pub mod options;
pub mod prefix;
pub mod readback;
pub mod rounding;
pub mod roundtrip;
pub mod scan;
pub mod shortest;
pub mod significant;
pub mod table;
pub mod traits;
pub mod writers;

pub use builder::{Buildable, Builder};
pub use error::{Error, ErrorCode};
pub use float::{
    BFloat16, ExtendedFloat, Float128, Float16, Float32, Float64, FloatLayout,
};
pub use format::{NumberFormat, NumberFormatBuilder};
pub use options::{
    ParseFloatOptions, ParseFloatOptionsBuilder, ParseIntegerOptions, ParseIntegerOptionsBuilder,
    WriteFloatOptions, WriteFloatOptionsBuilder, WriteIntegerOptions, WriteIntegerOptionsBuilder,
};
pub use rounding::RoundingKind;
pub use table::{ExactExponent, TablePower};
pub use traits::{
    FromLexical, FromLexicalFormat, FromLexicalLossy, FromLexicalLossyFormat, ToLexical,
};

use digit::is_radix;
use options::spec_default_format;
use traits::spec_complete;

verus! {

/// High-level conversion of decimal-encoded bytes to a number.
///
/// This function only returns a value if the entire string is
/// successfully parsed.
pub fn parse<N: FromLexical>(bytes: &[u8]) -> (r: Result<N, Error>)
    ensures
        r == spec_complete(N::spec_parse_with(bytes@, false, 10, spec_default_format()), bytes@.len()),
{
    N::from_lexical(bytes)
}

/// High-level custom conversion of bytes to a number.
///
/// This function only returns a value if the entire string is
/// successfully parsed.
pub fn parse_with_options<N: FromLexical>(bytes: &[u8], options: &N::Options) -> (r: Result<N, Error>)
    ensures
        r == spec_complete(N::spec_parse(bytes@, *options), bytes@.len()),
{
    N::from_lexical_with_options(bytes, options)
}

/// High-level, partial conversion of decimal-encoded bytes to a number.
///
/// This function parses as many digits as possible, returning the parsed
/// value and the number of digits processed.
pub fn parse_partial<N: FromLexical>(bytes: &[u8]) -> (r: Result<(N, usize), Error>)
    ensures
        r == N::spec_parse_with(bytes@, false, 10, spec_default_format()),
{
    N::from_lexical_partial(bytes)
}

/// High-level, partial, custom conversion of bytes to a number.
///
/// This function parses as many digits as possible, returning the parsed
/// value and the number of digits processed.
pub fn parse_partial_with_options<N: FromLexical>(bytes: &[u8], options: &N::Options) -> (r: Result<(N, usize), Error>)
    ensures
        r == N::spec_parse(bytes@, *options),
{
    N::from_lexical_partial_with_options(bytes, options)
}

/// High-level lossy conversion of decimal-encoded bytes to a number.
///
/// This function only returns a value if the entire string is
/// successfully parsed.
pub fn parse_lossy<N: FromLexicalLossy>(bytes: &[u8]) -> (r: Result<N, Error>)
    ensures
        r == spec_complete(N::spec_parse_with(bytes@, true, 10, spec_default_format()), bytes@.len()),
{
    N::from_lexical_lossy(bytes)
}

/// High-level, partial, lossy conversion of decimal-encoded bytes to a number.
pub fn parse_partial_lossy<N: FromLexicalLossy>(bytes: &[u8]) -> (r: Result<(N, usize), Error>)
    ensures
        r == N::spec_parse_with(bytes@, true, 10, spec_default_format()),
{
    N::from_lexical_partial_lossy(bytes)
}

/// High-level conversion of bytes to a number with a custom radix.
///
/// The radix must be in the range `[2, 36]`.
pub fn parse_radix<N: FromLexical>(bytes: &[u8], radix: u8) -> (r: Result<N, Error>)
    requires
        is_radix(radix as u32),
    ensures
        r == spec_complete(N::spec_parse_with(bytes@, false, radix as u32, spec_default_format()), bytes@.len()),
{
    N::from_lexical_radix(bytes, radix)
}

/// High-level, partial conversion of bytes to a number with a custom radix.
///
/// The radix must be in the range `[2, 36]`.
pub fn parse_partial_radix<N: FromLexical>(bytes: &[u8], radix: u8) -> (r: Result<(N, usize), Error>)
    requires
        is_radix(radix as u32),
    ensures
        r == N::spec_parse_with(bytes@, false, radix as u32, spec_default_format()),
{
    N::from_lexical_partial_radix(bytes, radix)
}

/// High-level lossy conversion of bytes to a float with a custom radix.
///
/// The radix must be in the range `[2, 36]`.
pub fn parse_lossy_radix<N: FromLexicalLossy>(bytes: &[u8], radix: u8) -> (r: Result<N, Error>)
    requires
        is_radix(radix as u32),
    ensures
        r == spec_complete(N::spec_parse_with(bytes@, true, radix as u32, spec_default_format()), bytes@.len()),
{
    N::from_lexical_lossy_radix(bytes, radix)
}

/// High-level, partial, lossy conversion of bytes to a number with a custom radix.
///
/// The radix must be in the range `[2, 36]`.
pub fn parse_partial_lossy_radix<N: FromLexicalLossy>(bytes: &[u8], radix: u8) -> (r: Result<(N, usize), Error>)
    requires
        is_radix(radix as u32),
    ensures
        r == N::spec_parse_with(bytes@, true, radix as u32, spec_default_format()),
{
    N::from_lexical_partial_lossy_radix(bytes, radix)
}

/// High-level conversion of decimal-encoded bytes to a number with a custom format.
///
/// The format must go with the radix ten.
pub fn parse_format<N: FromLexicalFormat>(bytes: &[u8], format: NumberFormat) -> (r: Result<N, Error>)
    requires
        N::spec_fits(10, format),
    ensures
        r == spec_complete(N::spec_parse_with(bytes@, false, 10, format), bytes@.len()),
{
    N::from_lexical_format(bytes, format)
}

/// High-level, partial conversion of decimal-encoded bytes to a number with a custom format.
///
/// The format must go with the radix ten.
pub fn parse_partial_format<N: FromLexicalFormat>(bytes: &[u8], format: NumberFormat) -> (r: Result<(N, usize), Error>)
    requires
        N::spec_fits(10, format),
    ensures
        r == N::spec_parse_with(bytes@, false, 10, format),
{
    N::from_lexical_partial_format(bytes, format)
}

/// High-level lossy conversion of decimal-encoded bytes to a number with a custom format.
///
/// The format must go with the radix ten.
pub fn parse_lossy_format<N: FromLexicalLossyFormat>(bytes: &[u8], format: NumberFormat) -> (r: Result<N, Error>)
    requires
        N::spec_fits(10, format),
    ensures
        r == spec_complete(N::spec_parse_with(bytes@, true, 10, format), bytes@.len()),
{
    N::from_lexical_lossy_format(bytes, format)
}

/// High-level, partial, lossy conversion of decimal-encoded bytes to a number with a custom format.
///
/// The format must go with the radix ten.
pub fn parse_partial_lossy_format<N: FromLexicalLossyFormat>(bytes: &[u8], format: NumberFormat) -> (r: Result<(N, usize), Error>)
    requires
        N::spec_fits(10, format),
    ensures
        r == N::spec_parse_with(bytes@, true, 10, format),
{
    N::from_lexical_partial_lossy_format(bytes, format)
}

/// High-level conversion of bytes to a number with a custom radix and format.
///
/// The radix must be in the range `[2, 36]` and the format must go with it.
pub fn parse_format_radix<N: FromLexicalFormat>(bytes: &[u8], radix: u8, format: NumberFormat) -> (r: Result<N, Error>)
    requires
        N::spec_fits(radix as u32, format),
    ensures
        r == spec_complete(N::spec_parse_with(bytes@, false, radix as u32, format), bytes@.len()),
{
    N::from_lexical_format_radix(bytes, radix, format)
}

/// High-level, partial conversion of bytes to a number with a custom radix and format.
///
/// The radix must be in the range `[2, 36]` and the format must go with it.
pub fn parse_partial_format_radix<N: FromLexicalFormat>(bytes: &[u8], radix: u8, format: NumberFormat) -> (r: Result<(N, usize), Error>)
    requires
        N::spec_fits(radix as u32, format),
    ensures
        r == N::spec_parse_with(bytes@, false, radix as u32, format),
{
    N::from_lexical_partial_format_radix(bytes, radix, format)
}

/// High-level lossy conversion of bytes to a float with a custom radix and format.
///
/// The radix must be in the range `[2, 36]` and the format must go with it.
pub fn parse_lossy_format_radix<N: FromLexicalLossyFormat>(bytes: &[u8], radix: u8, format: NumberFormat) -> (r: Result<N, Error>)
    requires
        N::spec_fits(radix as u32, format),
    ensures
        r == spec_complete(N::spec_parse_with(bytes@, true, radix as u32, format), bytes@.len()),
{
    N::from_lexical_lossy_format_radix(bytes, radix, format)
}

/// High-level, partial, lossy conversion of bytes to a number with a custom radix and format.
///
/// The radix must be in the range `[2, 36]` and the format must go with it.
pub fn parse_partial_lossy_format_radix<N: FromLexicalLossyFormat>(bytes: &[u8], radix: u8, format: NumberFormat) -> (r: Result<(N, usize), Error>)
    requires
        N::spec_fits(radix as u32, format),
    ensures
        r == N::spec_parse_with(bytes@, true, radix as u32, format),
{
    N::from_lexical_partial_lossy_format_radix(bytes, radix, format)
}

/// Write a number to a buffer as decimal text, and return the length of
/// the text. The buffer must hold the longest decimal text of the type.
pub fn write<N: ToLexical>(n: N, bytes: &mut [u8]) -> (len: usize)
    requires
        old(bytes)@.len() >= N::spec_formatted_size_decimal(),
    ensures
        len <= N::spec_formatted_size_decimal(),
        final(bytes)@.len() == old(bytes)@.len(),
        n.is_text_in(10, final(bytes)@.take(len as int)),
        forall|i: int| len <= i < old(bytes)@.len() ==> final(bytes)@[i] == old(bytes)@[i],
{
    n.to_lexical(bytes)
}

/// Write a number to a buffer as text under `options`, and return the
/// length of the text. The buffer must hold the longest text of the type
/// under the options.
pub fn write_with_options<N: ToLexical>(n: N, bytes: &mut [u8], options: &N::Options) -> (len:
    usize)
    requires
        old(bytes)@.len() >= N::spec_required_size(*options),
    ensures
        len <= N::spec_required_size(*options),
        final(bytes)@.len() == old(bytes)@.len(),
        n.is_text(*options, final(bytes)@.take(len as int)),
        forall|i: int| len <= i < old(bytes)@.len() ==> final(bytes)@[i] == old(bytes)@[i],
{
    n.to_lexical_with_options(bytes, options)
}

/// Write a number to a buffer as text in `radix`, and return the length of
/// the text. The radix must be in the range `[2, 36]` and the buffer must
/// hold the longest text of the type in the radix.
pub fn write_radix<N: ToLexical>(n: N, radix: u8, bytes: &mut [u8]) -> (len: usize)
    requires
        is_radix(radix as u32),
        old(bytes)@.len() >= N::spec_required_size_in(radix as u32),
    ensures
        len <= N::spec_required_size_in(radix as u32),
        final(bytes)@.len() == old(bytes)@.len(),
        n.is_text_in(radix as u32, final(bytes)@.take(len as int)),
        forall|i: int| len <= i < old(bytes)@.len() ==> final(bytes)@[i] == old(bytes)@[i],
{
    n.to_lexical_radix(radix, bytes)
}

} // verus!

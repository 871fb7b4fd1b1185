//! The conversions as traits of the number types.

use vstd::prelude::*;

use crate::error::{Error, ErrorCode};
use crate::format::NumberFormat;

verus! {

/// What a complete parse makes of a partial one: input that is left over
/// is an invalid digit where it begins.
pub open spec fn spec_complete<T>(partial: Result<(T, usize), Error>, len: nat) -> Result<
    T,
    Error,
> {
    match partial {
        Err(e) => Err(e),
        Ok((value, consumed)) => if consumed == len {
            Ok(value)
        } else {
            Err(Error { code: ErrorCode::InvalidDigit, index: consumed })
        },
    }
}

/// Make a complete parse of a partial one: refuse input that is left over.
pub fn complete<T>(partial: Result<(T, usize), Error>, len: usize) -> (r: Result<T, Error>)
    ensures
        r == spec_complete(partial, len as nat),
{
    match partial {
        Err(e) => Err(e),
        Ok((value, consumed)) => {
            if consumed == len {
                Ok(value)
            } else {
                Err(Error { code: ErrorCode::InvalidDigit, index: consumed })
            }
        },
    }
}

/// A number type that is parsed from text.
///
/// A partial parse gives the value with the number of bytes it was read
/// from; a complete parse gives the value, and an error if bytes are left.
pub trait FromLexical: Sized {
    /// The options that customize the parse.
    type Options;

    /// What a partial parse of `bytes` under `options` gives.
    spec fn spec_parse(bytes: Seq<u8>, options: Self::Options) -> Result<(Self, usize), Error>;

    /// What a partial parse of `bytes` gives under the options that are
    /// the default but for the parts named: whether the lossy parser is
    /// used, the radix with its exponent character, and the format.
    spec fn spec_parse_with(bytes: Seq<u8>, lossy: bool, radix: u32, format: NumberFormat)
        -> Result<(Self, usize), Error>;

    /// Whether options can be made of the defaults, `radix` with its
    /// exponent character, and `format`.
    spec fn spec_fits(radix: u32, format: NumberFormat) -> bool;

    /// Checked parser for a string-to-number conversion, in decimal.
    fn from_lexical(bytes: &[u8]) -> (r: Result<Self, Error>)
        ensures
            r == spec_complete(
                Self::spec_parse_with(bytes@, false, 10, crate::options::spec_default_format()),
                bytes@.len(),
            ),
    ;

    /// Checked parser for a string-to-number conversion under `options`.
    fn from_lexical_with_options(bytes: &[u8], options: &Self::Options) -> (r: Result<
        Self,
        Error,
    >)
        ensures
            r == spec_complete(Self::spec_parse(bytes@, *options), bytes@.len()),
    ;

    /// Checked parser for a string-to-number conversion, in decimal, that
    /// stops where the number ends.
    fn from_lexical_partial(bytes: &[u8]) -> (r: Result<(Self, usize), Error>)
        ensures
            r == Self::spec_parse_with(bytes@, false, 10, crate::options::spec_default_format()),
    ;

    /// Checked parser for a string-to-number conversion under `options`
    /// that stops where the number ends.
    fn from_lexical_partial_with_options(bytes: &[u8], options: &Self::Options) -> (r: Result<
        (Self, usize),
        Error,
    >)
        ensures
            r == Self::spec_parse(bytes@, *options),
    ;

    /// Checked parser for a string-to-number conversion in `radix`.
    fn from_lexical_radix(bytes: &[u8], radix: u8) -> (r: Result<Self, Error>)
        requires
            crate::digit::is_radix(radix as u32),
        ensures
            r == spec_complete(
                Self::spec_parse_with(
                    bytes@,
                    false,
                    radix as u32,
                    crate::options::spec_default_format(),
                ),
                bytes@.len(),
            ),
    ;

    /// Checked parser for a string-to-number conversion in `radix` that
    /// stops where the number ends.
    fn from_lexical_partial_radix(bytes: &[u8], radix: u8) -> (r: Result<(Self, usize), Error>)
        requires
            crate::digit::is_radix(radix as u32),
        ensures
            r == Self::spec_parse_with(
                bytes@,
                false,
                radix as u32,
                crate::options::spec_default_format(),
            ),
    ;
}

/// A number type that is parsed from text in a format of the caller's.
pub trait FromLexicalFormat: FromLexical {
    /// Checked parser for a string-to-number conversion, in decimal, in
    /// `format`.
    fn from_lexical_format(bytes: &[u8], format: NumberFormat) -> (r: Result<Self, Error>)
        requires
            Self::spec_fits(10, format),
        ensures
            r == spec_complete(Self::spec_parse_with(bytes@, false, 10, format), bytes@.len()),
    ;

    /// Checked parser for a string-to-number conversion, in decimal, in
    /// `format`, that stops where the number ends.
    fn from_lexical_partial_format(bytes: &[u8], format: NumberFormat) -> (r: Result<
        (Self, usize),
        Error,
    >)
        requires
            Self::spec_fits(10, format),
        ensures
            r == Self::spec_parse_with(bytes@, false, 10, format),
    ;

    /// Checked parser for a string-to-number conversion in `radix` and
    /// `format`.
    fn from_lexical_format_radix(bytes: &[u8], radix: u8, format: NumberFormat) -> (r: Result<
        Self,
        Error,
    >)
        requires
            Self::spec_fits(radix as u32, format),
        ensures
            r == spec_complete(
                Self::spec_parse_with(bytes@, false, radix as u32, format),
                bytes@.len(),
            ),
    ;

    /// Checked parser for a string-to-number conversion in `radix` and
    /// `format` that stops where the number ends.
    fn from_lexical_partial_format_radix(bytes: &[u8], radix: u8, format: NumberFormat) -> (r:
        Result<(Self, usize), Error>)
        requires
            Self::spec_fits(radix as u32, format),
        ensures
            r == Self::spec_parse_with(bytes@, false, radix as u32, format),
    ;
}

/// A number type that is parsed from text by the lossy parser.
pub trait FromLexicalLossy: FromLexical {
    /// Lossy, checked parser for a string-to-number conversion, in
    /// decimal.
    fn from_lexical_lossy(bytes: &[u8]) -> (r: Result<Self, Error>)
        ensures
            r == spec_complete(
                Self::spec_parse_with(bytes@, true, 10, crate::options::spec_default_format()),
                bytes@.len(),
            ),
    ;

    /// Lossy, checked parser for a string-to-number conversion, in
    /// decimal, that stops where the number ends.
    fn from_lexical_partial_lossy(bytes: &[u8]) -> (r: Result<(Self, usize), Error>)
        ensures
            r == Self::spec_parse_with(bytes@, true, 10, crate::options::spec_default_format()),
    ;

    /// Lossy, checked parser for a string-to-number conversion in `radix`.
    fn from_lexical_lossy_radix(bytes: &[u8], radix: u8) -> (r: Result<Self, Error>)
        requires
            crate::digit::is_radix(radix as u32),
        ensures
            r == spec_complete(
                Self::spec_parse_with(
                    bytes@,
                    true,
                    radix as u32,
                    crate::options::spec_default_format(),
                ),
                bytes@.len(),
            ),
    ;

    /// Lossy, checked parser for a string-to-number conversion in `radix`
    /// that stops where the number ends.
    fn from_lexical_partial_lossy_radix(bytes: &[u8], radix: u8) -> (r: Result<
        (Self, usize),
        Error,
    >)
        requires
            crate::digit::is_radix(radix as u32),
        ensures
            r == Self::spec_parse_with(
                bytes@,
                true,
                radix as u32,
                crate::options::spec_default_format(),
            ),
    ;
}

/// A number type that is parsed from text in a format of the caller's by
/// the lossy parser.
pub trait FromLexicalLossyFormat: FromLexical {
    /// Lossy, checked parser for a string-to-number conversion, in
    /// decimal, in `format`.
    fn from_lexical_lossy_format(bytes: &[u8], format: NumberFormat) -> (r: Result<Self, Error>)
        requires
            Self::spec_fits(10, format),
        ensures
            r == spec_complete(Self::spec_parse_with(bytes@, true, 10, format), bytes@.len()),
    ;

    /// Lossy, checked parser for a string-to-number conversion, in
    /// decimal, in `format`, that stops where the number ends.
    fn from_lexical_partial_lossy_format(bytes: &[u8], format: NumberFormat) -> (r: Result<
        (Self, usize),
        Error,
    >)
        requires
            Self::spec_fits(10, format),
        ensures
            r == Self::spec_parse_with(bytes@, true, 10, format),
    ;

    /// Lossy, checked parser for a string-to-number conversion in `radix`
    /// and `format`.
    fn from_lexical_lossy_format_radix(bytes: &[u8], radix: u8, format: NumberFormat) -> (r:
        Result<Self, Error>)
        requires
            Self::spec_fits(radix as u32, format),
        ensures
            r == spec_complete(
                Self::spec_parse_with(bytes@, true, radix as u32, format),
                bytes@.len(),
            ),
    ;

    /// Lossy, checked parser for a string-to-number conversion in `radix`
    /// and `format` that stops where the number ends.
    fn from_lexical_partial_lossy_format_radix(
        bytes: &[u8],
        radix: u8,
        format: NumberFormat,
    ) -> (r: Result<(Self, usize), Error>)
        requires
            Self::spec_fits(radix as u32, format),
        ensures
            r == Self::spec_parse_with(bytes@, true, radix as u32, format),
    ;
}

/// A number type that is written as text.
///
/// The text is written at the start of a buffer of the caller's, which has
/// to hold the longest text of the type; the length of the text is
/// returned and the rest of the buffer is left as it was.
pub trait ToLexical: Sized {
    /// The options that customize the writing.
    type Options;

    /// The length of the longest text of the type in any radix.
    spec fn spec_formatted_size() -> usize;

    /// The length of the longest text of the type in decimal.
    spec fn spec_formatted_size_decimal() -> usize;

    /// The length of the longest text of the type under `options`.
    spec fn spec_required_size(options: Self::Options) -> nat;

    /// The length of the longest text of the type under the default
    /// options, in `radix`.
    spec fn spec_required_size_in(radix: u32) -> nat;

    /// Whether `text` is the text of the number under `options`.
    spec fn is_text(self, options: Self::Options, text: Seq<u8>) -> bool;

    /// Whether `text` is the text of the number under the default options,
    /// in `radix`.
    spec fn is_text_in(self, radix: u32, text: Seq<u8>) -> bool;

    /// The length of the longest text of the type in any radix.
    fn formatted_size() -> (r: usize)
        ensures
            r == Self::spec_formatted_size(),
    ;

    /// The length of the longest text of the type in decimal.
    fn formatted_size_decimal() -> (r: usize)
        ensures
            r == Self::spec_formatted_size_decimal(),
            r == Self::spec_required_size_in(10),
    ;

    /// Number-to-string conversion, in decimal.
    fn to_lexical(self, bytes: &mut [u8]) -> (len: usize)
        requires
            old(bytes)@.len() >= Self::spec_formatted_size_decimal(),
        ensures
            len <= Self::spec_formatted_size_decimal(),
            final(bytes)@.len() == old(bytes)@.len(),
            self.is_text_in(10, final(bytes)@.take(len as int)),
            forall|i: int| len <= i < old(bytes)@.len() ==> final(bytes)@[i] == old(bytes)@[i],
    ;

    /// Number-to-string conversion under `options`.
    fn to_lexical_with_options(self, bytes: &mut [u8], options: &Self::Options) -> (len: usize)
        requires
            old(bytes)@.len() >= Self::spec_required_size(*options),
        ensures
            len <= Self::spec_required_size(*options),
            final(bytes)@.len() == old(bytes)@.len(),
            self.is_text(*options, final(bytes)@.take(len as int)),
            forall|i: int| len <= i < old(bytes)@.len() ==> final(bytes)@[i] == old(bytes)@[i],
    ;

    /// Number-to-string conversion in `radix`.
    fn to_lexical_radix(self, radix: u8, bytes: &mut [u8]) -> (len: usize)
        requires
            crate::digit::is_radix(radix as u32),
            old(bytes)@.len() >= Self::spec_required_size_in(radix as u32),
        ensures
            len <= Self::spec_required_size_in(radix as u32),
            final(bytes)@.len() == old(bytes)@.len(),
            self.is_text_in(radix as u32, final(bytes)@.take(len as int)),
            forall|i: int| len <= i < old(bytes)@.len() ==> final(bytes)@[i] == old(bytes)@[i],
    ;
}

} // verus!

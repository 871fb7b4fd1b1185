//! The errors that parsing can end in.

use vstd::prelude::*;

verus! {

/// What went wrong while a number was parsed.
#[derive(Clone, Copy, Debug, PartialEq, Eq, Hash, Structural)]
pub enum ErrorCode {
    /// The value is above the largest that the type holds.
    Overflow,
    /// The value is below the smallest that the type holds.
    Underflow,
    /// A byte that is no digit stands where the number should go on or end.
    InvalidDigit,
    /// There is nothing to parse (after the sign, if there is one).
    Empty,
    /// Neither integer nor fraction digits were found.
    EmptyMantissa,
    /// An exponent marker is followed by no digits.
    EmptyExponent,
    /// The format requires integer digits and there are none.
    EmptyInteger,
    /// The format requires fraction digits after the point and there are none.
    EmptyFraction,
    /// The format forbids a `+` before the mantissa.
    InvalidPositiveMantissaSign,
    /// The format requires a sign before the mantissa.
    MissingMantissaSign,
    /// The format forbids exponent notation.
    InvalidExponent,
    /// The format forbids a `+` before the exponent.
    InvalidPositiveExponentSign,
    /// The format requires a sign before the exponent.
    MissingExponentSign,
    /// The format forbids an exponent that follows no decimal point.
    ExponentWithoutFraction,
    /// The format forbids leading zeros.
    InvalidLeadingZeros,
    /// The format requires exponent notation.
    MissingExponentNotation,
    /// Two digit separators stand side by side where the format forbids it.
    InvalidConsecutiveDigitSeparator,
}

impl ErrorCode {
    /// The stable integer by which the error is known to other languages.
    pub open spec fn spec_as_i32(self) -> int {
        match self {
            ErrorCode::Overflow => -1,
            ErrorCode::Underflow => -2,
            ErrorCode::InvalidDigit => -3,
            ErrorCode::Empty => -4,
            ErrorCode::EmptyMantissa => -5,
            ErrorCode::EmptyExponent => -6,
            ErrorCode::EmptyInteger => -7,
            ErrorCode::EmptyFraction => -8,
            ErrorCode::InvalidPositiveMantissaSign => -9,
            ErrorCode::MissingMantissaSign => -10,
            ErrorCode::InvalidExponent => -11,
            ErrorCode::InvalidPositiveExponentSign => -12,
            ErrorCode::MissingExponentSign => -13,
            ErrorCode::ExponentWithoutFraction => -14,
            ErrorCode::InvalidLeadingZeros => -15,
            ErrorCode::MissingExponentNotation => -16,
            ErrorCode::InvalidConsecutiveDigitSeparator => -17,
        }
    }

    /// The stable integer by which the error is known to other languages.
    pub fn as_i32(self) -> (r: i32)
        ensures
            r == self.spec_as_i32(),
            -17 <= r <= -1,
    {
        match self {
            ErrorCode::Overflow => -1,
            ErrorCode::Underflow => -2,
            ErrorCode::InvalidDigit => -3,
            ErrorCode::Empty => -4,
            ErrorCode::EmptyMantissa => -5,
            ErrorCode::EmptyExponent => -6,
            ErrorCode::EmptyInteger => -7,
            ErrorCode::EmptyFraction => -8,
            ErrorCode::InvalidPositiveMantissaSign => -9,
            ErrorCode::MissingMantissaSign => -10,
            ErrorCode::InvalidExponent => -11,
            ErrorCode::InvalidPositiveExponentSign => -12,
            ErrorCode::MissingExponentSign => -13,
            ErrorCode::ExponentWithoutFraction => -14,
            ErrorCode::InvalidLeadingZeros => -15,
            ErrorCode::MissingExponentNotation => -16,
            ErrorCode::InvalidConsecutiveDigitSeparator => -17,
        }
    }
}

/// An error code with the byte offset in the input at which it was detected.
#[derive(Clone, Copy, Debug, PartialEq, Eq, Hash, Structural)]
pub struct Error {
    /// What went wrong.
    pub code: ErrorCode,
    /// Offset into the input of the byte at which parsing stopped.
    pub index: usize,
}

impl Error {
    /// The error `code` at offset `index`.
    pub fn new(code: ErrorCode, index: usize) -> (r: Error)
        ensures
            r == (Error { code, index }),
    {
        Error { code, index }
    }
}

impl From<ErrorCode> for Error {
    fn from(code: ErrorCode) -> (r: Error) {
        Error { code, index: 0 }
    }
}

impl vstd::std_specs::convert::FromSpecImpl<ErrorCode> for Error {
    open spec fn obeys_from_spec() -> bool {
        true
    }

    open spec fn from_spec(code: ErrorCode) -> Error {
        Error { code, index: 0 }
    }
}

impl From<(ErrorCode, usize)> for Error {
    fn from(pair: (ErrorCode, usize)) -> (r: Error) {
        Error { code: pair.0, index: pair.1 }
    }
}

impl vstd::std_specs::convert::FromSpecImpl<(ErrorCode, usize)> for Error {
    open spec fn obeys_from_spec() -> bool {
        true
    }

    open spec fn from_spec(pair: (ErrorCode, usize)) -> Error {
        Error { code: pair.0, index: pair.1 }
    }
}

} // verus!

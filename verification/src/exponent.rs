//! The exponents of a number that is written with digits: the exponent by
//! which its mantissa is scaled, and the exponent of its first digit.

use vstd::prelude::*;

verus! {

/// `x`, or the nearest number that an `i32` holds.
pub open spec fn saturated(x: int) -> int {
    if x < i32::MIN {
        i32::MIN as int
    } else if x > i32::MAX {
        i32::MAX as int
    } else {
        x
    }
}

/// The nearest number to `x` that an `i32` holds.
fn saturate(x: i128) -> (r: i32)
    ensures
        r == saturated(x as int),
{
    if x < -2147483648 {
        i32::MIN
    } else if x > 2147483647 {
        i32::MAX
    } else {
        x as i32
    }
}

/// The exponent of the radix by which the mantissa, read as an integer, is
/// scaled: the exponent that is written, less the number of fraction
/// digits, and more by the number of digits that were left off the
/// mantissa.
pub open spec fn spec_mantissa_exponent(
    raw_exponent: int,
    fraction_digits: nat,
    truncated: nat,
) -> int {
    saturated(raw_exponent - fraction_digits + truncated)
}

/// The exponent of the first digit that counts: the exponent that is
/// written, more by the number of integer digits behind the first, or less
/// by one and by the number of zeros with which the fraction begins where
/// there are no integer digits.
pub open spec fn spec_scientific_exponent(
    raw_exponent: int,
    integer_digits: nat,
    digits_start: nat,
) -> int {
    saturated(raw_exponent + integer_digits - 1 - digits_start)
}

/// Calculate the exponent of the mantissa from the exponent that is
/// written.
pub fn mantissa_exponent(raw_exponent: i32, fraction_digits: usize, truncated: usize) -> (r: i32)
    ensures
        r == spec_mantissa_exponent(raw_exponent as int, fraction_digits as nat, truncated as nat),
{
    saturate(raw_exponent as i128 - fraction_digits as i128 + truncated as i128)
}

/// Calculate the exponent of the first digit from the exponent that is
/// written.
pub fn scientific_exponent(raw_exponent: i32, integer_digits: usize, digits_start: usize) -> (r:
    i32)
    ensures
        r == spec_scientific_exponent(
            raw_exponent as int,
            integer_digits as nat,
            digits_start as nat,
        ),
{
    saturate(raw_exponent as i128 + integer_digits as i128 - 1 - digits_start as i128)
}

} // verus!

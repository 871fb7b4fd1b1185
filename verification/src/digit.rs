//! Digits: the value of a byte in a radix, and the byte of a value.

use vstd::prelude::*;

use crate::ascii::{LOWER_A, LOWER_Z, NINE, UPPER_A, UPPER_Z, ZERO};

verus! {

/// The smallest radix.
pub const MIN_RADIX: u32 = 2;

/// The largest radix: ten decimal digits and twenty-six letters.
pub const MAX_RADIX: u32 = 36;

/// Whether `radix` is a radix that numbers can be written in.
pub open spec fn is_radix(radix: u32) -> bool {
    MIN_RADIX <= radix <= MAX_RADIX
}

/// The value that `c` has as a digit: `0` to `9` for the decimal digits, `10`
/// to `35` for the letters of either case, and `36`, which is a digit in no
/// radix, for every other byte.
pub open spec fn digit_value(c: u8) -> nat {
    if ZERO <= c <= NINE {
        (c - ZERO) as nat
    } else if UPPER_A <= c <= UPPER_Z {
        (c - UPPER_A + 10) as nat
    } else if LOWER_A <= c <= LOWER_Z {
        (c - LOWER_A + 10) as nat
    } else {
        36
    }
}

/// Whether `c` is a digit in `radix`.
pub open spec fn is_digit(c: u8, radix: u32) -> bool {
    digit_value(c) < radix
}

/// The value of `c` as a digit in `radix`, if it is one.
pub fn to_digit(c: u8, radix: u32) -> (r: Option<u32>)
    requires
        is_radix(radix),
    ensures
        r == if is_digit(c, radix) {
            Some(digit_value(c) as u32)
        } else {
            None
        },
{
    let value: u32 = if c >= ZERO && c <= NINE {
        (c - ZERO) as u32
    } else if c >= UPPER_A && c <= UPPER_Z {
        (c - UPPER_A) as u32 + 10
    } else if c >= LOWER_A && c <= LOWER_Z {
        (c - LOWER_A) as u32 + 10
    } else {
        36
    };
    if value < radix {
        Some(value)
    } else {
        None
    }
}

/// Whether `c` is a digit in `radix`.
pub fn is_digit_in(c: u8, radix: u32) -> (r: bool)
    requires
        is_radix(radix),
    ensures
        r == is_digit(c, radix),
{
    to_digit(c, radix).is_some()
}

/// The byte that stands for the digit `digit`: a decimal digit below ten, an
/// uppercase letter from ten on.
pub open spec fn spec_digit_to_char(digit: nat) -> u8 {
    if digit < 10 {
        (ZERO + digit) as u8
    } else {
        (UPPER_A + digit - 10) as u8
    }
}

/// The characters of the digits, in the order of their values.
pub const DIGIT_TO_CHAR: [u8; 36] = [
    0x30, 0x31, 0x32, 0x33, 0x34, 0x35, 0x36, 0x37, 0x38, 0x39, 0x41, 0x42,
    0x43, 0x44, 0x45, 0x46, 0x47, 0x48, 0x49, 0x4A, 0x4B, 0x4C, 0x4D, 0x4E,
    0x4F, 0x50, 0x51, 0x52, 0x53, 0x54, 0x55, 0x56, 0x57, 0x58, 0x59, 0x5A,
];

/// Get character from digit.
pub fn digit_to_char(digit: u32) -> (r: u8)
    requires
        digit < 36,
    ensures
        r == spec_digit_to_char(digit as nat),
        digit_value(r) == digit,
{
    DIGIT_TO_CHAR[digit as usize]
}

/// The byte of a digit is a digit again, with the value it was made from.
pub proof fn lemma_digit_round_trip(digit: nat, radix: u32)
    requires
        is_radix(radix),
        digit < radix,
    ensures
        is_digit(spec_digit_to_char(digit), radix),
        digit_value(spec_digit_to_char(digit)) == digit,
{
}

/// A letter has the same digit value in either case.
pub proof fn lemma_digit_value_ignores_case(c: u8)
    ensures
        digit_value(crate::flags::spec_to_ascii_lowercase(c)) == digit_value(c),
{
}

} // verus!

//! The ASCII bytes that the grammar of numbers names.

use vstd::prelude::*;

verus! {

/// `+`
pub const PLUS: u8 = 0x2B;

/// `-`
pub const MINUS: u8 = 0x2D;

/// `.`
pub const POINT: u8 = 0x2E;

/// `0`
pub const ZERO: u8 = 0x30;

/// `9`
pub const NINE: u8 = 0x39;

/// `A`
pub const UPPER_A: u8 = 0x41;

/// `Z`
pub const UPPER_Z: u8 = 0x5A;

/// `^`
pub const CARET: u8 = 0x5E;

/// `a`
pub const LOWER_A: u8 = 0x61;

/// `e`
pub const LOWER_E: u8 = 0x65;

/// `i`
pub const LOWER_I: u8 = 0x69;

/// `n`
pub const LOWER_N: u8 = 0x6E;

/// `p`
pub const LOWER_P: u8 = 0x70;

/// `z`
pub const LOWER_Z: u8 = 0x7A;

} // verus!

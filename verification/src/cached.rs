//! Tables of powers of a radix as extended floats: the mantissas and the
//! exponents are held side by side.

use vstd::prelude::*;

use crate::float::ExtendedFloat;

verus! {

/// Precalculated powers that uses two separate arrays for memory-efficiency.
#[derive(Clone, Copy, Debug)]
pub struct ExtendedFloatArray {
    /// Pre-calculated mantissa for the powers.
    pub mant: &'static [u64],
    /// Pre-calculated binary exponents for the powers.
    pub exp: &'static [i32],
}

impl ExtendedFloatArray {
    /// Whether every mantissa has its exponent.
    pub open spec fn is_valid(&self) -> bool {
        self.mant@.len() == self.exp@.len()
    }

    /// The float at `index`.
    pub open spec fn spec_get(&self, index: int) -> ExtendedFloat {
        ExtendedFloat { mant: self.mant@[index], exp: self.exp@[index] }
    }

    /// Get the extended float at `index`.
    pub fn get_extended_float(&self, index: usize) -> (r: ExtendedFloat)
        requires
            index < self.mant@.len(),
            index < self.exp@.len(),
        ensures
            r == self.spec_get(index as int),
    {
        let mant = self.mant[index];
        let exp = self.exp[index];
        ExtendedFloat { mant, exp }
    }

    /// The number of floats in the table.
    pub fn len(&self) -> (r: usize)
        ensures
            r == self.mant@.len(),
    {
        self.mant.len()
    }
}

/// Precalculated powers of base N for the moderate path.
#[derive(Clone, Copy, Debug)]
pub struct ModeratePathPowers {
    /// Pre-calculated small powers.
    pub small: ExtendedFloatArray,
    /// Pre-calculated large powers.
    pub large: ExtendedFloatArray,
    /// Pre-calculated small powers as 64-bit integers.
    pub small_int: &'static [u64],
    /// Step between large powers and number of small powers.
    pub step: i32,
    /// Exponent bias for the large powers.
    pub bias: i32,
}

impl ModeratePathPowers {
    /// Whether both tables of floats are valid.
    pub open spec fn is_valid(&self) -> bool {
        self.small.is_valid() && self.large.is_valid()
    }

    /// Get the small power at `index`.
    pub fn get_small(&self, index: usize) -> (r: ExtendedFloat)
        requires
            index < self.small.mant@.len(),
            index < self.small.exp@.len(),
        ensures
            r == self.small.spec_get(index as int),
    {
        self.small.get_extended_float(index)
    }

    /// Get the large power at `index`.
    pub fn get_large(&self, index: usize) -> (r: ExtendedFloat)
        requires
            index < self.large.mant@.len(),
            index < self.large.exp@.len(),
        ensures
            r == self.large.spec_get(index as int),
    {
        self.large.get_extended_float(index)
    }

    /// Get the small power at `index` as an integer.
    pub fn get_small_int(&self, index: usize) -> (r: u64)
        requires
            index < self.small_int@.len(),
        ensures
            r == self.small_int@[index as int],
    {
        self.small_int[index]
    }
}

} // verus!

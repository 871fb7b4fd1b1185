//! IEEE binary floating point, as integers: the layouts of the two formats,
//! values held by their bit patterns, and the extended float that conversions
//! pass through.

use vstd::arithmetic::power2::pow2;
use vstd::prelude::*;

verus! {

/// The layout of a binary floating-point format: how a sign, a biased
/// exponent and a fraction share the bits of a word.
#[derive(Clone, Copy, Debug, PartialEq, Eq, Hash, Structural)]
pub enum FloatLayout {
    /// IEEE binary32: 8 exponent bits, 23 fraction bits.
    Single,
    /// IEEE binary64: 11 exponent bits, 52 fraction bits.
    Double,
}

impl FloatLayout {
    /// Number of fraction bits. The mantissa has one bit more, the hidden bit.
    pub open spec fn spec_mantissa_size(self) -> nat {
        match self {
            FloatLayout::Single => 23,
            FloatLayout::Double => 52,
        }
    }

    /// Number of exponent bits.
    pub open spec fn spec_exponent_size(self) -> nat {
        match self {
            FloatLayout::Single => 8,
            FloatLayout::Double => 11,
        }
    }

    /// The hidden bit of the mantissa: two to the number of fraction bits.
    pub open spec fn spec_hidden_bit(self) -> nat {
        match self {
            FloatLayout::Single => 0x80_0000,
            FloatLayout::Double => 0x10_0000_0000_0000,
        }
    }

    /// What is added to the binary exponent of the integer mantissa to get
    /// the exponent field.
    pub open spec fn spec_exponent_bias(self) -> int {
        match self {
            FloatLayout::Single => 150,
            FloatLayout::Double => 1075,
        }
    }

    /// The binary exponent of the integer mantissa of the subnormal numbers,
    /// which is the smallest there is.
    pub open spec fn spec_denormal_exponent(self) -> int {
        1 - self.spec_exponent_bias()
    }

    /// The binary exponent from which on a value with the hidden bit set is
    /// not finite: that of the exponent field with all bits set.
    pub open spec fn spec_max_exponent(self) -> int {
        match self {
            FloatLayout::Single => 105,
            FloatLayout::Double => 972,
        }
    }

    /// The bit of the sign.
    pub open spec fn spec_sign_bit(self) -> nat {
        match self {
            FloatLayout::Single => 0x8000_0000,
            FloatLayout::Double => 0x8000_0000_0000_0000,
        }
    }

    /// The bits of positive infinity: the exponent field full, no fraction.
    pub open spec fn spec_infinity_bits(self) -> nat {
        match self {
            FloatLayout::Single => 0x7F80_0000,
            FloatLayout::Double => 0x7FF0_0000_0000_0000,
        }
    }

    /// The bits of the positive quiet not-a-number.
    pub open spec fn spec_nan_bits(self) -> nat {
        match self {
            FloatLayout::Single => 0x7FC0_0000,
            FloatLayout::Double => 0x7FF8_0000_0000_0000,
        }
    }

    /// The least power of two that is too large to be finite.
    pub open spec fn spec_overflow_exponent(self) -> nat {
        match self {
            FloatLayout::Single => 128,
            FloatLayout::Double => 1024,
        }
    }

    /// Number of fraction bits.
    pub fn mantissa_size(self) -> (r: u32)
        ensures
            r == self.spec_mantissa_size(),
    {
        match self {
            FloatLayout::Single => 23,
            FloatLayout::Double => 52,
        }
    }

    /// Number of exponent bits.
    pub fn exponent_size(self) -> (r: u32)
        ensures
            r == self.spec_exponent_size(),
    {
        match self {
            FloatLayout::Single => 8,
            FloatLayout::Double => 11,
        }
    }

    /// The hidden bit of the mantissa.
    pub fn hidden_bit(self) -> (r: u64)
        ensures
            r == self.spec_hidden_bit(),
    {
        match self {
            FloatLayout::Single => 0x80_0000,
            FloatLayout::Double => 0x10_0000_0000_0000,
        }
    }

    /// The bias of the exponent field.
    pub fn exponent_bias(self) -> (r: i32)
        ensures
            r == self.spec_exponent_bias(),
    {
        match self {
            FloatLayout::Single => 150,
            FloatLayout::Double => 1075,
        }
    }

    /// The binary exponent of the subnormal numbers.
    pub fn denormal_exponent(self) -> (r: i32)
        ensures
            r == self.spec_denormal_exponent(),
    {
        1 - self.exponent_bias()
    }

    /// The binary exponent from which on a value is not finite.
    pub fn max_exponent(self) -> (r: i32)
        ensures
            r == self.spec_max_exponent(),
    {
        match self {
            FloatLayout::Single => 105,
            FloatLayout::Double => 972,
        }
    }

    /// The bit of the sign.
    pub fn sign_bit(self) -> (r: u64)
        ensures
            r == self.spec_sign_bit(),
    {
        match self {
            FloatLayout::Single => 0x8000_0000,
            FloatLayout::Double => 0x8000_0000_0000_0000,
        }
    }

    /// The bits of positive infinity.
    pub fn infinity_bits(self) -> (r: u64)
        ensures
            r == self.spec_infinity_bits(),
    {
        match self {
            FloatLayout::Single => 0x7F80_0000,
            FloatLayout::Double => 0x7FF0_0000_0000_0000,
        }
    }

    /// The bits of the positive quiet not-a-number.
    pub fn nan_bits(self) -> (r: u64)
        ensures
            r == self.spec_nan_bits(),
    {
        match self {
            FloatLayout::Single => 0x7FC0_0000,
            FloatLayout::Double => 0x7FF8_0000_0000_0000,
        }
    }

    /// The least power of two that is too large to be finite.
    pub fn overflow_exponent(self) -> (r: u32)
        ensures
            r == self.spec_overflow_exponent(),
    {
        match self {
            FloatLayout::Single => 128,
            FloatLayout::Double => 1024,
        }
    }

    /// The numbers of a layout fit together: the hidden bit is two to the
    /// number of fraction bits, infinity is the full exponent field, and the
    /// exponents follow from the bias.
    pub proof fn lemma_layout(self)
        ensures
            self.spec_hidden_bit() == pow2(self.spec_mantissa_size()),
            self.spec_infinity_bits() == (pow2(self.spec_exponent_size()) - 1)
                * self.spec_hidden_bit(),
            self.spec_sign_bit() > self.spec_infinity_bits(),
            self.spec_exponent_bias() == pow2((self.spec_exponent_size() - 1) as nat) - 1
                + self.spec_mantissa_size(),
            self.spec_max_exponent() == pow2(self.spec_exponent_size()) - 1
                - self.spec_exponent_bias(),
            self.spec_overflow_exponent() == self.spec_max_exponent() + self.spec_mantissa_size(),
    {
        vstd::arithmetic::power2::lemma2_to64();
        vstd::arithmetic::power2::lemma2_to64_rest();
        match self {
            FloatLayout::Single => {
                assert(pow2(8) == 256 && pow2(23) == 0x80_0000);
                assert(0x7F80_0000 == (256 - 1) * 0x80_0000) by (nonlinear_arith);
            },
            FloatLayout::Double => {
                assert(pow2(11) == 2048 && pow2(52) == 0x10_0000_0000_0000);
                assert(0x7FF0_0000_0000_0000 == (2048 - 1) * 0x10_0000_0000_0000int)
                    by (nonlinear_arith);
            },
        }
    }

    /// The mantissa and binary exponent that the bits of a finite magnitude
    /// stand for: the value is the mantissa times two to the exponent.
    pub open spec fn decode(self, bits: nat) -> (nat, int) {
        let field = bits / self.spec_hidden_bit();
        let fraction = bits % self.spec_hidden_bit();
        if field == 0 {
            (fraction, self.spec_denormal_exponent())
        } else {
            (fraction + self.spec_hidden_bit(), field - self.spec_exponent_bias())
        }
    }

    /// Whether `bits` is a finite magnitude: no sign, the exponent field not
    /// full.
    pub open spec fn is_finite_magnitude(self, bits: nat) -> bool {
        bits < self.spec_infinity_bits()
    }
}

/// An IEEE binary16 value, held by its bit pattern.
#[derive(Clone, Copy, Debug, PartialEq, Eq, Hash, Structural)]
pub struct Float16 {
    /// The bit pattern.
    pub bits: u16,
}

impl Float16 {
    /// The value with the bit pattern `bits`.
    pub fn from_bits(bits: u16) -> (r: Float16)
        ensures
            r.bits == bits,
    {
        Float16 { bits }
    }

    /// The bit pattern of the value.
    pub fn to_bits(self) -> (r: u16)
        ensures
            r == self.bits,
    {
        self.bits
    }
}

/// A value of the brain floating-point format, the upper half of a
/// binary32 value, held by its bit pattern.
#[derive(Clone, Copy, Debug, PartialEq, Eq, Hash, Structural)]
pub struct BFloat16 {
    /// The bit pattern.
    pub bits: u16,
}

impl BFloat16 {
    /// The value with the bit pattern `bits`.
    pub fn from_bits(bits: u16) -> (r: BFloat16)
        ensures
            r.bits == bits,
    {
        BFloat16 { bits }
    }

    /// The bit pattern of the value.
    pub fn to_bits(self) -> (r: u16)
        ensures
            r == self.bits,
    {
        self.bits
    }
}

/// An IEEE binary128 value, held by its bit pattern.
#[derive(Clone, Copy, Debug, PartialEq, Eq, Hash, Structural)]
pub struct Float128 {
    /// The bit pattern.
    pub bits: u128,
}

impl Float128 {
    /// The value with the bit pattern `bits`.
    pub fn from_bits(bits: u128) -> (r: Float128)
        ensures
            r.bits == bits,
    {
        Float128 { bits }
    }

    /// The bit pattern of the value.
    pub fn to_bits(self) -> (r: u128)
        ensures
            r == self.bits,
    {
        self.bits
    }
}

/// An IEEE binary32 value, held by its bit pattern.
#[derive(Clone, Copy, Debug, PartialEq, Eq, Hash, Structural)]
pub struct Float32 {
    /// The bit pattern.
    pub bits: u32,
}

impl Float32 {
    /// The value with the bit pattern `bits`.
    pub fn from_bits(bits: u32) -> (r: Float32)
        ensures
            r.bits == bits,
    {
        Float32 { bits }
    }

    /// The bit pattern of the value.
    pub fn to_bits(self) -> (r: u32)
        ensures
            r == self.bits,
    {
        self.bits
    }
}

/// An IEEE binary64 value, held by its bit pattern.
#[derive(Clone, Copy, Debug, PartialEq, Eq, Hash, Structural)]
pub struct Float64 {
    /// The bit pattern.
    pub bits: u64,
}

impl Float64 {
    /// The value with the bit pattern `bits`.
    pub fn from_bits(bits: u64) -> (r: Float64)
        ensures
            r.bits == bits,
    {
        Float64 { bits }
    }

    /// The bit pattern of the value.
    pub fn to_bits(self) -> (r: u64)
        ensures
            r == self.bits,
    {
        self.bits
    }
}

/// A mantissa of 64 bits with a binary exponent: the value `mant * 2^exp`.
#[derive(Clone, Copy, Debug, PartialEq, Eq, Hash, Structural)]
pub struct ExtendedFloat {
    /// The mantissa.
    pub mant: u64,
    /// The binary exponent.
    pub exp: i32,
}

impl ExtendedFloat {
    /// Whether the float has the form of a finite value of `layout`: the
    /// mantissa has no bit above the hidden bit, and has the hidden bit unless
    /// the exponent is that of the subnormal numbers.
    pub open spec fn is_native(self, layout: FloatLayout) -> bool {
        &&& self.mant < 2 * layout.spec_hidden_bit()
        &&& layout.spec_denormal_exponent() <= self.exp < layout.spec_max_exponent()
        &&& (self.mant >= layout.spec_hidden_bit() || self.exp
            == layout.spec_denormal_exponent())
    }

    /// The bits that `into_float` makes of the float.
    pub open spec fn spec_into_float(self, layout: FloatLayout) -> nat {
        if self.mant == 0 || self.exp < layout.spec_denormal_exponent() {
            0
        } else if self.exp >= layout.spec_max_exponent() {
            layout.spec_infinity_bits()
        } else {
            let hidden = layout.spec_hidden_bit();
            let field = if self.exp == layout.spec_denormal_exponent() && (self.mant / (
            hidden as u64)) % 2 == 0 {
                0
            } else {
                self.exp + layout.spec_exponent_bias()
            };
            (field * hidden + self.mant % (hidden as u64)) as nat
        }
    }

    /// The float `mant * 2^exp`.
    pub fn new(mant: u64, exp: i32) -> (r: ExtendedFloat)
        ensures
            r == (ExtendedFloat { mant, exp }),
    {
        ExtendedFloat { mant, exp }
    }

    /// Whether the top bit of the mantissa is set, or the float is zero.
    pub open spec fn is_normalized(self) -> bool {
        self.mant == 0 || self.mant >= 0x8000_0000_0000_0000
    }

    /// Shift the mantissa up until its top bit is set, and take the shift
    /// from the exponent, so that the value stays what it was. Zero stays
    /// as it is. The shift is returned beside the float.
    pub fn normalize(self) -> (r: (ExtendedFloat, u32))
        requires
            self.exp >= i32::MIN + 64,
        ensures
            r.0.is_normalized(),
            r.1 <= 63,
            r.0.mant == self.mant * pow2(r.1 as nat),
            r.0.exp == self.exp - r.1,
            self.mant == 0 ==> r.1 == 0,
    {
        let mut mant = self.mant;
        let mut shift: u32 = 0;
        proof {
            vstd::arithmetic::power2::lemma2_to64();
            assert(mant * pow2(0) == mant) by (nonlinear_arith)
                requires
                    pow2(0) == 1,
            ;
        }
        if mant == 0 {
            return (self, 0);
        }
        while mant < 0x8000_0000_0000_0000
            invariant
                mant > 0,
                shift <= 63,
                mant == self.mant * pow2(shift as nat),
                self.mant > 0,
            decreases 64 - shift,
        {
            proof {
                vstd::arithmetic::power2::lemma_pow2_unfold((shift + 1) as nat);
                vstd::arithmetic::power2::lemma2_to64_rest();
                if shift >= 63 {
                    assert(self.mant * pow2(shift as nat) >= pow2(shift as nat))
                        by (nonlinear_arith)
                        requires
                            self.mant >= 1,
                            pow2(shift as nat) >= 0,
                    ;
                    assert(false);
                }
                assert(self.mant * pow2(shift as nat) * 2 == self.mant * (2 * pow2(shift as nat)))
                    by (nonlinear_arith);
            }
            mant = mant * 2;
            shift += 1;
        }
        (ExtendedFloat { mant, exp: self.exp - shift as i32 }, shift)
    }

    /// Multiply two floats: the upper half of the product of the mantissas,
    /// rounded to nearest, with the sum of the exponents and the sixty-four
    /// bits that the lower half took.
    pub fn mul(self, other: ExtendedFloat) -> (r: ExtendedFloat)
        requires
            i32::MIN <= self.exp + other.exp + 64 <= i32::MAX,
        ensures
            r.mant == (self.mant * other.mant + 0x8000_0000_0000_0000) / 0x1_0000_0000_0000_0000,
            r.exp == self.exp + other.exp + 64,
    {
        assert(self.mant * other.mant + 0x8000_0000_0000_0000
            <= 0xFFFF_FFFF_FFFF_FFFF_FFFF_FFFF_FFFF_FFFF && (self.mant * other.mant
            + 0x8000_0000_0000_0000) / 0x1_0000_0000_0000_0000 <= 0xFFFF_FFFF_FFFF_FFFF)
            by (nonlinear_arith)
            requires
                self.mant <= 0xFFFF_FFFF_FFFF_FFFF,
                other.mant <= 0xFFFF_FFFF_FFFF_FFFF,
        ;
        let product: u128 = (self.mant as u128) * (other.mant as u128) + 0x8000_0000_0000_0000;
        let exp = (self.exp as i64) + (other.exp as i64) + 64;
        ExtendedFloat { mant: (product / 0x1_0000_0000_0000_0000) as u64, exp: exp as i32 }
    }
}

impl From<(u64, i32)> for ExtendedFloat {
    fn from(t: (u64, i32)) -> (r: ExtendedFloat) {
        ExtendedFloat { mant: t.0, exp: t.1 }
    }
}

impl vstd::std_specs::convert::FromSpecImpl<(u64, i32)> for ExtendedFloat {
    open spec fn obeys_from_spec() -> bool {
        true
    }

    open spec fn from_spec(t: (u64, i32)) -> ExtendedFloat {
        ExtendedFloat { mant: t.0, exp: t.1 }
    }
}

/// The extended float of an integer: the integer with exponent zero.
pub fn from_int(t: u64) -> (r: ExtendedFloat)
    ensures
        r == (ExtendedFloat { mant: t, exp: 0 }),
{
    ExtendedFloat { mant: t, exp: 0 }
}

/// The extended float of the magnitude of a native float, from its bits
/// without the sign: its integer mantissa and binary exponent.
pub fn from_float(bits: u64, layout: FloatLayout) -> (r: ExtendedFloat)
    requires
        bits < layout.spec_sign_bit(),
    ensures
        (r.mant as nat, r.exp as int) == layout.decode(bits as nat),
{
    let hidden = layout.hidden_bit();
    let field = bits / hidden;
    let fraction = bits % hidden;
    if field == 0 {
        ExtendedFloat { mant: fraction, exp: layout.denormal_exponent() }
    } else {
        ExtendedFloat { mant: fraction + hidden, exp: field as i32 - layout.exponent_bias() }
    }
}

/// Export an extended float to the bits of a native float.
///
/// A float below the subnormal range gives zero and one from the largest
/// exponent on gives infinity. Otherwise the exponent goes to the exponent
/// field and the mantissa, without its hidden bit, to the fraction: for a
/// float in native form, the bits stand for exactly its mantissa and
/// exponent.
pub fn into_float(fp: ExtendedFloat, layout: FloatLayout) -> (r: u64)
    ensures
        r == fp.spec_into_float(layout),
        r <= layout.spec_infinity_bits(),
        fp.is_native(layout) ==> layout.is_finite_magnitude(r as nat) && layout.decode(r as nat)
            == (fp.mant as nat, fp.exp as int),
{
    let hidden = layout.hidden_bit();
    if fp.mant == 0 || fp.exp < layout.denormal_exponent() {
        0
    } else if fp.exp >= layout.max_exponent() {
        layout.infinity_bits()
    } else {
        let field: u64 = if fp.exp == layout.denormal_exponent() && (fp.mant / hidden) % 2 == 0 {
            0
        } else {
            (fp.exp + layout.exponent_bias()) as u64
        };
        let fraction = fp.mant % hidden;
        assert(field * hidden + fraction <= layout.spec_infinity_bits()) by (nonlinear_arith)
            requires
                fraction < hidden,
                field <= layout.spec_max_exponent() - 1 + layout.spec_exponent_bias(),
                layout.spec_infinity_bits() == (layout.spec_max_exponent()
                    + layout.spec_exponent_bias()) * hidden,
        ;
        let bits = field * hidden + fraction;
        proof {
            if fp.is_native(layout) {
                lemma_field_and_fraction(field as nat, fraction as nat, hidden as nat);
                assert(field * hidden + fraction < layout.spec_infinity_bits())
                    by (nonlinear_arith)
                    requires
                        fraction < hidden,
                        field <= layout.spec_max_exponent() - 1 + layout.spec_exponent_bias(),
                        layout.spec_infinity_bits() == (layout.spec_max_exponent()
                            + layout.spec_exponent_bias()) * hidden,
                ;
            }
        }
        bits
    }
}

/// A word made of a field above a fraction gives both back.
pub proof fn lemma_field_and_fraction(field: nat, fraction: nat, hidden: nat)
    requires
        fraction < hidden,
    ensures
        (field * hidden + fraction) / hidden == field,
        (field * hidden + fraction) % hidden == fraction,
{
    vstd::arithmetic::div_mod::lemma_fundamental_div_mod_converse(
        (field * hidden + fraction) as int,
        hidden as int,
        field as int,
        fraction as int,
    );
}

} // verus!

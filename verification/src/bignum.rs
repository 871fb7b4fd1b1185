//! Big integers: natural numbers of any size, as limbs of 32 bits with the
//! least significant limb first.

use vstd::arithmetic::power::pow;
use vstd::prelude::*;

use crate::digit::is_radix;
use crate::float::ExtendedFloat;

verus! {

/// The base of the limbs: two to the thirty-second.
pub const LIMB_BASE: u64 = 0x1_0000_0000;

/// The weight of the limb at `i`: the base to the `i`.
pub open spec fn weight(i: nat) -> nat {
    pow(LIMB_BASE as int, i) as nat
}

/// The limb at `i`, which is zero beyond the limbs that are held.
pub open spec fn limb(s: Seq<u32>, i: int) -> nat {
    if 0 <= i < s.len() {
        s[i] as nat
    } else {
        0
    }
}

/// The number that the first `n` limbs make.
pub open spec fn prefix_value(s: Seq<u32>, n: nat) -> nat
    decreases n,
{
    if n == 0 {
        0
    } else {
        prefix_value(s, (n - 1) as nat) + limb(s, n - 1) * weight((n - 1) as nat)
    }
}

/// The number that the limbs make.
pub open spec fn limbs_value(s: Seq<u32>) -> nat {
    prefix_value(s, s.len())
}

/// The weights are the powers of the base.
pub proof fn lemma_weight(i: nat)
    ensures
        weight(0) == 1,
        weight(i + 1) == LIMB_BASE * weight(i),
        weight(i) >= 1,
{
    reveal_with_fuel(pow, 2);
    vstd::arithmetic::power::lemma_pow_positive(LIMB_BASE as int, i);
    vstd::arithmetic::power::lemma_pow_positive(LIMB_BASE as int, i + 1);
}

/// The weight of a limb is a power of two.
pub proof fn lemma_weight_is_pow2(i: nat)
    ensures
        weight(i) == vstd::arithmetic::power2::pow2(32 * i),
    decreases i,
{
    vstd::arithmetic::power2::lemma2_to64();
    lemma_weight(i);
    if i > 0 {
        lemma_weight_is_pow2((i - 1) as nat);
        lemma_weight((i - 1) as nat);
        vstd::arithmetic::power2::lemma_pow2_adds(32, 32 * (i - 1) as nat);
    }
}

/// The first `n` limbs make less than the weight of the next limb.
pub proof fn lemma_prefix_bound(s: Seq<u32>, n: nat)
    ensures
        prefix_value(s, n) < weight(n),
    decreases n,
{
    lemma_weight(n);
    if n > 0 {
        let m = (n - 1) as nat;
        lemma_prefix_bound(s, m);
        lemma_weight(m);
        assert(limb(s, m as int) * weight(m) <= (LIMB_BASE - 1) * weight(m)) by (nonlinear_arith)
            requires
                limb(s, m as int) <= LIMB_BASE - 1,
        ;
        assert((LIMB_BASE - 1) * weight(m) + weight(m) == LIMB_BASE * weight(m))
            by (nonlinear_arith);
    }
}

/// Limbs beyond those that are held add nothing.
pub proof fn lemma_prefix_beyond(s: Seq<u32>, n: nat)
    requires
        n >= s.len(),
    ensures
        prefix_value(s, n) == limbs_value(s),
    decreases n,
{
    if n > s.len() {
        lemma_prefix_beyond(s, (n - 1) as nat);
        assert(limb(s, n - 1) * weight((n - 1) as nat) == 0) by (nonlinear_arith)
            requires
                limb(s, n - 1) == 0,
        ;
    }
}

/// Limbs that agree from `from` up to `to` add the same to both numbers.
pub proof fn lemma_prefix_agree(s: Seq<u32>, t: Seq<u32>, from: nat, to: nat)
    requires
        from <= to,
        forall|j: int| from <= j < to ==> limb(s, j) == limb(t, j),
    ensures
        prefix_value(s, to) - prefix_value(s, from) == prefix_value(t, to) - prefix_value(t, from),
    decreases to,
{
    if from < to {
        lemma_prefix_agree(s, t, from, (to - 1) as nat);
    }
}

/// Of two numbers whose limbs agree above `i`, the one with the larger limb
/// at `i` is the larger.
pub proof fn lemma_prefix_differ(s: Seq<u32>, t: Seq<u32>, i: nat, n: nat)
    requires
        i < n,
        forall|j: int| i < j < n ==> limb(s, j) == limb(t, j),
        limb(s, i as int) < limb(t, i as int),
    ensures
        prefix_value(s, n) < prefix_value(t, n),
{
    lemma_prefix_agree(s, t, i + 1, n);
    lemma_prefix_bound(s, i);
    let w = weight(i);
    assert(limb(s, i as int) * w + w <= limb(t, i as int) * w) by (nonlinear_arith)
        requires
            limb(s, i as int) + 1 <= limb(t, i as int),
            w >= 0,
    ;
}

/// How two numbers stand to each other.
#[derive(Clone, Copy, Debug, PartialEq, Eq, Structural)]
pub enum Order {
    /// The first is the smaller.
    Less,
    /// They are the same.
    Equal,
    /// The first is the larger.
    Greater,
}

impl Order {
    /// How `a` stands to `b`.
    pub open spec fn of(a: nat, b: nat) -> Order {
        if a < b {
            Order::Less
        } else if a == b {
            Order::Equal
        } else {
            Order::Greater
        }
    }
}

/// A natural number of any size.
#[derive(Debug)]
pub struct Bigint {
    /// The limbs, the least significant first.
    pub limbs: Vec<u32>,
}

impl Default for Bigint {
    /// Zero.
    fn default() -> (r: Bigint)
        ensures
            r.value() == 0,
    {
        Bigint::new()
    }
}

impl Bigint {
    /// The number.
    pub open spec fn value(&self) -> nat {
        limbs_value(self.limbs@)
    }

    /// Zero.
    pub fn new() -> (r: Bigint)
        ensures
            r.value() == 0,
    {
        Bigint { limbs: Vec::new() }
    }

    /// The number `x`.
    pub fn from_u64(x: u64) -> (r: Bigint)
        ensures
            r.value() == x,
    {
        let mut limbs: Vec<u32> = Vec::new();
        let low = (x % LIMB_BASE) as u32;
        let high = (x / LIMB_BASE) as u32;
        limbs.push(low);
        limbs.push(high);
        proof {
            lemma_weight(0);
            lemma_weight(1);
            reveal_with_fuel(prefix_value, 3);
            assert(limb(limbs@, 1) * weight(1) == high * LIMB_BASE) by (nonlinear_arith)
                requires
                    limb(limbs@, 1) == high,
                    weight(1) == LIMB_BASE,
            ;
            assert(limb(limbs@, 0) * weight(0) == low) by (nonlinear_arith)
                requires
                    limb(limbs@, 0) == low,
                    weight(0) == 1,
            ;
        }
        Bigint { limbs }
    }

    /// Create the number from the mantissa of a float.
    pub fn from_mant(mant: u64) -> (r: Bigint)
        ensures
            r.value() == mant,
    {
        Bigint::from_u64(mant)
    }

    /// Whether the number is zero.
    pub fn is_zero(&self) -> (r: bool)
        ensures
            r == (self.value() == 0),
    {
        let n = self.limbs.len();
        let mut i: usize = 0;
        while i < n
            invariant
                n == self.limbs@.len(),
                i <= n,
                prefix_value(self.limbs@, i as nat) == 0,
            decreases n - i,
        {
            if self.limbs[i] != 0 {
                proof {
                    lemma_weight(i as nat);
                    assert(limb(self.limbs@, i as int) * weight(i as nat) >= 1)
                        by (nonlinear_arith)
                        requires
                            limb(self.limbs@, i as int) >= 1,
                            weight(i as nat) >= 1,
                    ;
                    lemma_nonnegative_rest(self.limbs@, (i + 1) as nat, n as nat);
                }
                return false;
            }
            assert(limb(self.limbs@, i as int) * weight(i as nat) == 0) by (nonlinear_arith)
                requires
                    limb(self.limbs@, i as int) == 0,
            ;
            i += 1;
        }
        true
    }

    /// Multiply the number by `y` and add `c`.
    pub fn mul_add_small(&mut self, y: u32, c: u32)
        ensures
            final(self).value() == old(self).value() * y + c,
    {
        let ghost before = self.limbs@;
        let n = self.limbs.len();
        let mut carry: u64 = c as u64;
        let mut i: usize = 0;
        proof {
            lemma_weight(0);
            assert(carry * weight(0) == c) by (nonlinear_arith)
                requires
                    carry == c,
                    weight(0) == 1,
            ;
            assert(prefix_value(before, 0) * y == 0) by (nonlinear_arith)
                requires
                    prefix_value(before, 0) == 0,
            ;
        }
        while i < n
            invariant
                n == self.limbs@.len(),
                n == before.len(),
                i <= n,
                carry < LIMB_BASE,
                forall|j: int| i <= j < n ==> self.limbs@[j] == before[j],
                prefix_value(self.limbs@, i as nat) + carry * weight(i as nat) == prefix_value(
                    before,
                    i as nat,
                ) * y + c,
            decreases n - i,
        {
            let ghost during = self.limbs@;
            let x = self.limbs[i] as u64;
            assert(x * (y as u64) + carry <= 0xFFFF_FFFF * 0xFFFF_FFFF + 0xFFFF_FFFF)
                by (nonlinear_arith)
                requires
                    x <= 0xFFFF_FFFF,
                    y <= 0xFFFF_FFFF,
                    carry <= 0xFFFF_FFFF,
            ;
            let t: u64 = x * (y as u64) + carry;
            let low = (t % LIMB_BASE) as u32;
            self.limbs.set(i, low);
            let next = t / LIMB_BASE;
            proof {
                let w = weight(i as nat);
                lemma_weight(i as nat);
                lemma_prefix_agree(during, self.limbs@, 0, i as nat);
                assert(limb(self.limbs@, i as int) == low);
                assert(limb(before, i as int) == x);
                assert(low * w + next * (LIMB_BASE * w) == x * y * w + carry * w)
                    by (nonlinear_arith)
                    requires
                        low + next * LIMB_BASE == x * y + carry,
                ;
                assert((prefix_value(before, i as nat) + x * w) * y == prefix_value(
                    before,
                    i as nat,
                ) * y + x * y * w) by (nonlinear_arith);
            }
            carry = next;
            i += 1;
        }
        proof {
            lemma_weight(n as nat);
        }
        if carry != 0 {
            let ghost during = self.limbs@;
            self.limbs.push(carry as u32);
            proof {
                lemma_prefix_agree(during, self.limbs@, 0, n as nat);
            }
        } else {
            assert(carry * weight(n as nat) == 0) by (nonlinear_arith)
                requires
                    carry == 0,
            ;
        }
    }

    /// How the number stands to `other`.
    pub fn compare(&self, other: &Bigint) -> (r: Order)
        ensures
            r == Order::of(self.value(), other.value()),
    {
        let n = if self.limbs.len() > other.limbs.len() {
            self.limbs.len()
        } else {
            other.limbs.len()
        };
        proof {
            lemma_prefix_beyond(self.limbs@, n as nat);
            lemma_prefix_beyond(other.limbs@, n as nat);
        }
        let mut i = n;
        while i > 0
            invariant
                i <= n,
                forall|j: int| i <= j < n ==> limb(self.limbs@, j) == limb(other.limbs@, j),
                prefix_value(self.limbs@, n as nat) == self.value(),
                prefix_value(other.limbs@, n as nat) == other.value(),
            decreases i,
        {
            i -= 1;
            let x = if i < self.limbs.len() {
                self.limbs[i]
            } else {
                0
            };
            let y = if i < other.limbs.len() {
                other.limbs[i]
            } else {
                0
            };
            if x < y {
                proof {
                    lemma_prefix_differ(self.limbs@, other.limbs@, i as nat, n as nat);
                }
                return Order::Less;
            }
            if x > y {
                proof {
                    lemma_prefix_differ(other.limbs@, self.limbs@, i as nat, n as nat);
                }
                return Order::Greater;
            }
        }
        proof {
            lemma_prefix_agree(self.limbs@, other.limbs@, 0, n as nat);
        }
        Order::Equal
    }

    /// Take `other` from the number, which is not less than `other`.
    pub fn sub_assign(&mut self, other: &Bigint)
        requires
            old(self).value() >= other.value(),
        ensures
            final(self).value() == old(self).value() - other.value(),
    {
        while self.limbs.len() < other.limbs.len()
            invariant
                self.value() == old(self).value(),
            decreases other.limbs@.len() - self.limbs@.len(),
        {
            let ghost during = self.limbs@;
            self.limbs.push(0);
            proof {
                lemma_prefix_agree(during, self.limbs@, 0, during.len());
                assert(limb(self.limbs@, during.len() as int) * weight(during.len()) == 0)
                    by (nonlinear_arith)
                    requires
                        limb(self.limbs@, during.len() as int) == 0,
                ;
            }
        }
        let ghost before = self.limbs@;
        let n = self.limbs.len();
        let mut borrow: u64 = 0;
        let mut i: usize = 0;
        assert(borrow * weight(0) == 0) by (nonlinear_arith)
            requires
                borrow == 0,
        ;
        while i < n
            invariant
                n == self.limbs@.len(),
                n == before.len(),
                i <= n,
                borrow <= 1,
                forall|j: int| i <= j < n ==> self.limbs@[j] == before[j],
                prefix_value(self.limbs@, i as nat) + prefix_value(other.limbs@, i as nat)
                    == prefix_value(before, i as nat) + borrow * weight(i as nat),
            decreases n - i,
        {
            let ghost during = self.limbs@;
            let x = self.limbs[i] as u64;
            let y = if i < other.limbs.len() {
                other.limbs[i] as u64
            } else {
                0
            } + borrow;
            let (low, next): (u64, u64) = if x >= y {
                (x - y, 0)
            } else {
                (x + LIMB_BASE - y, 1)
            };
            self.limbs.set(i, low as u32);
            proof {
                let w = weight(i as nat);
                lemma_weight(i as nat);
                lemma_prefix_agree(during, self.limbs@, 0, i as nat);
                assert(limb(self.limbs@, i as int) == low);
                assert(limb(before, i as int) == x);
                assert(limb(other.limbs@, i as int) == y - borrow);
                assert(low * w + (y - borrow) * w + borrow * w == x * w + next * (LIMB_BASE * w))
                    by (nonlinear_arith)
                    requires
                        low + y == x + next * LIMB_BASE,
                ;
            }
            borrow = next;
            i += 1;
        }
        proof {
            lemma_prefix_beyond(other.limbs@, n as nat);
            lemma_prefix_bound(self.limbs@, n as nat);
            assert(borrow * weight(n as nat) >= weight(n as nat) || borrow == 0)
                by (nonlinear_arith)
                requires
                    borrow <= 1,
                    weight(n as nat) >= 0,
            ;
            assert(borrow * weight(n as nat) == 0) by (nonlinear_arith)
                requires
                    borrow == 0,
            ;
        }
    }

    /// Add `other` to the number.
    pub fn add_assign(&mut self, other: &Bigint)
        ensures
            final(self).value() == old(self).value() + other.value(),
    {
        while self.limbs.len() < other.limbs.len()
            invariant
                self.value() == old(self).value(),
            decreases other.limbs@.len() - self.limbs@.len(),
        {
            let ghost during = self.limbs@;
            self.limbs.push(0);
            proof {
                lemma_prefix_agree(during, self.limbs@, 0, during.len());
                assert(limb(self.limbs@, during.len() as int) * weight(during.len()) == 0)
                    by (nonlinear_arith)
                    requires
                        limb(self.limbs@, during.len() as int) == 0,
                ;
            }
        }
        let ghost before = self.limbs@;
        let n = self.limbs.len();
        let mut carry: u64 = 0;
        let mut i: usize = 0;
        assert(carry * weight(0) == 0) by (nonlinear_arith)
            requires
                carry == 0,
        ;
        while i < n
            invariant
                n == self.limbs@.len(),
                n == before.len(),
                i <= n,
                carry <= 1,
                forall|j: int| i <= j < n ==> self.limbs@[j] == before[j],
                prefix_value(self.limbs@, i as nat) + carry * weight(i as nat) == prefix_value(
                    before,
                    i as nat,
                ) + prefix_value(other.limbs@, i as nat),
            decreases n - i,
        {
            let ghost during = self.limbs@;
            let x = self.limbs[i] as u64;
            let y = if i < other.limbs.len() {
                other.limbs[i] as u64
            } else {
                0
            };
            let t: u64 = x + y + carry;
            let low = (t % LIMB_BASE) as u32;
            self.limbs.set(i, low);
            let next = t / LIMB_BASE;
            proof {
                let w = weight(i as nat);
                lemma_weight(i as nat);
                lemma_prefix_agree(during, self.limbs@, 0, i as nat);
                assert(limb(self.limbs@, i as int) == low);
                assert(limb(before, i as int) == x);
                assert(limb(other.limbs@, i as int) == y);
                assert(low * w + next * (LIMB_BASE * w) == x * w + y * w + carry * w)
                    by (nonlinear_arith)
                    requires
                        low + next * LIMB_BASE == x + y + carry,
                ;
            }
            carry = next;
            i += 1;
        }
        proof {
            lemma_weight(n as nat);
            lemma_prefix_beyond(other.limbs@, n as nat);
        }
        if carry != 0 {
            let ghost during = self.limbs@;
            self.limbs.push(carry as u32);
            proof {
                lemma_prefix_agree(during, self.limbs@, 0, n as nat);
            }
        } else {
            assert(carry * weight(n as nat) == 0) by (nonlinear_arith)
                requires
                    carry == 0,
            ;
        }
    }

    /// A copy of the number.
    pub fn duplicate(&self) -> (r: Bigint)
        ensures
            r.value() == self.value(),
            r.limbs@ == self.limbs@,
    {
        let n = self.limbs.len();
        let mut limbs: Vec<u32> = Vec::new();
        let mut i: usize = 0;
        while i < n
            invariant
                n == self.limbs@.len(),
                i <= n,
                limbs@ == self.limbs@.take(i as int),
            decreases n - i,
        {
            limbs.push(self.limbs[i]);
            assert(limbs@ == self.limbs@.take(i + 1));
            i += 1;
        }
        assert(limbs@ == self.limbs@);
        Bigint { limbs }
    }
}

/// Limbs add nothing negative.
pub proof fn lemma_nonnegative_rest(s: Seq<u32>, from: nat, to: nat)
    requires
        from <= to,
    ensures
        prefix_value(s, from) <= prefix_value(s, to),
    decreases to,
{
    if from < to {
        lemma_nonnegative_rest(s, from, (to - 1) as nat);
    }
}

/// Whether `bits` is the number of bits that a digit of `radix` takes at
/// most: the least power of two that is not below the radix.
pub open spec fn is_binary_factor(radix: u32, bits: int) -> bool {
    &&& bits >= 1
    &&& pow(2, (bits - 1) as nat) < radix
    &&& radix <= pow(2, bits as nat)
}

/// Calculate the integral ceiling of the binary factor from a basen number:
/// the number of bits that a digit of `radix` takes at most.
pub fn integral_binary_factor(radix: u32) -> (r: u32)
    requires
        is_radix(radix),
    ensures
        is_binary_factor(radix, r as int),
{
    proof {
        reveal_with_fuel(pow, 8);
        assert(pow(2, 0) == 1 && pow(2, 1) == 2 && pow(2, 2) == 4 && pow(2, 3) == 8 && pow(2, 4)
            == 16 && pow(2, 5) == 32 && pow(2, 6) == 64);
    }
    match radix {
        2 => 1,
        3 => 2,
        4 => 2,
        5 => 3,
        6 => 3,
        7 => 3,
        8 => 3,
        9 => 4,
        10 => 4,
        11 => 4,
        12 => 4,
        13 => 4,
        14 => 4,
        15 => 4,
        16 => 4,
        17 => 5,
        18 => 5,
        19 => 5,
        20 => 5,
        21 => 5,
        22 => 5,
        23 => 5,
        24 => 5,
        25 => 5,
        26 => 5,
        27 => 5,
        28 => 5,
        29 => 5,
        30 => 5,
        31 => 5,
        32 => 5,
        33 => 6,
        34 => 6,
        35 => 6,
        _ => 6,
    }
}

/// A natural number of any size with a binary exponent: the number times
/// two to the exponent.
#[derive(Debug)]
pub struct Bigfloat {
    /// The number.
    pub data: Bigint,
    /// The binary exponent.
    pub exp: i32,
}

impl Default for Bigfloat {
    /// Zero.
    fn default() -> (r: Bigfloat)
        ensures
            r.data.value() == 0,
            r.exp == 0,
    {
        Bigfloat { data: Bigint::new(), exp: 0 }
    }
}

impl Bigfloat {
    /// Create the number `x`, with the exponent zero.
    pub fn from_u64(x: u64) -> (r: Bigfloat)
        ensures
            r.data.value() == x,
            r.exp == 0,
    {
        Bigfloat { data: Bigint::from_u64(x), exp: 0 }
    }

    /// Multiply by two to the `n`: the exponent takes it.
    pub fn imul_pow2(&mut self, n: u32)
        requires
            old(self).exp + n <= i32::MAX,
        ensures
            final(self).exp == old(self).exp + n,
            final(self).data.value() == old(self).data.value(),
    {
        let sum: i64 = self.exp as i64 + n as i64;
        self.exp = sum as i32;
    }
}

impl ExtendedFloat {
    /// The float as a number of any size: its mantissa, with its exponent.
    pub fn to_bigfloat(&self) -> (r: Bigfloat)
        ensures
            r.data.value() == self.mant,
            r.exp == self.exp,
    {
        let mut bigfloat = Bigfloat::from_u64(self.mant);
        bigfloat.exp = self.exp;
        bigfloat
    }
}

} // verus!

//! Writing integers: the digits are found from the right, two at a time
//! from a table in decimal, and the sign is put before them.

use vstd::arithmetic::power::pow;
use vstd::prelude::*;

use crate::ascii::MINUS;
use crate::digit::{digit_to_char, is_radix, spec_digit_to_char};

verus! {

/// The two digits of every number below a hundred, side by side.
pub const DIGIT_TO_BASE10_SQUARED: [u8; 200] = [
    0x30, 0x30, 0x30, 0x31, 0x30, 0x32, 0x30, 0x33, 0x30, 0x34, 0x30, 0x35, 0x30, 0x36, 0x30,
    0x37, 0x30, 0x38, 0x30, 0x39, 0x31, 0x30, 0x31, 0x31, 0x31, 0x32, 0x31, 0x33, 0x31, 0x34,
    0x31, 0x35, 0x31, 0x36, 0x31, 0x37, 0x31, 0x38, 0x31, 0x39, 0x32, 0x30, 0x32, 0x31, 0x32,
    0x32, 0x32, 0x33, 0x32, 0x34, 0x32, 0x35, 0x32, 0x36, 0x32, 0x37, 0x32, 0x38, 0x32, 0x39,
    0x33, 0x30, 0x33, 0x31, 0x33, 0x32, 0x33, 0x33, 0x33, 0x34, 0x33, 0x35, 0x33, 0x36, 0x33,
    0x37, 0x33, 0x38, 0x33, 0x39, 0x34, 0x30, 0x34, 0x31, 0x34, 0x32, 0x34, 0x33, 0x34, 0x34,
    0x34, 0x35, 0x34, 0x36, 0x34, 0x37, 0x34, 0x38, 0x34, 0x39, 0x35, 0x30, 0x35, 0x31, 0x35,
    0x32, 0x35, 0x33, 0x35, 0x34, 0x35, 0x35, 0x35, 0x36, 0x35, 0x37, 0x35, 0x38, 0x35, 0x39,
    0x36, 0x30, 0x36, 0x31, 0x36, 0x32, 0x36, 0x33, 0x36, 0x34, 0x36, 0x35, 0x36, 0x36, 0x36,
    0x37, 0x36, 0x38, 0x36, 0x39, 0x37, 0x30, 0x37, 0x31, 0x37, 0x32, 0x37, 0x33, 0x37, 0x34,
    0x37, 0x35, 0x37, 0x36, 0x37, 0x37, 0x37, 0x38, 0x37, 0x39, 0x38, 0x30, 0x38, 0x31, 0x38,
    0x32, 0x38, 0x33, 0x38, 0x34, 0x38, 0x35, 0x38, 0x36, 0x38, 0x37, 0x38, 0x38, 0x38, 0x39,
    0x39, 0x30, 0x39, 0x31, 0x39, 0x32, 0x39, 0x33, 0x39, 0x34, 0x39, 0x35, 0x39, 0x36, 0x39,
    0x37, 0x39, 0x38, 0x39, 0x39,
];

/// The digits of `n` in `radix`, the most significant first; zero is one
/// digit.
pub open spec fn digits_of(n: nat, radix: u32) -> Seq<u8>
    decreases n,
{
    if n < radix || radix < 2 {
        seq![spec_digit_to_char(n)]
    } else {
        proof {
            vstd::arithmetic::div_mod::lemma_div_decreases(n as int, radix as int);
        }
        digits_of(n / (radix as nat), radix).push(spec_digit_to_char(n % (radix as nat)))
    }
}

/// The text of the integer `v` in `radix`: a minus if it is negative, then
/// the digits of its magnitude.
pub open spec fn integer_text(v: int, radix: u32) -> Seq<u8> {
    if v < 0 {
        seq![MINUS] + digits_of((-v) as nat, radix)
    } else {
        digits_of(v as nat, radix)
    }
}

/// A number below the power `k` of the radix has at most `k` digits.
pub proof fn lemma_digits_bound(n: nat, radix: u32, k: nat)
    requires
        is_radix(radix),
        k >= 1,
        n < pow(radix as int, k),
    ensures
        1 <= digits_of(n, radix).len() <= k,
    decreases n,
{
    if n >= radix {
        vstd::arithmetic::power::lemma_pow1(radix as int);
        if k == 1 {
            assert(false);
        }
        vstd::arithmetic::power::lemma_pow_adds(radix as int, (k - 1) as nat, 1);
        let below = pow(radix as int, (k - 1) as nat);
        vstd::arithmetic::div_mod::lemma_fundamental_div_mod(n as int, radix as int);
        vstd::arithmetic::div_mod::lemma_mod_bound(n as int, radix as int);
        assert(n / (radix as nat) < below) by (nonlinear_arith)
            requires
                n < below * radix,
                n == radix * (n / (radix as nat)) + n % (radix as nat),
                n % (radix as nat) >= 0,
                radix > 0,
        ;
        vstd::arithmetic::div_mod::lemma_div_decreases(n as int, radix as int);
        lemma_digits_bound(n / (radix as nat), radix, (k - 1) as nat);
    }
}

/// The two digits of a number of two decimal digits, from the table.
fn two_digits(r: u128) -> (d: (u8, u8))
    requires
        r < 100,
    ensures
        d.0 == spec_digit_to_char((r / 10) as nat),
        d.1 == spec_digit_to_char((r % 10) as nat),
{
    let at = (2 * r) as usize;
    proof {
        lemma_two_digit_table(r as int);
    }
    (DIGIT_TO_BASE10_SQUARED[at], DIGIT_TO_BASE10_SQUARED[at + 1])
}

/// The table holds, for every number below a hundred, its two digits.
proof fn lemma_two_digit_table(r: int)
    requires
        0 <= r < 100,
    ensures
        DIGIT_TO_BASE10_SQUARED[2 * r] == 0x30 + r / 10,
        DIGIT_TO_BASE10_SQUARED[2 * r + 1] == 0x30 + r % 10,
{
    if r < 25 {
    } else if r < 50 {
    } else if r < 75 {
    } else {
    }
}

/// Count the digits of `value` in `radix`.
pub fn count_unsigned_digits(value: u128, radix: u32) -> (count: usize)
    requires
        is_radix(radix),
    ensures
        count == digits_of(value as nat, radix).len(),
        1 <= count <= 128,
{
    let mut n = value;
    let mut count: usize = 1;
    proof {
        reveal_with_fuel(pow, 2);
        assert(n * pow(2, 0) <= value);
    }
    while n >= radix as u128
        invariant
            is_radix(radix),
            1 <= count <= 128,
            n >= 1 || count == 1,
            n * pow(2, (count - 1) as nat) <= value,
            digits_of(value as nat, radix).len() == digits_of(n as nat, radix).len() + count - 1,
        decreases n,
    {
        let ghost before = n;
        n = n / (radix as u128);
        proof {
            let weight = pow(2, (count - 1) as nat);
            vstd::arithmetic::power::lemma_pow_adds(2, (count - 1) as nat, 1);
            vstd::arithmetic::power::lemma_pow1(2);
            vstd::arithmetic::power::lemma_pow_positive(2, (count - 1) as nat);
            vstd::arithmetic::div_mod::lemma_fundamental_div_mod(before as int, radix as int);
            vstd::arithmetic::div_mod::lemma_mod_bound(before as int, radix as int);
            assert(n * (weight * 2) <= value) by (nonlinear_arith)
                requires
                    before * weight <= value,
                    before == radix * n + before % (radix as u128),
                    before % (radix as u128) >= 0,
                    radix >= 2,
                    weight > 0,
                    n >= 0,
            ;
            assert(n >= 1) by (nonlinear_arith)
                requires
                    before == radix * n + before % (radix as u128),
                    before % (radix as u128) < radix,
                    before >= radix,
                    radix >= 2,
            ;
            if count >= 128 {
                vstd::arithmetic::power2::lemma_pow2(64);
                vstd::arithmetic::power2::lemma2_to64_rest();
                vstd::arithmetic::power::lemma_pow_adds(2, 64, 64);
                vstd::arithmetic::power::lemma_pow_increases(2, 128, count as nat);
                assert(pow(2, 128) == 0x1_0000_0000_0000_0000_0000_0000_0000_0000)
                    by (nonlinear_arith)
                    requires
                        pow(2, 128) == pow(2, 64) * pow(2, 64),
                        pow(2, 64) == 0x1_0000_0000_0000_0000,
                ;
                assert(n * pow(2, count as nat) >= pow(2, count as nat)) by (nonlinear_arith)
                    requires
                        n >= 1,
                        pow(2, count as nat) >= 0,
                ;
                assert(false);
            }
        }
        count += 1;
    }
    count
}

/// Write the digits of `value` in `radix` into `bytes` from `start` on, and
/// return where they end.
pub fn write_unsigned(value: u128, radix: u32, bytes: &mut [u8], start: usize) -> (end: usize)
    requires
        is_radix(radix),
        start + digits_of(value as nat, radix).len() <= old(bytes)@.len(),
    ensures
        end == start + digits_of(value as nat, radix).len(),
        final(bytes)@.len() == old(bytes)@.len(),
        final(bytes)@.subrange(start as int, end as int) == digits_of(value as nat, radix),
        forall|i: int|
            0 <= i < old(bytes)@.len() && !(start <= i < end) ==> final(bytes)@[i] == old(
                bytes,
            )@[i],
{
    let len = bytes.len();
    let count = count_unsigned_digits(value, radix);
    let end = start + count;
    let ghost text = digits_of(value as nat, radix);
    proof {
        reveal_with_fuel(digits_of, 3);
    }
    let mut n = value;
    let mut p = end;
    if radix == 10 {
        while n >= 100
            invariant
                radix == 10,
                start < p <= end <= bytes@.len(),
                bytes@.len() == old(bytes)@.len(),
                p == start + digits_of(n as nat, radix).len(),
                text == digits_of(n as nat, radix) + bytes@.subrange(p as int, end as int),
                forall|i: int|
                    0 <= i < bytes@.len() && !(start <= i < end) ==> bytes@[i] == old(bytes)@[i],
            decreases n,
        {
            let r = n % 100;
            let ghost before = n;
            let ghost tail = bytes@.subrange(p as int, end as int);
            n = n / 100;
            let d = two_digits(r);
            proof {
                assert(before / 10 >= 10);
                assert((before / 10) / 10 == n && (before / 10) % 10 == r / 10 && before % 10 == r
                    % 10) by (nonlinear_arith)
                    requires
                        n == before / 100,
                        r == before % 100,
                ;
                let b = before as nat;
                let ten = radix as nat;
                assert(digits_of(b, radix) == digits_of(b / ten, radix).push(
                    spec_digit_to_char(b % ten),
                ));
                assert(digits_of(b / ten, radix) == digits_of(b / ten / ten, radix).push(
                    spec_digit_to_char((b / ten) % ten),
                ));
                assert(b / ten / ten == n);
                assert(digits_of(before as nat, radix) == digits_of(n as nat, radix).push(
                    d.0,
                ).push(d.1));
            }
            bytes[p - 1] = d.1;
            bytes[p - 2] = d.0;
            p -= 2;
            assert(bytes@.subrange(p as int, end as int) == seq![d.0, d.1] + tail);
            assert(digits_of(n as nat, radix).push(d.0).push(d.1) + tail == digits_of(
                n as nat,
                radix,
            ) + (seq![d.0, d.1] + tail));
        }
        if n >= 10 {
            let ghost tail = bytes@.subrange(p as int, end as int);
            let d = two_digits(n);
            assert(digits_of(n as nat, radix) == seq![d.0, d.1]);
            bytes[p - 1] = d.1;
            bytes[p - 2] = d.0;
            p -= 2;
            assert(bytes@.subrange(p as int, end as int) == seq![d.0, d.1] + tail);
        } else {
            let ghost tail = bytes@.subrange(p as int, end as int);
            let c = digit_to_char(n as u32);
            bytes[p - 1] = c;
            p -= 1;
            assert(bytes@.subrange(p as int, end as int) == seq![c] + tail);
        }
    } else {
        while n >= radix as u128
            invariant
                is_radix(radix),
                start < p <= end <= bytes@.len(),
                bytes@.len() == old(bytes)@.len(),
                p == start + digits_of(n as nat, radix).len(),
                text == digits_of(n as nat, radix) + bytes@.subrange(p as int, end as int),
                forall|i: int|
                    0 <= i < bytes@.len() && !(start <= i < end) ==> bytes@[i] == old(bytes)@[i],
            decreases n,
        {
            let r = (n % (radix as u128)) as u32;
            let ghost before = n;
            let ghost tail = bytes@.subrange(p as int, end as int);
            n = n / (radix as u128);
            let c = digit_to_char(r);
            bytes[p - 1] = c;
            p -= 1;
            assert(bytes@.subrange(p as int, end as int) == seq![c] + tail);
            assert(digits_of(n as nat, radix).push(c) + tail == digits_of(n as nat, radix) + (
            seq![c] + tail));
        }
        let ghost tail = bytes@.subrange(p as int, end as int);
        let c = digit_to_char(n as u32);
        bytes[p - 1] = c;
        p -= 1;
        assert(bytes@.subrange(p as int, end as int) == seq![c] + tail);
    }
    end
}

/// Write the text of the integer with the magnitude `magnitude`, negative
/// if `negative` says so, in `radix` at the start of `bytes`, and return
/// its length.
pub fn write_integer(negative: bool, magnitude: u128, radix: u32, bytes: &mut [u8]) -> (len:
    usize)
    requires
        is_radix(radix),
        negative ==> magnitude > 0,
        (if negative {
            1nat
        } else {
            0nat
        }) + digits_of(magnitude as nat, radix).len() <= old(bytes)@.len(),
    ensures
        final(bytes)@.len() == old(bytes)@.len(),
        final(bytes)@.take(len as int) == integer_text(
            if negative {
                -(magnitude as int)
            } else {
                magnitude as int
            },
            radix,
        ),
        len <= old(bytes)@.len(),
        len == (if negative {
            1nat
        } else {
            0nat
        }) + digits_of(magnitude as nat, radix).len(),
        forall|i: int| len <= i < old(bytes)@.len() ==> final(bytes)@[i] == old(bytes)@[i],
{
    if negative {
        bytes[0] = MINUS;
        let end = write_unsigned(magnitude, radix, bytes, 1);
        assert(bytes@.take(end as int) == seq![MINUS] + bytes@.subrange(1, end as int));
        end
    } else {
        let end = write_unsigned(magnitude, radix, bytes, 0);
        assert(bytes@.take(end as int) == bytes@.subrange(0, end as int));
        end
    }
}

} // verus!

//! Parsing integers: an optional sign, then a region of digits whose value
//! has to fit the type.

use vstd::prelude::*;

use crate::ascii::{MINUS, PLUS};
use crate::digit::{is_digit, is_radix, to_digit};
use crate::error::{Error, ErrorCode};
use crate::flags::NO_INTEGER_LEADING_ZEROS;
use crate::format::NumberFormat;
use crate::scan::{
    count_between, has_leading_zero, integer_policy, leading_zero, region_end, scan_digits,
    spec_integer_policy, value_between,
};

verus! {

/// What the parser has to know of an integer type.
#[derive(Clone, Copy, Debug, PartialEq, Eq, Structural)]
pub struct IntegerKind {
    /// Whether the type has negative values.
    pub signed: bool,
    /// The largest value of the type.
    pub max: u128,
    /// The magnitude of the least value of the type.
    pub min_magnitude: u128,
    /// How many digits are folded into the value at a time: a value that is
    /// too large is noticed where such a group of digits ends. With one digit
    /// at a time, it is noticed at the digit that is too much.
    pub step: usize,
}

/// The place of the digit with which the digits from `from` on first make
/// more than `limit`; `to` if they never do. The search has reached `p`.
pub open spec fn first_over(s: Seq<u8>, from: int, p: int, to: int, radix: u32, limit: nat) -> int
    decreases to - p,
{
    if p >= to || p < from {
        to
    } else if value_between(s, from, p + 1, radix) > limit {
        p
    } else {
        first_over(s, from, p + 1, to, radix, limit)
    }
}

/// The place behind the `need`-th digit from `p` on, or `to` if there are
/// fewer digits.
pub open spec fn after_digits(s: Seq<u8>, p: int, to: int, radix: u32, need: nat) -> int
    decreases to - p,
{
    if need == 0 {
        p
    } else if p >= to || p < 0 || to > s.len() {
        to
    } else if is_digit(s[p], radix) {
        after_digits(s, p + 1, to, radix, (need - 1) as nat)
    } else {
        after_digits(s, p + 1, to, radix, need)
    }
}

/// Where a value above `limit` is reported: at the digit that is too much,
/// or, where digits are folded in groups of `step`, behind the group that
/// holds it.
pub open spec fn overflow_index(
    s: Seq<u8>,
    from: int,
    to: int,
    radix: u32,
    limit: nat,
    step: usize,
) -> int {
    let at = first_over(s, from, from, to, radix, limit);
    if step <= 1 {
        at
    } else {
        let digits = count_between(s, from, at + 1, radix);
        let rest = ((step - digits % (step as nat)) % (step as int)) as nat;
        after_digits(s, at + 1, to, radix, rest)
    }
}

/// What parsing an integer gives: whether the value is negative, its
/// magnitude, and how many bytes were consumed; or the error.
///
/// An empty input, or a sign alone, is `Empty`. The digits are those of the
/// region that the format's policy for integer digits consumes behind the
/// sign. A minus is a sign for signed types only. Leading zeros are refused
/// where the format forbids them. A value outside the type is `Overflow`, or
/// `Underflow` if it is negative.
pub open spec fn spec_parse_integer(
    s: Seq<u8>,
    radix: u32,
    format: NumberFormat,
    kind: IntegerKind,
) -> Result<(bool, u128, usize), Error> {
    if s.len() == 0 {
        Err(Error { code: ErrorCode::Empty, index: 0 })
    } else {
        let negative = kind.signed && s[0] == MINUS;
        let start: int = if s[0] == PLUS || negative {
            1
        } else {
            0
        };
        if start == s.len() {
            Err(Error { code: ErrorCode::Empty, index: start as usize })
        } else {
            let end = region_end(s, start, radix, spec_integer_policy(format));
            let limit = if negative {
                kind.min_magnitude
            } else {
                kind.max
            };
            let value = value_between(s, start, end, radix);
            if format.has(NO_INTEGER_LEADING_ZEROS) && has_leading_zero(s, start, end, radix) {
                Err(Error { code: ErrorCode::InvalidLeadingZeros, index: start as usize })
            } else if value > limit {
                Err(
                    Error {
                        code: if negative {
                            ErrorCode::Underflow
                        } else {
                            ErrorCode::Overflow
                        },
                        index: overflow_index(s, start, end, radix, limit as nat, kind.step) as usize,
                    },
                )
            } else {
                Ok((negative, value as u128, end as usize))
            }
        }
    }
}

/// Digits that follow do not make a number smaller.
pub proof fn lemma_value_monotone(s: Seq<u8>, from: int, mid: int, to: int, radix: u32)
    requires
        0 <= from <= mid <= to <= s.len(),
        is_radix(radix),
    ensures
        value_between(s, from, mid, radix) <= value_between(s, from, to, radix),
    decreases to - mid,
{
    if mid < to {
        lemma_value_monotone(s, from, mid, to - 1, radix);
        let v = value_between(s, from, to - 1, radix);
        assert(v * (radix as nat) >= v) by (nonlinear_arith)
            requires
                radix >= 1,
        ;
    }
}

/// One more digit makes more than `limit` if and only if what the digits
/// before it make is above the quotient of what is left for them.
pub proof fn lemma_overflow_test(acc: nat, digit: nat, radix: nat, limit: nat)
    requires
        radix >= 2,
        digit <= limit,
    ensures
        (acc * radix + digit > limit) == (acc > (limit - digit) / (radix as int)),
{
    let room = (limit - digit) as int;
    let q = room / (radix as int);
    vstd::arithmetic::div_mod::lemma_fundamental_div_mod(room, radix as int);
    vstd::arithmetic::div_mod::lemma_mod_bound(room, radix as int);
    if acc > q {
        assert(acc * radix >= (q + 1) * radix) by (nonlinear_arith)
            requires
                acc >= q + 1,
                radix >= 0,
        ;
        assert((q + 1) * radix == radix * q + radix) by (nonlinear_arith);
    } else {
        assert(acc * radix <= q * radix) by (nonlinear_arith)
            requires
                acc <= q,
                radix >= 0,
        ;
        assert(q * radix == radix * q) by (nonlinear_arith);
    }
}

/// Find the place behind the `need`-th digit from `p` on.
fn skip_digits(bytes: &[u8], p: usize, to: usize, radix: u32, need: usize) -> (r: usize)
    requires
        is_radix(radix),
        p <= to <= bytes@.len(),
    ensures
        r == after_digits(bytes@, p as int, to as int, radix, need as nat),
        p <= r <= to,
{
    let mut q = p;
    let mut left = need;
    while left > 0 && q < to
        invariant
            is_radix(radix),
            p <= q <= to <= bytes@.len(),
            after_digits(bytes@, p as int, to as int, radix, need as nat) == after_digits(
                bytes@,
                q as int,
                to as int,
                radix,
                left as nat,
            ),
        decreases to - q,
    {
        if to_digit(bytes[q], radix).is_some() {
            left -= 1;
        }
        q += 1;
    }
    if left == 0 {
        q
    } else {
        to
    }
}

/// Make the number of the digits among `bytes[from..to]`, as long as it
/// does not exceed `limit`; if it does, say where that is reported.
pub fn accumulate(
    bytes: &[u8],
    from: usize,
    to: usize,
    radix: u32,
    limit: u128,
    step: usize,
) -> (r: Result<u128, usize>)
    requires
        is_radix(radix),
        from <= to <= bytes@.len(),
    ensures
        match r {
            Ok(value) => value == value_between(bytes@, from as int, to as int, radix) && value
                <= limit,
            Err(index) => value_between(bytes@, from as int, to as int, radix) > limit && index
                == overflow_index(bytes@, from as int, to as int, radix, limit as nat, step)
                && from <= index <= to,
        },
{
    let mut p = from;
    let mut acc: u128 = 0;
    let mut count: usize = 0;
    while p < to
        invariant
            is_radix(radix),
            from <= p <= to <= bytes@.len(),
            acc == value_between(bytes@, from as int, p as int, radix),
            acc <= limit,
            count == count_between(bytes@, from as int, p as int, radix),
            count <= p - from,
            first_over(bytes@, from as int, from as int, to as int, radix, limit as nat)
                == first_over(bytes@, from as int, p as int, to as int, radix, limit as nat),
        decreases to - p,
    {
        match to_digit(bytes[p], radix) {
            Some(d) => {
                let digit = d as u128;
                proof {
                    if digit <= limit {
                        lemma_overflow_test(acc as nat, digit as nat, radix as nat, limit as nat);
                    } else {
                        assert(acc * radix + digit > limit) by (nonlinear_arith)
                            requires
                                digit > limit,
                                acc >= 0,
                                radix >= 0,
                        ;
                    }
                }
                if digit > limit || acc > (limit - digit) / (radix as u128) {
                    proof {
                        lemma_value_monotone(bytes@, from as int, p + 1, to as int, radix);
                    }
                    if step <= 1 {
                        return Err(p);
                    }
                    let digits = count + 1;
                    let rest = (step - digits % step) % step;
                    return Err(skip_digits(bytes, p + 1, to, radix, rest));
                }
                assert(acc * radix + digit <= limit);
                acc = acc * (radix as u128) + digit;
                count += 1;
            },
            None => {},
        }
        p += 1;
    }
    Ok(acc)
}

/// Parse an integer of the kind `kind` from the start of `bytes`.
pub fn parse_integer(bytes: &[u8], radix: u32, format: NumberFormat, kind: IntegerKind) -> (r:
    Result<(bool, u128, usize), Error>)
    requires
        is_radix(radix),
    ensures
        r == spec_parse_integer(bytes@, radix, format, kind),
        r matches Ok((negative, value, consumed)) ==> consumed <= bytes@.len() && value <= (
        if negative {
            kind.min_magnitude
        } else {
            kind.max
        }) && (negative ==> kind.signed),
{
    if bytes.len() == 0 {
        return Err(Error { code: ErrorCode::Empty, index: 0 });
    }
    let negative = kind.signed && bytes[0] == MINUS;
    let start: usize = if bytes[0] == PLUS || negative {
        1
    } else {
        0
    };
    if start == bytes.len() {
        return Err(Error { code: ErrorCode::Empty, index: start });
    }
    let end = scan_digits(bytes, start, radix, integer_policy(format));
    if format.no_integer_leading_zeros() && leading_zero(bytes, start, end, radix) {
        return Err(Error { code: ErrorCode::InvalidLeadingZeros, index: start });
    }
    let limit = if negative {
        kind.min_magnitude
    } else {
        kind.max
    };
    match accumulate(bytes, start, end, radix, limit, kind.step) {
        Ok(value) => Ok((negative, value, end)),
        Err(index) => Err(
            Error {
                code: if negative {
                    ErrorCode::Underflow
                } else {
                    ErrorCode::Overflow
                },
                index,
            },
        ),
    }
}

} // verus!

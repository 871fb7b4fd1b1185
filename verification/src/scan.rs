//! Regions of digits: where a run of digits with its digit separators ends,
//! and what number its digits make.
//!
//! A region is consumed by a machine of three states that reads one byte at
//! a time. A digit separator is taken for the time being; whether it counts
//! is settled by what follows it.

use vstd::prelude::*;

use crate::digit::{digit_value, is_digit, is_radix, to_digit};
use crate::format::NumberFormat;
use crate::flags::{
    EXPONENT_CONSECUTIVE_DIGIT_SEPARATOR, EXPONENT_INTERNAL_DIGIT_SEPARATOR,
    EXPONENT_LEADING_DIGIT_SEPARATOR, EXPONENT_TRAILING_DIGIT_SEPARATOR,
    FRACTION_CONSECUTIVE_DIGIT_SEPARATOR, FRACTION_INTERNAL_DIGIT_SEPARATOR,
    FRACTION_LEADING_DIGIT_SEPARATOR, FRACTION_TRAILING_DIGIT_SEPARATOR,
    INTEGER_CONSECUTIVE_DIGIT_SEPARATOR, INTEGER_INTERNAL_DIGIT_SEPARATOR,
    INTEGER_LEADING_DIGIT_SEPARATOR, INTEGER_TRAILING_DIGIT_SEPARATOR,
};

verus! {

/// Where digit separators may stand in one region of a number.
#[derive(Clone, Copy, Debug, PartialEq, Eq, Structural)]
pub struct SeparatorPolicy {
    /// The digit separator.
    pub separator: u8,
    /// Separators may stand between two digits.
    pub internal: bool,
    /// Separators may stand before the first digit.
    pub leading: bool,
    /// Separators may stand after the last digit.
    pub trailing: bool,
    /// Several separators may stand side by side.
    pub consecutive: bool,
}

impl SeparatorPolicy {
    /// Whether a separator may stand anywhere at all.
    pub open spec fn spec_is_active(self) -> bool {
        self.internal || self.leading || self.trailing
    }

    /// Whether a separator may stand anywhere at all.
    pub fn is_active(&self) -> (r: bool)
        ensures
            r == self.spec_is_active(),
    {
        self.internal || self.leading || self.trailing
    }

    /// The policy that lets no separator stand.
    pub open spec fn spec_none() -> SeparatorPolicy {
        SeparatorPolicy {
            separator: 0,
            internal: false,
            leading: false,
            trailing: false,
            consecutive: false,
        }
    }

    /// The policy that lets no separator stand.
    pub fn none() -> (r: SeparatorPolicy)
        ensures
            r == Self::spec_none(),
    {
        SeparatorPolicy {
            separator: 0,
            internal: false,
            leading: false,
            trailing: false,
            consecutive: false,
        }
    }
}

/// The policy of a format for the integer digits.
pub open spec fn spec_integer_policy(format: NumberFormat) -> SeparatorPolicy {
    SeparatorPolicy {
        separator: format.spec_digit_separator(),
        internal: format.has(INTEGER_INTERNAL_DIGIT_SEPARATOR),
        leading: format.has(INTEGER_LEADING_DIGIT_SEPARATOR),
        trailing: format.has(INTEGER_TRAILING_DIGIT_SEPARATOR),
        consecutive: format.has(INTEGER_CONSECUTIVE_DIGIT_SEPARATOR),
    }
}

/// The policy of a format for the fraction digits.
pub open spec fn spec_fraction_policy(format: NumberFormat) -> SeparatorPolicy {
    SeparatorPolicy {
        separator: format.spec_digit_separator(),
        internal: format.has(FRACTION_INTERNAL_DIGIT_SEPARATOR),
        leading: format.has(FRACTION_LEADING_DIGIT_SEPARATOR),
        trailing: format.has(FRACTION_TRAILING_DIGIT_SEPARATOR),
        consecutive: format.has(FRACTION_CONSECUTIVE_DIGIT_SEPARATOR),
    }
}

/// The policy of a format for the exponent digits.
pub open spec fn spec_exponent_policy(format: NumberFormat) -> SeparatorPolicy {
    SeparatorPolicy {
        separator: format.spec_digit_separator(),
        internal: format.has(EXPONENT_INTERNAL_DIGIT_SEPARATOR),
        leading: format.has(EXPONENT_LEADING_DIGIT_SEPARATOR),
        trailing: format.has(EXPONENT_TRAILING_DIGIT_SEPARATOR),
        consecutive: format.has(EXPONENT_CONSECUTIVE_DIGIT_SEPARATOR),
    }
}

/// The policy of a format for the integer digits.
pub fn integer_policy(format: NumberFormat) -> (r: SeparatorPolicy)
    ensures
        r == spec_integer_policy(format),
{
    SeparatorPolicy {
        separator: format.digit_separator(),
        internal: format.integer_internal_digit_separator(),
        leading: format.integer_leading_digit_separator(),
        trailing: format.integer_trailing_digit_separator(),
        consecutive: format.integer_consecutive_digit_separator(),
    }
}

/// The policy of a format for the fraction digits.
pub fn fraction_policy(format: NumberFormat) -> (r: SeparatorPolicy)
    ensures
        r == spec_fraction_policy(format),
{
    SeparatorPolicy {
        separator: format.digit_separator(),
        internal: format.fraction_internal_digit_separator(),
        leading: format.fraction_leading_digit_separator(),
        trailing: format.fraction_trailing_digit_separator(),
        consecutive: format.fraction_consecutive_digit_separator(),
    }
}

/// The policy of a format for the exponent digits.
pub fn exponent_policy(format: NumberFormat) -> (r: SeparatorPolicy)
    ensures
        r == spec_exponent_policy(format),
{
    SeparatorPolicy {
        separator: format.digit_separator(),
        internal: format.exponent_internal_digit_separator(),
        leading: format.exponent_leading_digit_separator(),
        trailing: format.exponent_trailing_digit_separator(),
        consecutive: format.exponent_consecutive_digit_separator(),
    }
}

/// The state of the machine that consumes a region of digits.
#[derive(Clone, Copy, Debug, PartialEq, Eq, Structural)]
pub enum ScanState {
    /// Nothing has been read.
    Start,
    /// The last byte was a digit.
    AfterDigit,
    /// The last byte was a digit separator. `seen` says whether a digit came
    /// before the separators, `mark` is where they began: the region ends
    /// there unless what follows lets them stand.
    AfterSeparator { seen: bool, mark: usize },
}

/// Where the region ends when the machine, in `state`, finds at `p` a byte
/// that is neither digit nor separator, or the end of the input: separators
/// that were taken stand if they may trail the digits, or lead where there
/// are none.
pub open spec fn scan_finish(policy: SeparatorPolicy, state: ScanState, p: int) -> int {
    match state {
        ScanState::Start => p,
        ScanState::AfterDigit => p,
        ScanState::AfterSeparator { seen, mark } => if (seen && policy.trailing) || (!seen
            && policy.leading) {
            p
        } else {
            mark as int
        },
    }
}

/// Where the region ends that the machine, in `state` at `p`, consumes.
pub open spec fn scan(
    s: Seq<u8>,
    p: int,
    radix: u32,
    policy: SeparatorPolicy,
    state: ScanState,
) -> int
    decreases s.len() - p,
{
    if p < 0 || p >= s.len() {
        scan_finish(policy, state, p)
    } else if is_digit(s[p], radix) {
        match state {
            ScanState::AfterSeparator { seen, mark } => if (seen && policy.internal) || (!seen
                && policy.leading) {
                scan(s, p + 1, radix, policy, ScanState::AfterDigit)
            } else {
                mark as int
            },
            _ => scan(s, p + 1, radix, policy, ScanState::AfterDigit),
        }
    } else if policy.spec_is_active() && s[p] == policy.separator {
        match state {
            ScanState::Start => scan(
                s,
                p + 1,
                radix,
                policy,
                ScanState::AfterSeparator { seen: false, mark: p as usize },
            ),
            ScanState::AfterDigit => scan(
                s,
                p + 1,
                radix,
                policy,
                ScanState::AfterSeparator { seen: true, mark: p as usize },
            ),
            ScanState::AfterSeparator { seen, mark } => if policy.consecutive {
                scan(s, p + 1, radix, policy, state)
            } else {
                mark as int
            },
        }
    } else {
        scan_finish(policy, state, p)
    }
}

/// Where the region of digits that begins at `start` ends.
pub open spec fn region_end(s: Seq<u8>, start: int, radix: u32, policy: SeparatorPolicy) -> int {
    scan(s, start, radix, policy, ScanState::Start)
}

/// The region that the machine consumes ends between where the machine is,
/// or where the separators began that it holds, and the end of the input.
pub proof fn lemma_scan_bounds(
    s: Seq<u8>,
    p: int,
    radix: u32,
    policy: SeparatorPolicy,
    state: ScanState,
)
    requires
        0 <= p <= s.len() <= usize::MAX,
        state matches ScanState::AfterSeparator { mark, .. } ==> mark < p,
    ensures
        scan(s, p, radix, policy, state) <= s.len(),
        state matches ScanState::AfterSeparator { mark, .. } ==> mark <= scan(
            s,
            p,
            radix,
            policy,
            state,
        ),
        !(state is AfterSeparator) ==> p <= scan(s, p, radix, policy, state),
        state matches ScanState::AfterSeparator { mark, .. } ==> mark == scan(
            s,
            p,
            radix,
            policy,
            state,
        ) || p <= scan(s, p, radix, policy, state),
    decreases s.len() - p,
{
    if p >= s.len() {
    } else if is_digit(s[p], radix) {
        lemma_scan_bounds(s, p + 1, radix, policy, ScanState::AfterDigit);
    } else if policy.spec_is_active() && s[p] == policy.separator {
        match state {
            ScanState::Start => lemma_scan_bounds(
                s,
                p + 1,
                radix,
                policy,
                ScanState::AfterSeparator { seen: false, mark: p as usize },
            ),
            ScanState::AfterDigit => lemma_scan_bounds(
                s,
                p + 1,
                radix,
                policy,
                ScanState::AfterSeparator { seen: true, mark: p as usize },
            ),
            ScanState::AfterSeparator { .. } => lemma_scan_bounds(s, p + 1, radix, policy, state),
        }
    }
}

/// Find where the region of digits that begins at `start` ends.
pub fn scan_digits(bytes: &[u8], start: usize, radix: u32, policy: SeparatorPolicy) -> (end:
    usize)
    requires
        is_radix(radix),
        start <= bytes@.len(),
    ensures
        end == region_end(bytes@, start as int, radix, policy),
        start <= end <= bytes@.len(),
{
    let active = policy.is_active();
    let len = bytes.len();
    let mut p = start;
    let mut state = ScanState::Start;
    proof {
        lemma_scan_bounds(bytes@, start as int, radix, policy, ScanState::Start);
    }
    while p < bytes.len()
        invariant
            is_radix(radix),
            start <= p <= bytes@.len(),
            active == policy.spec_is_active(),
            state matches ScanState::AfterSeparator { mark, .. } ==> start <= mark < p,
            region_end(bytes@, start as int, radix, policy) == scan(
                bytes@,
                p as int,
                radix,
                policy,
                state,
            ),
        decreases bytes@.len() - p,
    {
        let c = bytes[p];
        if to_digit(c, radix).is_some() {
            match state {
                ScanState::AfterSeparator { seen, mark } => {
                    if !((seen && policy.internal) || (!seen && policy.leading)) {
                        return mark;
                    }
                },
                _ => {},
            }
            state = ScanState::AfterDigit;
        } else if active && c == policy.separator {
            match state {
                ScanState::Start => {
                    state = ScanState::AfterSeparator { seen: false, mark: p };
                },
                ScanState::AfterDigit => {
                    state = ScanState::AfterSeparator { seen: true, mark: p };
                },
                ScanState::AfterSeparator { seen, mark } => {
                    if !policy.consecutive {
                        return mark;
                    }
                },
            }
        } else {
            return finish_scan(policy, state, p);
        }
        p += 1;
    }
    finish_scan(policy, state, p)
}

/// Settle where the region ends when no digit or separator follows.
fn finish_scan(policy: SeparatorPolicy, state: ScanState, p: usize) -> (end: usize)
    ensures
        end == scan_finish(policy, state, p as int),
{
    match state {
        ScanState::AfterSeparator { seen, mark } => {
            if (seen && policy.trailing) || (!seen && policy.leading) {
                p
            } else {
                mark
            }
        },
        _ => p,
    }
}

/// The number that the digits among `s[from..to]` make in `radix`, read
/// from left to right; bytes that are no digits are passed over.
pub open spec fn value_between(s: Seq<u8>, from: int, to: int, radix: u32) -> nat
    decreases to - from,
{
    if to <= from || to > s.len() || from < 0 {
        0
    } else if is_digit(s[to - 1], radix) {
        value_between(s, from, to - 1, radix) * (radix as nat) + digit_value(s[to - 1])
    } else {
        value_between(s, from, to - 1, radix)
    }
}

/// How many digits of `radix` there are among `s[from..to]`.
pub open spec fn count_between(s: Seq<u8>, from: int, to: int, radix: u32) -> nat
    decreases to - from,
{
    if to <= from || to > s.len() || from < 0 {
        0
    } else if is_digit(s[to - 1], radix) {
        count_between(s, from, to - 1, radix) + 1
    } else {
        count_between(s, from, to - 1, radix)
    }
}

/// The place of the first digit of `radix` in `s[from..to]`, or `to` if
/// there is none.
pub open spec fn first_digit(s: Seq<u8>, from: int, to: int, radix: u32) -> int
    decreases to - from,
{
    if to <= from || to > s.len() || from < 0 {
        to
    } else if is_digit(s[from], radix) {
        from
    } else {
        first_digit(s, from + 1, to, radix)
    }
}

/// Whether the digits among `s[from..to]` begin with a zero that other
/// digits follow.
pub open spec fn has_leading_zero(s: Seq<u8>, from: int, to: int, radix: u32) -> bool {
    let first = first_digit(s, from, to, radix);
    first < to && digit_value(s[first]) == 0 && count_between(s, from, to, radix) >= 2
}

/// There are no more digits in a stretch than bytes.
pub proof fn lemma_count_bound(s: Seq<u8>, from: int, to: int, radix: u32)
    requires
        0 <= from <= to <= s.len(),
    ensures
        count_between(s, from, to, radix) <= to - from,
    decreases to - from,
{
    if to > from {
        lemma_count_bound(s, from, to - 1, radix);
    }
}

/// Whether `c` is a digit of `radix` that is not zero.
pub open spec fn is_significant(c: u8, radix: u32) -> bool {
    is_digit(c, radix) && digit_value(c) != 0
}

/// The place of the first digit in `s[from..to]` that is not zero, or `to`
/// if there is none.
pub open spec fn first_significant(s: Seq<u8>, from: int, to: int, radix: u32) -> int
    decreases to - from,
{
    if to <= from || to > s.len() || from < 0 {
        to
    } else if is_significant(s[from], radix) {
        from
    } else {
        first_significant(s, from + 1, to, radix)
    }
}

/// The place behind the last digit in `s[from..to]` that is not zero, or
/// `from` if there is none.
pub open spec fn last_significant(s: Seq<u8>, from: int, to: int, radix: u32) -> int
    decreases to - from,
{
    if to <= from || to > s.len() || from < 0 {
        from
    } else if is_significant(s[to - 1], radix) {
        to
    } else {
        last_significant(s, from, to - 1, radix)
    }
}

/// Before the first digit that is not zero there is none, and it is one.
pub proof fn lemma_first_significant(s: Seq<u8>, from: int, to: int, radix: u32)
    requires
        0 <= from <= to <= s.len(),
    ensures
        from <= first_significant(s, from, to, radix) <= to,
        forall|i: int|
            from <= i < first_significant(s, from, to, radix) ==> !is_significant(
                #[trigger] s[i],
                radix,
            ),
        first_significant(s, from, to, radix) < to ==> is_significant(
            s[first_significant(s, from, to, radix)],
            radix,
        ),
    decreases to - from,
{
    if from < to && !is_significant(s[from], radix) {
        lemma_first_significant(s, from + 1, to, radix);
    }
}

/// Behind the last digit that is not zero there is none, and it is one.
pub proof fn lemma_last_significant(s: Seq<u8>, from: int, to: int, radix: u32)
    requires
        0 <= from <= to <= s.len(),
    ensures
        from <= last_significant(s, from, to, radix) <= to,
        forall|i: int|
            last_significant(s, from, to, radix) <= i < to ==> !is_significant(
                #[trigger] s[i],
                radix,
            ),
        last_significant(s, from, to, radix) > from ==> is_significant(
            s[last_significant(s, from, to, radix) - 1],
            radix,
        ),
    decreases to - from,
{
    if from < to && !is_significant(s[to - 1], radix) {
        lemma_last_significant(s, from, to - 1, radix);
    }
}

/// Where the digits that count begin and end in a stretch depends on the
/// bytes of the stretch only.
pub proof fn lemma_significant_of_prefix(s: Seq<u8>, from: int, to: int, len: int, radix: u32)
    requires
        0 <= from <= to <= len <= s.len(),
    ensures
        first_significant(s.take(len), from, to, radix) == first_significant(s, from, to, radix),
        last_significant(s.take(len), from, to, radix) == last_significant(s, from, to, radix),
    decreases to - from,
{
    if from < to {
        assert(s.take(len)[from] == s[from]);
        assert(s.take(len)[to - 1] == s[to - 1]);
        lemma_significant_of_prefix(s, from + 1, to, len, radix);
        lemma_significant_of_prefix(s, from, to - 1, len, radix);
    }
}

/// Pass over the zeros, and what is no digit, with which `bytes[from..to]`
/// begins: the place of the first digit that is not zero, and the number
/// of zeros before it.
pub fn ltrim_zero(bytes: &[u8], from: usize, to: usize, radix: u32) -> (r: (usize, usize))
    requires
        is_radix(radix),
        from <= to <= bytes@.len(),
    ensures
        r.0 == first_significant(bytes@, from as int, to as int, radix),
        r.1 == count_between(bytes@, from as int, r.0 as int, radix),
        from <= r.0 <= to,
{
    let mut p = from;
    let mut zeros: usize = 0;
    while p < to
        invariant
            is_radix(radix),
            from <= p <= to <= bytes@.len(),
            first_significant(bytes@, from as int, to as int, radix) == first_significant(
                bytes@,
                p as int,
                to as int,
                radix,
            ),
            zeros == count_between(bytes@, from as int, p as int, radix),
            zeros <= p - from,
        decreases to - p,
    {
        match to_digit(bytes[p], radix) {
            Some(d) => {
                if d != 0 {
                    return (p, zeros);
                }
                zeros += 1;
            },
            None => {},
        }
        p += 1;
    }
    (p, zeros)
}

/// Pass over the zeros, and what is no digit, with which `bytes[from..to]`
/// ends: the place behind the last digit that is not zero, and the number
/// of zeros behind it.
pub fn rtrim_zero(bytes: &[u8], from: usize, to: usize, radix: u32) -> (r: (usize, usize))
    requires
        is_radix(radix),
        from <= to <= bytes@.len(),
    ensures
        r.0 == last_significant(bytes@, from as int, to as int, radix),
        r.1 == count_between(bytes@, r.0 as int, to as int, radix),
        from <= r.0 <= to,
{
    let mut p = to;
    let mut zeros: usize = 0;
    while p > from
        invariant
            is_radix(radix),
            from <= p <= to <= bytes@.len(),
            last_significant(bytes@, from as int, to as int, radix) == last_significant(
                bytes@,
                from as int,
                p as int,
                radix,
            ),
            zeros == count_between(bytes@, p as int, to as int, radix),
            zeros <= to - p,
        decreases p - from,
    {
        proof {
            lemma_count_from(bytes@, p - 1, to as int, radix);
        }
        match to_digit(bytes[p - 1], radix) {
            Some(d) => {
                if d != 0 {
                    return (p, zeros);
                }
                zeros += 1;
            },
            None => {},
        }
        p -= 1;
    }
    (p, zeros)
}

/// The digits of a stretch are those of its first byte and of the rest.
pub proof fn lemma_count_from(s: Seq<u8>, from: int, to: int, radix: u32)
    requires
        0 <= from < to <= s.len(),
    ensures
        count_between(s, from, to, radix) == count_between(s, from + 1, to, radix) + (if is_digit(
            s[from],
            radix,
        ) {
            1nat
        } else {
            0nat
        }),
    decreases to - from,
{
    if from + 1 < to {
        lemma_count_from(s, from, to - 1, radix);
    } else {
        assert(count_between(s, from, to - 1, radix) == 0);
        assert(count_between(s, from + 1, to, radix) == 0);
    }
}

/// Count the digits among `bytes[from..to]`.
pub fn count_digits(bytes: &[u8], from: usize, to: usize, radix: u32) -> (r: usize)
    requires
        is_radix(radix),
        from <= to <= bytes@.len(),
    ensures
        r == count_between(bytes@, from as int, to as int, radix),
        r <= to - from,
{
    let mut p = from;
    let mut count: usize = 0;
    while p < to
        invariant
            is_radix(radix),
            from <= p <= to <= bytes@.len(),
            count == count_between(bytes@, from as int, p as int, radix),
            count <= p - from,
        decreases to - p,
    {
        if to_digit(bytes[p], radix).is_some() {
            count += 1;
        }
        p += 1;
    }
    count
}

/// Tell whether the digits among `bytes[from..to]` begin with a zero that
/// other digits follow.
pub fn leading_zero(bytes: &[u8], from: usize, to: usize, radix: u32) -> (r: bool)
    requires
        is_radix(radix),
        from <= to <= bytes@.len(),
    ensures
        r == has_leading_zero(bytes@, from as int, to as int, radix),
{
    let mut p = from;
    while p < to
        invariant
            is_radix(radix),
            from <= p <= to <= bytes@.len(),
            first_digit(bytes@, from as int, to as int, radix) == first_digit(
                bytes@,
                p as int,
                to as int,
                radix,
            ),
        decreases to - p,
    {
        match to_digit(bytes[p], radix) {
            Some(d) => {
                return d == 0 && count_digits(bytes, from, to, radix) >= 2;
            },
            None => {},
        }
        p += 1;
    }
    false
}

/// The region that the machine consumes is consumed likewise from the text
/// that ends where the region ends.
pub proof fn lemma_scan_prefix(
    s: Seq<u8>,
    p: int,
    radix: u32,
    policy: SeparatorPolicy,
    state: ScanState,
)
    requires
        0 <= p <= scan(s, p, radix, policy, state) <= s.len() <= usize::MAX,
        state matches ScanState::AfterSeparator { mark, .. } ==> mark < p,
    ensures
        scan(s.take(scan(s, p, radix, policy, state)), p, radix, policy, state) == scan(
            s,
            p,
            radix,
            policy,
            state,
        ),
    decreases s.len() - p,
{
    let end = scan(s, p, radix, policy, state);
    let t = s.take(end);
    if p < end {
        assert(t[p] == s[p]);
        if is_digit(s[p], radix) {
            lemma_scan_bounds(s, p + 1, radix, policy, ScanState::AfterDigit);
            lemma_scan_prefix(s, p + 1, radix, policy, ScanState::AfterDigit);
        } else if policy.spec_is_active() && s[p] == policy.separator {
            match state {
                ScanState::Start => {
                    let next = ScanState::AfterSeparator { seen: false, mark: p as usize };
                    lemma_scan_bounds(s, p + 1, radix, policy, next);
                    lemma_scan_prefix(s, p + 1, radix, policy, next);
                },
                ScanState::AfterDigit => {
                    let next = ScanState::AfterSeparator { seen: true, mark: p as usize };
                    lemma_scan_bounds(s, p + 1, radix, policy, next);
                    lemma_scan_prefix(s, p + 1, radix, policy, next);
                },
                ScanState::AfterSeparator { .. } => {
                    lemma_scan_bounds(s, p + 1, radix, policy, state);
                    lemma_scan_prefix(s, p + 1, radix, policy, state);
                },
            }
        }
    } else if p < s.len() {
        if is_digit(s[p], radix) {
            lemma_scan_bounds(s, p + 1, radix, policy, ScanState::AfterDigit);
        } else if policy.spec_is_active() && s[p] == policy.separator {
            match state {
                ScanState::Start => {
                    lemma_scan_bounds(
                        s,
                        p + 1,
                        radix,
                        policy,
                        ScanState::AfterSeparator { seen: false, mark: p as usize },
                    );
                },
                ScanState::AfterDigit => {
                    lemma_scan_bounds(
                        s,
                        p + 1,
                        radix,
                        policy,
                        ScanState::AfterSeparator { seen: true, mark: p as usize },
                    );
                },
                ScanState::AfterSeparator { .. } => {
                    lemma_scan_bounds(s, p + 1, radix, policy, state);
                },
            }
        }
    }
}

/// A region that ends before a byte that is no digit separator is consumed
/// likewise from any first bytes of the text that hold that byte.
pub proof fn lemma_scan_of_longer_prefix(
    s: Seq<u8>,
    p: int,
    len: int,
    radix: u32,
    policy: SeparatorPolicy,
    state: ScanState,
)
    requires
        0 <= p <= s.len() <= usize::MAX,
        scan(s, p, radix, policy, state) < len <= s.len(),
        !(policy.spec_is_active() && s[scan(s, p, radix, policy, state)] == policy.separator),
        state matches ScanState::AfterSeparator { mark, .. } ==> mark < p
            && policy.spec_is_active() && s[mark as int] == policy.separator,
    ensures
        scan(s.take(len), p, radix, policy, state) == scan(s, p, radix, policy, state),
    decreases s.len() - p,
{
    let end = scan(s, p, radix, policy, state);
    let t = s.take(len);
    lemma_scan_bounds(s, p, radix, policy, state);
    assert(p <= end);
    assert(t[p] == s[p]);
    if is_digit(s[p], radix) {
        lemma_scan_of_longer_prefix(s, p + 1, len, radix, policy, ScanState::AfterDigit);
    } else if policy.spec_is_active() && s[p] == policy.separator {
        match state {
            ScanState::Start => {
                let next = ScanState::AfterSeparator { seen: false, mark: p as usize };
                lemma_scan_of_longer_prefix(s, p + 1, len, radix, policy, next);
            },
            ScanState::AfterDigit => {
                let next = ScanState::AfterSeparator { seen: true, mark: p as usize };
                lemma_scan_of_longer_prefix(s, p + 1, len, radix, policy, next);
            },
            ScanState::AfterSeparator { .. } => {
                lemma_scan_of_longer_prefix(s, p + 1, len, radix, policy, state);
            },
        }
    }
}

/// The digits of a stretch of text, and so its number, its count of
/// digits and its first digit, depend on the bytes of the stretch only.
pub proof fn lemma_stretch_of_prefix(s: Seq<u8>, from: int, to: int, len: int, radix: u32)
    requires
        0 <= from <= to <= len <= s.len(),
    ensures
        value_between(s.take(len), from, to, radix) == value_between(s, from, to, radix),
        count_between(s.take(len), from, to, radix) == count_between(s, from, to, radix),
        first_digit(s.take(len), from, to, radix) == first_digit(s, from, to, radix),
        has_leading_zero(s.take(len), from, to, radix) == has_leading_zero(s, from, to, radix),
    decreases to - from,
{
    let t = s.take(len);
    if from < to {
        lemma_stretch_of_prefix(s, from, to - 1, len, radix);
        lemma_first_digit_of_prefix(s, from, to, len, radix);
        assert(t[to - 1] == s[to - 1]);
        let first = first_digit(s, from, to, radix);
        lemma_first_digit_bounds(s, from, to, radix);
        if first < to {
            assert(t[first] == s[first]);
        }
    }
}

/// The first digit of a stretch of text depends on the bytes of the
/// stretch only.
pub proof fn lemma_first_digit_of_prefix(s: Seq<u8>, from: int, to: int, len: int, radix: u32)
    requires
        0 <= from <= to <= len <= s.len(),
    ensures
        first_digit(s.take(len), from, to, radix) == first_digit(s, from, to, radix),
    decreases to - from,
{
    if from < to {
        assert(s.take(len)[from] == s[from]);
        lemma_first_digit_of_prefix(s, from + 1, to, len, radix);
    }
}

/// The first digit of a stretch stands in the stretch, or there is none.
pub proof fn lemma_first_digit_bounds(s: Seq<u8>, from: int, to: int, radix: u32)
    requires
        0 <= from <= to <= s.len(),
    ensures
        from <= first_digit(s, from, to, radix) <= to,
    decreases to - from,
{
    if from < to {
        lemma_first_digit_bounds(s, from + 1, to, radix);
    }
}

} // verus!

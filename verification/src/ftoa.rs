//! Writing floats: the digits of the float are set out with a point, or
//! with a point and an exponent where the float is very large or very
//! small; what is not finite is written as the string that stands for it.

use vstd::arithmetic::power::pow;
use vstd::arithmetic::power2::pow2;
use vstd::prelude::*;

use crate::ascii::{MINUS, POINT, ZERO};
use crate::digit::{digit_to_char, is_radix, spec_digit_to_char};
use crate::fewest::{is_choice, is_fewest};
use crate::float::{from_float, FloatLayout};
use crate::itoa::{digits_of, integer_text, lemma_digits_bound, write_unsigned};
use crate::float::{Float32, Float64};
use crate::margin::{float_bits, is_finite_float, lemma_decode_finite};
use crate::options::{
    default_inf_string, default_nan_string, exponent_notation_char, spec_default_inf_string,
    spec_default_nan_string, spec_exponent_notation_char, WriteFloatOptions,
};
use crate::traits::ToLexical;
use crate::shortest::{is_read_as, shortest_digits, Digits, MAX_DIGITS};

verus! {

/// The least exponent of the first digit with which a float is written
/// without an exponent.
pub const FIXED_MIN: i32 = -5;

/// The largest exponent of the first digit with which a float is written
/// without an exponent.
pub const FIXED_MAX: i32 = 9;

/// The length of the longest text of a float in any radix.
pub const FLOAT_FORMATTED_SIZE: usize = 80;

/// The length of the longest text of a float in decimal.
pub const FLOAT_FORMATTED_SIZE_DECIMAL: usize = 32;

/// The characters of digit values.
pub open spec fn digit_chars(digits: Seq<u8>) -> Seq<u8> {
    Seq::new(digits.len(), |i: int| spec_digit_to_char(digits[i] as nat))
}

/// So many zeros.
pub open spec fn zeros(count: nat) -> Seq<u8> {
    Seq::new(count, |i: int| ZERO)
}

/// What stands behind digits that end before the point: the point and a
/// zero, or nothing if floats are trimmed.
pub open spec fn integer_suffix(trim: bool) -> Seq<u8> {
    if trim {
        Seq::<u8>::empty()
    } else {
        seq![POINT, ZERO]
    }
}

/// The text of the number that `digits` make with the point at `point`.
///
/// If the exponent of the first digit is within the fixed range, the digits
/// are written with the point among them, with zeros between the point and
/// the digits or between the digits and the point where the digits do not
/// reach the point. Otherwise the point follows the first digit and the
/// exponent of the first digit follows the digits, behind the exponent
/// character.
pub open spec fn format_digits(
    digits: Seq<u8>,
    point: int,
    radix: u32,
    exponent_char: u8,
    trim: bool,
) -> Seq<u8> {
    if FIXED_MIN <= point - 1 <= FIXED_MAX {
        format_fixed(digits, point, trim)
    } else {
        format_scientific(digits, point, radix, exponent_char, trim)
    }
}

/// The sign of a text: a minus for what is negative.
pub open spec fn sign_text(negative: bool) -> Seq<u8> {
    if negative {
        seq![MINUS]
    } else {
        Seq::<u8>::empty()
    }
}

/// Whether `text` is a text of the float of `layout` with the bits `bits`.
///
/// The text begins with a minus if the sign bit is set. Not-a-number and
/// infinity are the strings that stand for them, zero is `0.0`, or `0` if
/// floats are trimmed. The text of any other float is the text of the
/// fewest digits that are read as the float again.
pub open spec fn is_float_text(
    bits: nat,
    layout: FloatLayout,
    radix: u32,
    exponent_char: u8,
    trim: bool,
    nan_string: Seq<u8>,
    inf_string: Seq<u8>,
    text: Seq<u8>,
) -> bool {
    let negative = bits >= layout.spec_sign_bit();
    let magnitude = if negative {
        (bits - layout.spec_sign_bit()) as nat
    } else {
        bits
    };
    let sign = sign_text(negative);
    if magnitude > layout.spec_infinity_bits() {
        text == sign + nan_string
    } else if magnitude == layout.spec_infinity_bits() {
        text == sign + inf_string
    } else if magnitude == 0 {
        text == sign + seq![ZERO] + integer_suffix(trim)
    } else {
        text.len() >= sign.len() && text.take(sign.len() as int) == sign && is_finite_text(
            magnitude,
            layout,
            radix,
            exponent_char,
            trim,
            text.skip(sign.len() as int),
        )
    }
}

/// Put `c` behind what is written.
fn append(bytes: &mut [u8], at: usize, c: u8) -> (next: usize)
    requires
        at < old(bytes)@.len(),
    ensures
        next == at + 1,
        final(bytes)@.len() == old(bytes)@.len(),
        final(bytes)@.take(next as int) == old(bytes)@.take(at as int).push(c),
        forall|i: int| next <= i < old(bytes)@.len() ==> final(bytes)@[i] == old(bytes)@[i],
{
    bytes[at] = c;
    assert(bytes@.take(at + 1) == old(bytes)@.take(at as int).push(c));
    at + 1
}

/// Put `count` zeros behind what is written.
fn append_zeros(bytes: &mut [u8], at: usize, count: usize) -> (next: usize)
    requires
        at + count <= old(bytes)@.len(),
    ensures
        next == at + count,
        final(bytes)@.len() == old(bytes)@.len(),
        final(bytes)@.take(next as int) == old(bytes)@.take(at as int) + zeros(count as nat),
        forall|i: int| next <= i < old(bytes)@.len() ==> final(bytes)@[i] == old(bytes)@[i],
{
    let len = bytes.len();
    let mut i: usize = 0;
    assert(bytes@.take(at as int) == old(bytes)@.take(at as int) + zeros(0));
    while i < count
        invariant
            i <= count,
            at + count <= bytes@.len(),
            bytes@.len() == old(bytes)@.len(),
            bytes@.len() == len,
            bytes@.take(at + i) == old(bytes)@.take(at as int) + zeros(i as nat),
            forall|k: int| at + i <= k < old(bytes)@.len() ==> bytes@[k] == old(bytes)@[k],
        decreases count - i,
    {
        let ghost before = bytes@;
        bytes[at + i] = ZERO;
        assert(bytes@.take(at + i + 1) == before.take(at + i).push(ZERO));
        assert(zeros((i + 1) as nat) == zeros(i as nat).push(ZERO));
        i += 1;
    }
    at + count
}

/// Put the characters of `digits[from..to]` behind what is written.
fn append_digits(bytes: &mut [u8], at: usize, digits: &Vec<u8>, from: usize, to: usize) -> (next:
    usize)
    requires
        from <= to <= digits@.len(),
        forall|i: int| 0 <= i < digits@.len() ==> digits@[i] < 36,
        at + (to - from) <= old(bytes)@.len(),
    ensures
        next == at + (to - from),
        final(bytes)@.len() == old(bytes)@.len(),
        final(bytes)@.take(next as int) == old(bytes)@.take(at as int) + digit_chars(
            digits@,
        ).subrange(from as int, to as int),
        forall|i: int| next <= i < old(bytes)@.len() ==> final(bytes)@[i] == old(bytes)@[i],
{
    let len = bytes.len();
    let ghost chars = digit_chars(digits@);
    let mut i: usize = from;
    assert(bytes@.take(at as int) == old(bytes)@.take(at as int) + chars.subrange(
        from as int,
        from as int,
    ));
    while i < to
        invariant
            from <= i <= to <= digits@.len(),
            chars == digit_chars(digits@),
            forall|k: int| 0 <= k < digits@.len() ==> digits@[k] < 36,
            at + (to - from) <= bytes@.len(),
            bytes@.len() == old(bytes)@.len(),
            bytes@.len() == len,
            bytes@.take(at + (i - from)) == old(bytes)@.take(at as int) + chars.subrange(
                from as int,
                i as int,
            ),
            forall|k: int|
                at + (i - from) <= k < old(bytes)@.len() ==> bytes@[k] == old(bytes)@[k],
        decreases to - i,
    {
        let ghost before = bytes@;
        let c = digit_to_char(digits[i] as u32);
        bytes[at + (i - from)] = c;
        assert(bytes@.take(at + (i - from) + 1) == before.take(at + (i - from)).push(c));
        assert(chars.subrange(from as int, i + 1) == chars.subrange(from as int, i as int).push(
            c,
        ));
        i += 1;
    }
    at + (to - from)
}

/// Put the bytes of `word` behind what is written.
fn append_slice(bytes: &mut [u8], at: usize, word: &[u8]) -> (next: usize)
    requires
        at + word@.len() <= old(bytes)@.len(),
    ensures
        next == at + word@.len(),
        final(bytes)@.len() == old(bytes)@.len(),
        final(bytes)@.take(next as int) == old(bytes)@.take(at as int) + word@,
        forall|i: int| next <= i < old(bytes)@.len() ==> final(bytes)@[i] == old(bytes)@[i],
{
    let len = bytes.len();
    let count = word.len();
    let mut i: usize = 0;
    assert(bytes@.take(at as int) == old(bytes)@.take(at as int) + word@.take(0));
    while i < count
        invariant
            i <= count,
            count == word@.len(),
            at + count <= bytes@.len(),
            bytes@.len() == old(bytes)@.len(),
            bytes@.len() == len,
            bytes@.take(at + i) == old(bytes)@.take(at as int) + word@.take(i as int),
            forall|k: int| at + i <= k < old(bytes)@.len() ==> bytes@[k] == old(bytes)@[k],
        decreases count - i,
    {
        let ghost before = bytes@;
        let c = word[i];
        bytes[at + i] = c;
        assert(bytes@.take(at + i + 1) == before.take(at + i).push(c));
        assert(word@.take(i + 1) == word@.take(i as int).push(c));
        i += 1;
    }
    assert(word@.take(count as int) == word@);
    at + count
}

/// An exponent of a digit has at most eleven digits in any radix and at
/// most four in decimal.
proof fn lemma_exponent_size(first: int, radix: u32)
    requires
        is_radix(radix),
        -1300 <= first <= 1300,
    ensures
        integer_text(first, radix).len() <= (if radix == 10 {
            5nat
        } else {
            12nat
        }),
{
    let magnitude = (if first < 0 {
        -first
    } else {
        first
    }) as nat;
    if radix == 10 {
        reveal_with_fuel(pow, 5);
        assert(pow(10, 4) == 10000);
        lemma_digits_bound(magnitude, radix, 4);
    } else {
        vstd::arithmetic::power2::lemma2_to64();
        crate::writers::lemma_binary_size(magnitude, radix, 11);
    }
}

/// Put the text of the integer `value` behind what is written.
fn append_integer(bytes: &mut [u8], at: usize, value: i32, radix: u32) -> (next: usize)
    requires
        is_radix(radix),
        at + integer_text(value as int, radix).len() <= old(bytes)@.len(),
    ensures
        next == at + integer_text(value as int, radix).len(),
        final(bytes)@.len() == old(bytes)@.len(),
        final(bytes)@.take(next as int) == old(bytes)@.take(at as int) + integer_text(
            value as int,
            radix,
        ),
        forall|i: int| next <= i < old(bytes)@.len() ==> final(bytes)@[i] == old(bytes)@[i],
{
    let len = bytes.len();
    if value < 0 {
        let magnitude = (-(value as i64)) as u128;
        let at = append(bytes, at, MINUS);
        let ghost before = bytes@;
        let next = write_unsigned(magnitude, radix, bytes, at);
        assert(bytes@.take(next as int) == before.take(at as int) + digits_of(
            magnitude as nat,
            radix,
        )) by {
            assert(bytes@.take(next as int) =~= before.take(at as int) + bytes@.subrange(
                at as int,
                next as int,
            ));
        }
        assert(old(bytes)@.take(at - 1).push(MINUS) + digits_of(magnitude as nat, radix) == old(
            bytes,
        )@.take(at - 1) + (seq![MINUS] + digits_of(magnitude as nat, radix)));
        next
    } else {
        let ghost before = bytes@;
        let next = write_unsigned(value as u128, radix, bytes, at);
        assert(bytes@.take(next as int) =~= before.take(at as int) + bytes@.subrange(
            at as int,
            next as int,
        ));
        next
    }
}

/// The most bytes that the text of digits takes beyond the digits: the
/// point, zeros or a zero behind it, the exponent character and the
/// exponent.
pub open spec fn spec_text_room(radix: u32) -> nat {
    if radix == 10 {
        11
    } else {
        15
    }
}

/// The text of digits whose first digit has an exponent within the fixed
/// range.
pub open spec fn format_fixed(digits: Seq<u8>, point: int, trim: bool) -> Seq<u8> {
    let chars = digit_chars(digits);
    let n = digits.len() as int;
    if point <= 0 {
        seq![ZERO, POINT] + zeros((-point) as nat) + chars
    } else if n <= point {
        chars + zeros((point - n) as nat) + integer_suffix(trim)
    } else {
        chars.take(point) + seq![POINT] + chars.skip(point)
    }
}

/// The text of digits with an exponent.
pub open spec fn format_scientific(
    digits: Seq<u8>,
    point: int,
    radix: u32,
    exponent_char: u8,
    trim: bool,
) -> Seq<u8> {
    let chars = digit_chars(digits);
    chars.take(1) + (if digits.len() > 1 {
        seq![POINT] + chars.skip(1)
    } else {
        integer_suffix(trim)
    }) + seq![exponent_char] + integer_text(point - 1, radix)
}

/// Write digits with the point among them behind what is written, with
/// zeros where the digits do not reach the point.
fn write_fixed(bytes: &mut [u8], at: usize, digits: &Digits, trim: bool) -> (next: usize)
    requires
        1 <= digits.digits@.len() <= MAX_DIGITS,
        forall|i: int| 0 <= i < digits.digits@.len() ==> digits.digits@[i] < 36,
        FIXED_MIN <= digits.point - 1 <= FIXED_MAX,
        at + digits.digits@.len() + 11 <= old(bytes)@.len(),
    ensures
        next <= at + digits.digits@.len() + 11,
        final(bytes)@.len() == old(bytes)@.len(),
        final(bytes)@.take(next as int) == old(bytes)@.take(at as int) + format_fixed(
            digits.digits@,
            digits.point as int,
            trim,
        ),
        forall|i: int| next <= i < old(bytes)@.len() ==> final(bytes)@[i] == old(bytes)@[i],
{
    let len = bytes.len();
    let n = digits.digits.len();
    let point = digits.point;
    let ghost start = old(bytes)@.take(at as int);
    let ghost chars = digit_chars(digits.digits@);
    assert(chars.subrange(0, n as int) == chars);
    if point <= 0 {
        let at = append(bytes, at, ZERO);
        let at = append(bytes, at, POINT);
        let at = append_zeros(bytes, at, (-point) as usize);
        let at = append_digits(bytes, at, &digits.digits, 0, n);
        assert(start.push(ZERO).push(POINT) + zeros((-point) as nat) + chars =~= start + (
        seq![ZERO, POINT] + zeros((-point) as nat) + chars));
        at
    } else if n <= point as usize {
        let at = append_digits(bytes, at, &digits.digits, 0, n);
        let at = append_zeros(bytes, at, point as usize - n);
        if trim {
            assert(start + chars + zeros((point - n) as nat) =~= start + (chars + zeros(
                (point - n) as nat,
            ) + integer_suffix(trim)));
            at
        } else {
            let at = append(bytes, at, POINT);
            let at = append(bytes, at, ZERO);
            assert((start + chars + zeros((point - n) as nat)).push(POINT).push(ZERO) =~= start
                + (chars + zeros((point - n) as nat) + integer_suffix(trim)));
            at
        }
    } else {
        let at = append_digits(bytes, at, &digits.digits, 0, point as usize);
        let at = append(bytes, at, POINT);
        let at = append_digits(bytes, at, &digits.digits, point as usize, n);
        assert(chars.take(point as int) == chars.subrange(0, point as int));
        assert(chars.skip(point as int) == chars.subrange(point as int, n as int));
        assert((start + chars.subrange(0, point as int)).push(POINT) + chars.subrange(
            point as int,
            n as int,
        ) =~= start + (chars.take(point as int) + seq![POINT] + chars.skip(point as int)));
        at
    }
}

/// Write digits with the point behind the first and with an exponent
/// behind what is written.
fn write_scientific(
    bytes: &mut [u8],
    at: usize,
    digits: &Digits,
    radix: u32,
    exponent_char: u8,
    trim: bool,
) -> (next: usize)
    requires
        is_radix(radix),
        1 <= digits.digits@.len() <= MAX_DIGITS,
        forall|i: int| 0 <= i < digits.digits@.len() ==> digits.digits@[i] < 36,
        -1200 <= digits.point <= 1200,
        at + digits.digits@.len() + spec_text_room(radix) <= old(bytes)@.len(),
    ensures
        next <= at + digits.digits@.len() + spec_text_room(radix),
        final(bytes)@.len() == old(bytes)@.len(),
        final(bytes)@.take(next as int) == old(bytes)@.take(at as int) + format_scientific(
            digits.digits@,
            digits.point as int,
            radix,
            exponent_char,
            trim,
        ),
        forall|i: int| next <= i < old(bytes)@.len() ==> final(bytes)@[i] == old(bytes)@[i],
{
    let len = bytes.len();
    let n = digits.digits.len();
    let first = digits.point - 1;
    let ghost start = old(bytes)@.take(at as int);
    let ghost chars = digit_chars(digits.digits@);
    proof {
        lemma_exponent_size(first as int, radix);
    }
    let ghost exponent = integer_text(first as int, radix);
    let at = append_digits(bytes, at, &digits.digits, 0, 1);
    assert(chars.take(1) == chars.subrange(0, 1));
    let ghost head = start + chars.take(1);
    assert(bytes@.take(at as int) == head);
    let ghost mut middle = integer_suffix(trim);
    let at = if n > 1 {
        let at = append(bytes, at, POINT);
        let at = append_digits(bytes, at, &digits.digits, 1, n);
        proof {
            middle = seq![POINT] + chars.skip(1);
            assert(chars.skip(1) == chars.subrange(1, n as int));
            assert(head.push(POINT) + chars.subrange(1, n as int) =~= head + middle);
        }
        at
    } else if trim {
        assert(head =~= head + middle);
        at
    } else {
        let at = append(bytes, at, POINT);
        let at = append(bytes, at, ZERO);
        assert(head.push(POINT).push(ZERO) =~= head + middle);
        at
    };
    let ghost body = head + middle;
    assert(bytes@.take(at as int) == body);
    let at = append(bytes, at, exponent_char);
    let at = append_integer(bytes, at, first, radix);
    assert(body.push(exponent_char) + exponent =~= start + (chars.take(1) + middle
        + seq![exponent_char] + exponent));
    at
}

/// Write the text of the number that `digits` make behind what is written.
fn write_digits(
    bytes: &mut [u8],
    at: usize,
    digits: &Digits,
    radix: u32,
    exponent_char: u8,
    trim: bool,
) -> (next: usize)
    requires
        is_radix(radix),
        digits.is_valid(radix),
        at + digits.digits@.len() + spec_text_room(radix) <= old(bytes)@.len(),
    ensures
        next <= at + digits.digits@.len() + spec_text_room(radix),
        final(bytes)@.len() == old(bytes)@.len(),
        final(bytes)@.take(next as int) == old(bytes)@.take(at as int) + format_digits(
            digits.digits@,
            digits.point as int,
            radix,
            exponent_char,
            trim,
        ),
        forall|i: int| next <= i < old(bytes)@.len() ==> final(bytes)@[i] == old(bytes)@[i],
{
    let first = digits.point - 1;
    if first >= FIXED_MIN && first <= FIXED_MAX {
        write_fixed(bytes, at, digits, trim)
    } else {
        write_scientific(bytes, at, digits, radix, exponent_char, trim)
    }
}

/// The length of the longest text of a float under the parts of options.
pub open spec fn spec_float_size(radix: u32, nan_len: nat, inf_len: nat) -> nat {
    let digits: nat = if radix == 10 {
        FLOAT_FORMATTED_SIZE_DECIMAL as nat
    } else {
        FLOAT_FORMATTED_SIZE as nat
    };
    if digits >= 1 + nan_len && digits >= 1 + inf_len {
        digits
    } else if nan_len >= inf_len {
        1 + nan_len
    } else {
        1 + inf_len
    }
}

/// Whether `text` is the text of digits that are read as the float of
/// `layout` with the magnitude `magnitude`, and of the fewest such digits:
/// of those, the digits with the point furthest to the right, and of those
/// the nearest to the float, the larger of two that are equally near.
pub open spec fn is_finite_text(
    magnitude: nat,
    layout: FloatLayout,
    radix: u32,
    exponent_char: u8,
    trim: bool,
    text: Seq<u8>,
) -> bool {
    exists|digits: Seq<u8>, point: int|
        {
            &&& 1 <= digits.len() <= MAX_DIGITS
            &&& digits[0] > 0
            &&& (forall|i: int| 0 <= i < digits.len() ==> digits[i] < radix)
            &&& #[trigger] is_read_as(digits, point, radix, layout, magnitude)
            &&& is_fewest(digits.len(), radix, layout, magnitude)
            &&& is_choice(
                digits,
                point,
                radix,
                layout,
                layout.decode(magnitude).0,
                layout.decode(magnitude).1,
            )
            &&& text == format_digits(digits, point, radix, exponent_char, trim)
        }
}

/// Digits of which all but two make less than two to the fifty-sixth are
/// at most eighteen in decimal.
proof fn lemma_decimal_digits(n: nat)
    requires
        n >= 2 ==> pow(10, (n - 2) as nat) < pow2(56),
    ensures
        n <= 18,
{
    if n >= 19 {
        lemma_ten_to_seventeen();
        vstd::arithmetic::power2::lemma2_to64_rest();
        vstd::arithmetic::power::lemma_pow_increases(10, 17, (n - 2) as nat);
    }
}

/// Ten to the seventeenth.
proof fn lemma_ten_to_seventeen()
    ensures
        pow(10, 17) == 100_000_000_000_000_000,
{
    reveal_with_fuel(pow, 18);
}

/// What is written behind the first `at` bytes of a buffer is the stretch
/// of the buffer that follows them, and they are as they were.
proof fn lemma_appended(before: Seq<u8>, after: Seq<u8>, at: int, next: int, text: Seq<u8>)
    requires
        0 <= at <= before.len(),
        before.len() == after.len(),
        0 <= next <= after.len(),
        after.take(next) == before.take(at) + text,
    ensures
        at <= next,
        after.subrange(at, next) == text,
        after.take(at) == before.take(at),
{
    let whole = before.take(at) + text;
    assert(whole.len() == at + text.len());
    assert(after.take(next).len() == next);
    assert forall|i: int| 0 <= i < text.len() implies after.subrange(at, next)[i] == text[i] by {
        assert(after.take(next)[at + i] == whole[at + i]);
    }
    assert(after.subrange(at, next) =~= text);
    assert forall|i: int| 0 <= i < at implies after.take(at)[i] == before.take(at)[i] by {
        assert(after.take(next)[i] == whole[i]);
    }
    assert(after.take(at) =~= before.take(at));
}

/// Write the text of the finite float of `layout` with the magnitude
/// `magnitude`, which is not zero, behind what is written.
fn write_finite(
    magnitude: u64,
    layout: FloatLayout,
    bytes: &mut [u8],
    at: usize,
    radix: u32,
    exponent_char: u8,
    trim: bool,
) -> (next: usize)
    requires
        is_radix(radix),
        0 < magnitude < layout.spec_infinity_bits(),
        at <= 1,
        old(bytes)@.len() >= (if radix == 10 {
            FLOAT_FORMATTED_SIZE_DECIMAL
        } else {
            FLOAT_FORMATTED_SIZE
        }),
    ensures
        at <= next <= (if radix == 10 {
            FLOAT_FORMATTED_SIZE_DECIMAL
        } else {
            FLOAT_FORMATTED_SIZE
        }),
        final(bytes)@.len() == old(bytes)@.len(),
        final(bytes)@.take(at as int) == old(bytes)@.take(at as int),
        is_finite_text(
            magnitude as nat,
            layout,
            radix,
            exponent_char,
            trim,
            final(bytes)@.subrange(at as int, next as int),
        ),
        forall|i: int| next <= i < old(bytes)@.len() ==> final(bytes)@[i] == old(bytes)@[i],
{
    proof {
        lemma_decode_finite(layout, magnitude as nat);
    }
    let fp = from_float(magnitude, layout);
    let digits = shortest_digits(fp.mant, fp.exp, layout, radix);
    proof {
        if radix == 10 {
            lemma_decimal_digits(digits.digits@.len());
        }
    }
    let next = write_digits(bytes, at, &digits, radix, exponent_char, trim);
    proof {
        let text = format_digits(digits.digits@, digits.point as int, radix, exponent_char, trim);
        lemma_appended(old(bytes)@, bytes@, at as int, next as int, text);
        assert(is_read_as(digits.digits@, digits.point as int, radix, layout, magnitude as nat));
    }
    next
}

/// Write the text of the float of `layout` with the bits `bits` at the
/// start of `bytes`, and return its length.
pub fn write_float(
    bits: u64,
    layout: FloatLayout,
    bytes: &mut [u8],
    radix: u32,
    exponent_char: u8,
    trim: bool,
    nan_string: &[u8],
    inf_string: &[u8],
) -> (len: usize)
    requires
        is_radix(radix),
        bits < 2 * layout.spec_sign_bit(),
        old(bytes)@.len() >= spec_float_size(radix, nan_string@.len(), inf_string@.len()),
    ensures
        len <= spec_float_size(radix, nan_string@.len(), inf_string@.len()),
        final(bytes)@.len() == old(bytes)@.len(),
        is_float_text(
            bits as nat,
            layout,
            radix,
            exponent_char,
            trim,
            nan_string@,
            inf_string@,
            final(bytes)@.take(len as int),
        ),
        forall|i: int| len <= i < old(bytes)@.len() ==> final(bytes)@[i] == old(bytes)@[i],
{
    let size = bytes.len();
    let negative = bits >= layout.sign_bit();
    let magnitude = if negative {
        bits - layout.sign_bit()
    } else {
        bits
    };
    let ghost sign = sign_text(negative);
    let ghost goal = |text: Seq<u8>|
        is_float_text(
            bits as nat,
            layout,
            radix,
            exponent_char,
            trim,
            nan_string@,
            inf_string@,
            text,
        );
    let at: usize = if negative {
        append(bytes, 0, MINUS)
    } else {
        0
    };
    assert(bytes@.take(at as int) =~= sign);
    if magnitude > layout.infinity_bits() {
        let next = append_slice(bytes, at, nan_string);
        assert(goal(bytes@.take(next as int)));
        next
    } else if magnitude == layout.infinity_bits() {
        let next = append_slice(bytes, at, inf_string);
        assert(goal(bytes@.take(next as int)));
        next
    } else if magnitude == 0 {
        let at = append(bytes, at, ZERO);
        if trim {
            assert(sign.push(ZERO) =~= sign + seq![ZERO] + integer_suffix(trim));
            assert(goal(bytes@.take(at as int)));
            at
        } else {
            let at = append(bytes, at, POINT);
            let at = append(bytes, at, ZERO);
            assert(sign.push(ZERO).push(POINT).push(ZERO) =~= sign + seq![ZERO] + integer_suffix(
                trim,
            ));
            assert(goal(bytes@.take(at as int)));
            at
        }
    } else {
        let next = write_finite(magnitude, layout, bytes, at, radix, exponent_char, trim);
        proof {
            let text = bytes@.take(next as int);
            assert(text.take(sign.len() as int) =~= sign);
            assert(text.skip(sign.len() as int) =~= bytes@.subrange(at as int, next as int));
            assert(goal(text));
        }
        next
    }
}

impl ToLexical for Float32 {
    type Options = WriteFloatOptions;

    open spec fn spec_formatted_size() -> usize {
        FLOAT_FORMATTED_SIZE
    }

    open spec fn spec_formatted_size_decimal() -> usize {
        FLOAT_FORMATTED_SIZE_DECIMAL
    }

    open spec fn spec_required_size(options: WriteFloatOptions) -> nat {
        spec_float_size(
            options.spec_radix(),
            options.spec_nan_string().len(),
            options.spec_inf_string().len(),
        )
    }

    open spec fn spec_required_size_in(radix: u32) -> nat {
        spec_float_size(
            radix,
            spec_default_nan_string().len(),
            spec_default_inf_string().len(),
        )
    }

    open spec fn is_text(self, options: WriteFloatOptions, text: Seq<u8>) -> bool {
        is_float_text(
            self.bits as nat,
            FloatLayout::Single,
            options.spec_radix(),
            options.spec_exponent_char(),
            options.spec_trim_floats(),
            options.spec_nan_string(),
            options.spec_inf_string(),
            text,
        )
    }

    open spec fn is_text_in(self, radix: u32, text: Seq<u8>) -> bool {
        is_float_text(
            self.bits as nat,
            FloatLayout::Single,
            radix,
            spec_exponent_notation_char(radix),
            false,
            spec_default_nan_string(),
            spec_default_inf_string(),
            text,
        )
    }

    fn formatted_size() -> (r: usize) {
        FLOAT_FORMATTED_SIZE
    }

    fn formatted_size_decimal() -> (r: usize) {
        FLOAT_FORMATTED_SIZE_DECIMAL
    }

    fn to_lexical(self, bytes: &mut [u8]) -> (len: usize) {
        write_float(
            self.bits as u64,
            FloatLayout::Single,
            bytes,
            10,
            exponent_notation_char(10),
            false,
            default_nan_string(),
            default_inf_string(),
        )
    }

    fn to_lexical_with_options(self, bytes: &mut [u8], options: &WriteFloatOptions) -> (len:
        usize) {
        proof {
            use_type_invariant(options);
        }
        write_float(
            self.bits as u64,
            FloatLayout::Single,
            bytes,
            options.radix(),
            options.exponent_char(),
            options.trim_floats(),
            options.nan_string(),
            options.inf_string(),
        )
    }

    fn to_lexical_radix(self, radix: u8, bytes: &mut [u8]) -> (len: usize) {
        write_float(
            self.bits as u64,
            FloatLayout::Single,
            bytes,
            radix as u32,
            exponent_notation_char(radix as u32),
            false,
            default_nan_string(),
            default_inf_string(),
        )
    }
}

impl ToLexical for Float64 {
    type Options = WriteFloatOptions;

    open spec fn spec_formatted_size() -> usize {
        FLOAT_FORMATTED_SIZE
    }

    open spec fn spec_formatted_size_decimal() -> usize {
        FLOAT_FORMATTED_SIZE_DECIMAL
    }

    open spec fn spec_required_size(options: WriteFloatOptions) -> nat {
        spec_float_size(
            options.spec_radix(),
            options.spec_nan_string().len(),
            options.spec_inf_string().len(),
        )
    }

    open spec fn spec_required_size_in(radix: u32) -> nat {
        spec_float_size(
            radix,
            spec_default_nan_string().len(),
            spec_default_inf_string().len(),
        )
    }

    open spec fn is_text(self, options: WriteFloatOptions, text: Seq<u8>) -> bool {
        is_float_text(
            self.bits as nat,
            FloatLayout::Double,
            options.spec_radix(),
            options.spec_exponent_char(),
            options.spec_trim_floats(),
            options.spec_nan_string(),
            options.spec_inf_string(),
            text,
        )
    }

    open spec fn is_text_in(self, radix: u32, text: Seq<u8>) -> bool {
        is_float_text(
            self.bits as nat,
            FloatLayout::Double,
            radix,
            spec_exponent_notation_char(radix),
            false,
            spec_default_nan_string(),
            spec_default_inf_string(),
            text,
        )
    }

    fn formatted_size() -> (r: usize) {
        FLOAT_FORMATTED_SIZE
    }

    fn formatted_size_decimal() -> (r: usize) {
        FLOAT_FORMATTED_SIZE_DECIMAL
    }

    fn to_lexical(self, bytes: &mut [u8]) -> (len: usize) {
        write_float(
            self.bits,
            FloatLayout::Double,
            bytes,
            10,
            exponent_notation_char(10),
            false,
            default_nan_string(),
            default_inf_string(),
        )
    }

    fn to_lexical_with_options(self, bytes: &mut [u8], options: &WriteFloatOptions) -> (len:
        usize) {
        proof {
            use_type_invariant(options);
        }
        write_float(
            self.bits,
            FloatLayout::Double,
            bytes,
            options.radix(),
            options.exponent_char(),
            options.trim_floats(),
            options.nan_string(),
            options.inf_string(),
        )
    }

    fn to_lexical_radix(self, radix: u8, bytes: &mut [u8]) -> (len: usize) {
        write_float(
            self.bits,
            FloatLayout::Double,
            bytes,
            radix as u32,
            exponent_notation_char(radix as u32),
            false,
            default_nan_string(),
            default_inf_string(),
        )
    }
}

} // verus!

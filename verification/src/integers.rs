//! Parsing the integer types.

use vstd::arithmetic::power::pow;
use vstd::prelude::*;

use crate::atoi::{parse_integer, spec_parse_integer, IntegerKind};
use crate::digit::is_radix;
use crate::error::Error;
use crate::format::NumberFormat;
use crate::options::{
    default_format, is_integer_separator, spec_default_format, ParseIntegerOptions,
};
use crate::traits::{complete, FromLexical, FromLexicalFormat};

verus! {

/// Whether `step` is the number of digits of `radix` that always fit 64
/// bits: the largest power of the radix that is not above two to the
/// sixty-fourth.
pub open spec fn is_wide_step(radix: u32, step: int) -> bool {
    &&& step >= 1
    &&& pow(radix as int, step as nat) <= 0x1_0000_0000_0000_0000
    &&& 0x1_0000_0000_0000_0000 < pow(radix as int, (step + 1) as nat)
}

/// The number of digits of a radix in which the 128-bit types fold their
/// digits.
pub open spec fn spec_wide_step(radix: u32) -> usize {
    match radix {
        2 => 64,
        3 => 40,
        4 => 32,
        5 => 27,
        6 => 24,
        7 => 22,
        8 => 21,
        9 => 20,
        10 => 19,
        11 => 18,
        12 => 17,
        13 => 17,
        14 => 16,
        15 => 16,
        16 => 16,
        17 => 15,
        18 => 15,
        19 => 15,
        20 => 14,
        21 => 14,
        22 => 14,
        23 => 14,
        24 => 13,
        25 => 13,
        26 => 13,
        27 => 13,
        28 => 13,
        29 => 13,
        30 => 13,
        31 => 12,
        32 => 12,
        33 => 12,
        34 => 12,
        35 => 12,
        _ => 12,
    }
}

/// The entries of the table of steps are the steps.
proof fn lemma_wide_steps()
    ensures
        is_wide_step(2, 64),
        is_wide_step(3, 40),
        is_wide_step(4, 32),
        is_wide_step(5, 27),
        is_wide_step(6, 24),
        is_wide_step(7, 22),
        is_wide_step(8, 21),
        is_wide_step(9, 20),
        is_wide_step(10, 19),
        is_wide_step(11, 18),
        is_wide_step(12, 17),
        is_wide_step(13, 17),
        is_wide_step(14, 16),
        is_wide_step(15, 16),
        is_wide_step(16, 16),
        is_wide_step(17, 15),
        is_wide_step(18, 15),
        is_wide_step(19, 15),
        is_wide_step(20, 14),
        is_wide_step(21, 14),
        is_wide_step(22, 14),
        is_wide_step(23, 14),
        is_wide_step(24, 13),
        is_wide_step(25, 13),
        is_wide_step(26, 13),
        is_wide_step(27, 13),
        is_wide_step(28, 13),
        is_wide_step(29, 13),
        is_wide_step(30, 13),
        is_wide_step(31, 12),
        is_wide_step(32, 12),
        is_wide_step(33, 12),
        is_wide_step(34, 12),
        is_wide_step(35, 12),
        is_wide_step(36, 12),
{
    reveal_with_fuel(pow, 66);
}

/// The number of digits of `radix` in which the 128-bit types fold their
/// digits: as many as always fit 64 bits.
pub fn wide_step(radix: u32) -> (r: usize)
    requires
        is_radix(radix),
    ensures
        r == spec_wide_step(radix),
        is_wide_step(radix, r as int),
{
    proof {
        lemma_wide_steps();
    }
    match radix {
        2 => 64,
        3 => 40,
        4 => 32,
        5 => 27,
        6 => 24,
        7 => 22,
        8 => 21,
        9 => 20,
        10 => 19,
        11 => 18,
        12 => 17,
        13 => 17,
        14 => 16,
        15 => 16,
        16 => 16,
        17 => 15,
        18 => 15,
        19 => 15,
        20 => 14,
        21 => 14,
        22 => 14,
        23 => 14,
        24 => 13,
        25 => 13,
        26 => 13,
        27 => 13,
        28 => 13,
        29 => 13,
        30 => 13,
        31 => 12,
        32 => 12,
        33 => 12,
        34 => 12,
        35 => 12,
        _ => 12,
    }
}

/// What the parser has to know of `u8`.
pub open spec fn spec_kind_u8(radix: u32) -> IntegerKind {
    IntegerKind { signed: false, max: 0xFF, min_magnitude: 0, step: 1 }
}

/// What parsing an `u8` gives: the value and the number of bytes
/// consumed, or the error. See [`spec_parse_integer`].
pub open spec fn spec_parse_u8(s: Seq<u8>, radix: u32, format: NumberFormat) -> Result<
    (u8, usize),
    Error,
> {
    match spec_parse_integer(s, radix, format, spec_kind_u8(radix)) {
        Ok((negative, magnitude, consumed)) => Ok((magnitude as u8, consumed)),
        Err(e) => Err(e),
    }
}

/// Parse an `u8` from the start of `bytes`.
pub fn parse_u8(bytes: &[u8], radix: u32, format: NumberFormat) -> (r: Result<(u8, usize), Error>)
    requires
        is_radix(radix),
    ensures
        r == spec_parse_u8(bytes@, radix, format),
{
    let kind = IntegerKind { signed: false, max: 0xFF, min_magnitude: 0, step: 1 };
    match parse_integer(bytes, radix, format, kind) {
        Ok((negative, magnitude, consumed)) => {
            Ok((magnitude as u8, consumed))
        },
        Err(e) => Err(e),
    }
}

impl FromLexical for u8 {
    type Options = ParseIntegerOptions;

    open spec fn spec_parse(bytes: Seq<u8>, options: ParseIntegerOptions) -> Result<
        (u8, usize),
        Error,
    > {
        spec_parse_u8(bytes, options.spec_radix(), options.spec_format())
    }

    open spec fn spec_parse_with(bytes: Seq<u8>, lossy: bool, radix: u32, format: NumberFormat)
        -> Result<(u8, usize), Error> {
        spec_parse_u8(bytes, radix, format)
    }

    open spec fn spec_fits(radix: u32, format: NumberFormat) -> bool {
        ParseIntegerOptions::fits(radix, format)
    }

    fn from_lexical(bytes: &[u8]) -> (r: Result<u8, Error>) {
        complete(parse_u8(bytes, 10, default_format()), bytes.len())
    }

    fn from_lexical_with_options(bytes: &[u8], options: &ParseIntegerOptions) -> (r: Result<
        u8,
        Error,
    >) {
        proof {
            use_type_invariant(options);
        }
        complete(parse_u8(bytes, options.radix(), options.format()), bytes.len())
    }

    fn from_lexical_partial(bytes: &[u8]) -> (r: Result<(u8, usize), Error>) {
        parse_u8(bytes, 10, default_format())
    }

    fn from_lexical_partial_with_options(bytes: &[u8], options: &ParseIntegerOptions) -> (r:
        Result<(u8, usize), Error>) {
        proof {
            use_type_invariant(options);
        }
        parse_u8(bytes, options.radix(), options.format())
    }

    fn from_lexical_radix(bytes: &[u8], radix: u8) -> (r: Result<u8, Error>) {
        complete(parse_u8(bytes, radix as u32, default_format()), bytes.len())
    }

    fn from_lexical_partial_radix(bytes: &[u8], radix: u8) -> (r: Result<(u8, usize), Error>) {
        parse_u8(bytes, radix as u32, default_format())
    }
}

impl FromLexicalFormat for u8 {
    fn from_lexical_format(bytes: &[u8], format: NumberFormat) -> (r: Result<u8, Error>) {
        complete(parse_u8(bytes, 10, format), bytes.len())
    }

    fn from_lexical_partial_format(bytes: &[u8], format: NumberFormat) -> (r: Result<
        (u8, usize),
        Error,
    >) {
        parse_u8(bytes, 10, format)
    }

    fn from_lexical_format_radix(bytes: &[u8], radix: u8, format: NumberFormat) -> (r: Result<
        u8,
        Error,
    >) {
        complete(parse_u8(bytes, radix as u32, format), bytes.len())
    }

    fn from_lexical_partial_format_radix(bytes: &[u8], radix: u8, format: NumberFormat) -> (r:
        Result<(u8, usize), Error>) {
        parse_u8(bytes, radix as u32, format)
    }
}

/// What the parser has to know of `u16`.
pub open spec fn spec_kind_u16(radix: u32) -> IntegerKind {
    IntegerKind { signed: false, max: 0xFFFF, min_magnitude: 0, step: 1 }
}

/// What parsing an `u16` gives: the value and the number of bytes
/// consumed, or the error. See [`spec_parse_integer`].
pub open spec fn spec_parse_u16(s: Seq<u8>, radix: u32, format: NumberFormat) -> Result<
    (u16, usize),
    Error,
> {
    match spec_parse_integer(s, radix, format, spec_kind_u16(radix)) {
        Ok((negative, magnitude, consumed)) => Ok((magnitude as u16, consumed)),
        Err(e) => Err(e),
    }
}

/// Parse an `u16` from the start of `bytes`.
pub fn parse_u16(bytes: &[u8], radix: u32, format: NumberFormat) -> (r: Result<(u16, usize), Error>)
    requires
        is_radix(radix),
    ensures
        r == spec_parse_u16(bytes@, radix, format),
{
    let kind = IntegerKind { signed: false, max: 0xFFFF, min_magnitude: 0, step: 1 };
    match parse_integer(bytes, radix, format, kind) {
        Ok((negative, magnitude, consumed)) => {
            Ok((magnitude as u16, consumed))
        },
        Err(e) => Err(e),
    }
}

impl FromLexical for u16 {
    type Options = ParseIntegerOptions;

    open spec fn spec_parse(bytes: Seq<u8>, options: ParseIntegerOptions) -> Result<
        (u16, usize),
        Error,
    > {
        spec_parse_u16(bytes, options.spec_radix(), options.spec_format())
    }

    open spec fn spec_parse_with(bytes: Seq<u8>, lossy: bool, radix: u32, format: NumberFormat)
        -> Result<(u16, usize), Error> {
        spec_parse_u16(bytes, radix, format)
    }

    open spec fn spec_fits(radix: u32, format: NumberFormat) -> bool {
        ParseIntegerOptions::fits(radix, format)
    }

    fn from_lexical(bytes: &[u8]) -> (r: Result<u16, Error>) {
        complete(parse_u16(bytes, 10, default_format()), bytes.len())
    }

    fn from_lexical_with_options(bytes: &[u8], options: &ParseIntegerOptions) -> (r: Result<
        u16,
        Error,
    >) {
        proof {
            use_type_invariant(options);
        }
        complete(parse_u16(bytes, options.radix(), options.format()), bytes.len())
    }

    fn from_lexical_partial(bytes: &[u8]) -> (r: Result<(u16, usize), Error>) {
        parse_u16(bytes, 10, default_format())
    }

    fn from_lexical_partial_with_options(bytes: &[u8], options: &ParseIntegerOptions) -> (r:
        Result<(u16, usize), Error>) {
        proof {
            use_type_invariant(options);
        }
        parse_u16(bytes, options.radix(), options.format())
    }

    fn from_lexical_radix(bytes: &[u8], radix: u8) -> (r: Result<u16, Error>) {
        complete(parse_u16(bytes, radix as u32, default_format()), bytes.len())
    }

    fn from_lexical_partial_radix(bytes: &[u8], radix: u8) -> (r: Result<(u16, usize), Error>) {
        parse_u16(bytes, radix as u32, default_format())
    }
}

impl FromLexicalFormat for u16 {
    fn from_lexical_format(bytes: &[u8], format: NumberFormat) -> (r: Result<u16, Error>) {
        complete(parse_u16(bytes, 10, format), bytes.len())
    }

    fn from_lexical_partial_format(bytes: &[u8], format: NumberFormat) -> (r: Result<
        (u16, usize),
        Error,
    >) {
        parse_u16(bytes, 10, format)
    }

    fn from_lexical_format_radix(bytes: &[u8], radix: u8, format: NumberFormat) -> (r: Result<
        u16,
        Error,
    >) {
        complete(parse_u16(bytes, radix as u32, format), bytes.len())
    }

    fn from_lexical_partial_format_radix(bytes: &[u8], radix: u8, format: NumberFormat) -> (r:
        Result<(u16, usize), Error>) {
        parse_u16(bytes, radix as u32, format)
    }
}

/// What the parser has to know of `u32`.
pub open spec fn spec_kind_u32(radix: u32) -> IntegerKind {
    IntegerKind { signed: false, max: 0xFFFFFFFF, min_magnitude: 0, step: 1 }
}

/// What parsing an `u32` gives: the value and the number of bytes
/// consumed, or the error. See [`spec_parse_integer`].
pub open spec fn spec_parse_u32(s: Seq<u8>, radix: u32, format: NumberFormat) -> Result<
    (u32, usize),
    Error,
> {
    match spec_parse_integer(s, radix, format, spec_kind_u32(radix)) {
        Ok((negative, magnitude, consumed)) => Ok((magnitude as u32, consumed)),
        Err(e) => Err(e),
    }
}

/// Parse an `u32` from the start of `bytes`.
pub fn parse_u32(bytes: &[u8], radix: u32, format: NumberFormat) -> (r: Result<(u32, usize), Error>)
    requires
        is_radix(radix),
    ensures
        r == spec_parse_u32(bytes@, radix, format),
{
    let kind = IntegerKind { signed: false, max: 0xFFFFFFFF, min_magnitude: 0, step: 1 };
    match parse_integer(bytes, radix, format, kind) {
        Ok((negative, magnitude, consumed)) => {
            Ok((magnitude as u32, consumed))
        },
        Err(e) => Err(e),
    }
}

impl FromLexical for u32 {
    type Options = ParseIntegerOptions;

    open spec fn spec_parse(bytes: Seq<u8>, options: ParseIntegerOptions) -> Result<
        (u32, usize),
        Error,
    > {
        spec_parse_u32(bytes, options.spec_radix(), options.spec_format())
    }

    open spec fn spec_parse_with(bytes: Seq<u8>, lossy: bool, radix: u32, format: NumberFormat)
        -> Result<(u32, usize), Error> {
        spec_parse_u32(bytes, radix, format)
    }

    open spec fn spec_fits(radix: u32, format: NumberFormat) -> bool {
        ParseIntegerOptions::fits(radix, format)
    }

    fn from_lexical(bytes: &[u8]) -> (r: Result<u32, Error>) {
        complete(parse_u32(bytes, 10, default_format()), bytes.len())
    }

    fn from_lexical_with_options(bytes: &[u8], options: &ParseIntegerOptions) -> (r: Result<
        u32,
        Error,
    >) {
        proof {
            use_type_invariant(options);
        }
        complete(parse_u32(bytes, options.radix(), options.format()), bytes.len())
    }

    fn from_lexical_partial(bytes: &[u8]) -> (r: Result<(u32, usize), Error>) {
        parse_u32(bytes, 10, default_format())
    }

    fn from_lexical_partial_with_options(bytes: &[u8], options: &ParseIntegerOptions) -> (r:
        Result<(u32, usize), Error>) {
        proof {
            use_type_invariant(options);
        }
        parse_u32(bytes, options.radix(), options.format())
    }

    fn from_lexical_radix(bytes: &[u8], radix: u8) -> (r: Result<u32, Error>) {
        complete(parse_u32(bytes, radix as u32, default_format()), bytes.len())
    }

    fn from_lexical_partial_radix(bytes: &[u8], radix: u8) -> (r: Result<(u32, usize), Error>) {
        parse_u32(bytes, radix as u32, default_format())
    }
}

impl FromLexicalFormat for u32 {
    fn from_lexical_format(bytes: &[u8], format: NumberFormat) -> (r: Result<u32, Error>) {
        complete(parse_u32(bytes, 10, format), bytes.len())
    }

    fn from_lexical_partial_format(bytes: &[u8], format: NumberFormat) -> (r: Result<
        (u32, usize),
        Error,
    >) {
        parse_u32(bytes, 10, format)
    }

    fn from_lexical_format_radix(bytes: &[u8], radix: u8, format: NumberFormat) -> (r: Result<
        u32,
        Error,
    >) {
        complete(parse_u32(bytes, radix as u32, format), bytes.len())
    }

    fn from_lexical_partial_format_radix(bytes: &[u8], radix: u8, format: NumberFormat) -> (r:
        Result<(u32, usize), Error>) {
        parse_u32(bytes, radix as u32, format)
    }
}

/// What the parser has to know of `u64`.
pub open spec fn spec_kind_u64(radix: u32) -> IntegerKind {
    IntegerKind { signed: false, max: 0xFFFFFFFFFFFFFFFF, min_magnitude: 0, step: 1 }
}

/// What parsing an `u64` gives: the value and the number of bytes
/// consumed, or the error. See [`spec_parse_integer`].
pub open spec fn spec_parse_u64(s: Seq<u8>, radix: u32, format: NumberFormat) -> Result<
    (u64, usize),
    Error,
> {
    match spec_parse_integer(s, radix, format, spec_kind_u64(radix)) {
        Ok((negative, magnitude, consumed)) => Ok((magnitude as u64, consumed)),
        Err(e) => Err(e),
    }
}

/// Parse an `u64` from the start of `bytes`.
pub fn parse_u64(bytes: &[u8], radix: u32, format: NumberFormat) -> (r: Result<(u64, usize), Error>)
    requires
        is_radix(radix),
    ensures
        r == spec_parse_u64(bytes@, radix, format),
{
    let kind = IntegerKind { signed: false, max: 0xFFFFFFFFFFFFFFFF, min_magnitude: 0, step: 1 };
    match parse_integer(bytes, radix, format, kind) {
        Ok((negative, magnitude, consumed)) => {
            Ok((magnitude as u64, consumed))
        },
        Err(e) => Err(e),
    }
}

impl FromLexical for u64 {
    type Options = ParseIntegerOptions;

    open spec fn spec_parse(bytes: Seq<u8>, options: ParseIntegerOptions) -> Result<
        (u64, usize),
        Error,
    > {
        spec_parse_u64(bytes, options.spec_radix(), options.spec_format())
    }

    open spec fn spec_parse_with(bytes: Seq<u8>, lossy: bool, radix: u32, format: NumberFormat)
        -> Result<(u64, usize), Error> {
        spec_parse_u64(bytes, radix, format)
    }

    open spec fn spec_fits(radix: u32, format: NumberFormat) -> bool {
        ParseIntegerOptions::fits(radix, format)
    }

    fn from_lexical(bytes: &[u8]) -> (r: Result<u64, Error>) {
        complete(parse_u64(bytes, 10, default_format()), bytes.len())
    }

    fn from_lexical_with_options(bytes: &[u8], options: &ParseIntegerOptions) -> (r: Result<
        u64,
        Error,
    >) {
        proof {
            use_type_invariant(options);
        }
        complete(parse_u64(bytes, options.radix(), options.format()), bytes.len())
    }

    fn from_lexical_partial(bytes: &[u8]) -> (r: Result<(u64, usize), Error>) {
        parse_u64(bytes, 10, default_format())
    }

    fn from_lexical_partial_with_options(bytes: &[u8], options: &ParseIntegerOptions) -> (r:
        Result<(u64, usize), Error>) {
        proof {
            use_type_invariant(options);
        }
        parse_u64(bytes, options.radix(), options.format())
    }

    fn from_lexical_radix(bytes: &[u8], radix: u8) -> (r: Result<u64, Error>) {
        complete(parse_u64(bytes, radix as u32, default_format()), bytes.len())
    }

    fn from_lexical_partial_radix(bytes: &[u8], radix: u8) -> (r: Result<(u64, usize), Error>) {
        parse_u64(bytes, radix as u32, default_format())
    }
}

impl FromLexicalFormat for u64 {
    fn from_lexical_format(bytes: &[u8], format: NumberFormat) -> (r: Result<u64, Error>) {
        complete(parse_u64(bytes, 10, format), bytes.len())
    }

    fn from_lexical_partial_format(bytes: &[u8], format: NumberFormat) -> (r: Result<
        (u64, usize),
        Error,
    >) {
        parse_u64(bytes, 10, format)
    }

    fn from_lexical_format_radix(bytes: &[u8], radix: u8, format: NumberFormat) -> (r: Result<
        u64,
        Error,
    >) {
        complete(parse_u64(bytes, radix as u32, format), bytes.len())
    }

    fn from_lexical_partial_format_radix(bytes: &[u8], radix: u8, format: NumberFormat) -> (r:
        Result<(u64, usize), Error>) {
        parse_u64(bytes, radix as u32, format)
    }
}

/// What the parser has to know of `usize`.
pub open spec fn spec_kind_usize(radix: u32) -> IntegerKind {
    IntegerKind { signed: false, max: usize::MAX as u128, min_magnitude: 0, step: 1 }
}

/// What parsing an `usize` gives: the value and the number of bytes
/// consumed, or the error. See [`spec_parse_integer`].
pub open spec fn spec_parse_usize(s: Seq<u8>, radix: u32, format: NumberFormat) -> Result<
    (usize, usize),
    Error,
> {
    match spec_parse_integer(s, radix, format, spec_kind_usize(radix)) {
        Ok((negative, magnitude, consumed)) => Ok((magnitude as usize, consumed)),
        Err(e) => Err(e),
    }
}

/// Parse an `usize` from the start of `bytes`.
pub fn parse_usize(bytes: &[u8], radix: u32, format: NumberFormat) -> (r: Result<(usize, usize), Error>)
    requires
        is_radix(radix),
    ensures
        r == spec_parse_usize(bytes@, radix, format),
{
    let kind = IntegerKind { signed: false, max: usize::MAX as u128, min_magnitude: 0, step: 1 };
    match parse_integer(bytes, radix, format, kind) {
        Ok((negative, magnitude, consumed)) => {
            Ok((magnitude as usize, consumed))
        },
        Err(e) => Err(e),
    }
}

impl FromLexical for usize {
    type Options = ParseIntegerOptions;

    open spec fn spec_parse(bytes: Seq<u8>, options: ParseIntegerOptions) -> Result<
        (usize, usize),
        Error,
    > {
        spec_parse_usize(bytes, options.spec_radix(), options.spec_format())
    }

    open spec fn spec_parse_with(bytes: Seq<u8>, lossy: bool, radix: u32, format: NumberFormat)
        -> Result<(usize, usize), Error> {
        spec_parse_usize(bytes, radix, format)
    }

    open spec fn spec_fits(radix: u32, format: NumberFormat) -> bool {
        ParseIntegerOptions::fits(radix, format)
    }

    fn from_lexical(bytes: &[u8]) -> (r: Result<usize, Error>) {
        complete(parse_usize(bytes, 10, default_format()), bytes.len())
    }

    fn from_lexical_with_options(bytes: &[u8], options: &ParseIntegerOptions) -> (r: Result<
        usize,
        Error,
    >) {
        proof {
            use_type_invariant(options);
        }
        complete(parse_usize(bytes, options.radix(), options.format()), bytes.len())
    }

    fn from_lexical_partial(bytes: &[u8]) -> (r: Result<(usize, usize), Error>) {
        parse_usize(bytes, 10, default_format())
    }

    fn from_lexical_partial_with_options(bytes: &[u8], options: &ParseIntegerOptions) -> (r:
        Result<(usize, usize), Error>) {
        proof {
            use_type_invariant(options);
        }
        parse_usize(bytes, options.radix(), options.format())
    }

    fn from_lexical_radix(bytes: &[u8], radix: u8) -> (r: Result<usize, Error>) {
        complete(parse_usize(bytes, radix as u32, default_format()), bytes.len())
    }

    fn from_lexical_partial_radix(bytes: &[u8], radix: u8) -> (r: Result<(usize, usize), Error>) {
        parse_usize(bytes, radix as u32, default_format())
    }
}

impl FromLexicalFormat for usize {
    fn from_lexical_format(bytes: &[u8], format: NumberFormat) -> (r: Result<usize, Error>) {
        complete(parse_usize(bytes, 10, format), bytes.len())
    }

    fn from_lexical_partial_format(bytes: &[u8], format: NumberFormat) -> (r: Result<
        (usize, usize),
        Error,
    >) {
        parse_usize(bytes, 10, format)
    }

    fn from_lexical_format_radix(bytes: &[u8], radix: u8, format: NumberFormat) -> (r: Result<
        usize,
        Error,
    >) {
        complete(parse_usize(bytes, radix as u32, format), bytes.len())
    }

    fn from_lexical_partial_format_radix(bytes: &[u8], radix: u8, format: NumberFormat) -> (r:
        Result<(usize, usize), Error>) {
        parse_usize(bytes, radix as u32, format)
    }
}

/// What the parser has to know of `u128`.
pub open spec fn spec_kind_u128(radix: u32) -> IntegerKind {
    IntegerKind { signed: false, max: 0xFFFFFFFFFFFFFFFFFFFFFFFFFFFFFFFF, min_magnitude: 0, step: spec_wide_step(radix) }
}

/// What parsing an `u128` gives: the value and the number of bytes
/// consumed, or the error. See [`spec_parse_integer`].
pub open spec fn spec_parse_u128(s: Seq<u8>, radix: u32, format: NumberFormat) -> Result<
    (u128, usize),
    Error,
> {
    match spec_parse_integer(s, radix, format, spec_kind_u128(radix)) {
        Ok((negative, magnitude, consumed)) => Ok((magnitude as u128, consumed)),
        Err(e) => Err(e),
    }
}

/// Parse an `u128` from the start of `bytes`.
pub fn parse_u128(bytes: &[u8], radix: u32, format: NumberFormat) -> (r: Result<(u128, usize), Error>)
    requires
        is_radix(radix),
    ensures
        r == spec_parse_u128(bytes@, radix, format),
{
    let kind = IntegerKind { signed: false, max: 0xFFFFFFFFFFFFFFFFFFFFFFFFFFFFFFFF, min_magnitude: 0, step: wide_step(radix) };
    match parse_integer(bytes, radix, format, kind) {
        Ok((negative, magnitude, consumed)) => {
            Ok((magnitude as u128, consumed))
        },
        Err(e) => Err(e),
    }
}

impl FromLexical for u128 {
    type Options = ParseIntegerOptions;

    open spec fn spec_parse(bytes: Seq<u8>, options: ParseIntegerOptions) -> Result<
        (u128, usize),
        Error,
    > {
        spec_parse_u128(bytes, options.spec_radix(), options.spec_format())
    }

    open spec fn spec_parse_with(bytes: Seq<u8>, lossy: bool, radix: u32, format: NumberFormat)
        -> Result<(u128, usize), Error> {
        spec_parse_u128(bytes, radix, format)
    }

    open spec fn spec_fits(radix: u32, format: NumberFormat) -> bool {
        ParseIntegerOptions::fits(radix, format)
    }

    fn from_lexical(bytes: &[u8]) -> (r: Result<u128, Error>) {
        complete(parse_u128(bytes, 10, default_format()), bytes.len())
    }

    fn from_lexical_with_options(bytes: &[u8], options: &ParseIntegerOptions) -> (r: Result<
        u128,
        Error,
    >) {
        proof {
            use_type_invariant(options);
        }
        complete(parse_u128(bytes, options.radix(), options.format()), bytes.len())
    }

    fn from_lexical_partial(bytes: &[u8]) -> (r: Result<(u128, usize), Error>) {
        parse_u128(bytes, 10, default_format())
    }

    fn from_lexical_partial_with_options(bytes: &[u8], options: &ParseIntegerOptions) -> (r:
        Result<(u128, usize), Error>) {
        proof {
            use_type_invariant(options);
        }
        parse_u128(bytes, options.radix(), options.format())
    }

    fn from_lexical_radix(bytes: &[u8], radix: u8) -> (r: Result<u128, Error>) {
        complete(parse_u128(bytes, radix as u32, default_format()), bytes.len())
    }

    fn from_lexical_partial_radix(bytes: &[u8], radix: u8) -> (r: Result<(u128, usize), Error>) {
        parse_u128(bytes, radix as u32, default_format())
    }
}

impl FromLexicalFormat for u128 {
    fn from_lexical_format(bytes: &[u8], format: NumberFormat) -> (r: Result<u128, Error>) {
        complete(parse_u128(bytes, 10, format), bytes.len())
    }

    fn from_lexical_partial_format(bytes: &[u8], format: NumberFormat) -> (r: Result<
        (u128, usize),
        Error,
    >) {
        parse_u128(bytes, 10, format)
    }

    fn from_lexical_format_radix(bytes: &[u8], radix: u8, format: NumberFormat) -> (r: Result<
        u128,
        Error,
    >) {
        complete(parse_u128(bytes, radix as u32, format), bytes.len())
    }

    fn from_lexical_partial_format_radix(bytes: &[u8], radix: u8, format: NumberFormat) -> (r:
        Result<(u128, usize), Error>) {
        parse_u128(bytes, radix as u32, format)
    }
}

/// What the parser has to know of `i8`.
pub open spec fn spec_kind_i8(radix: u32) -> IntegerKind {
    IntegerKind { signed: true, max: 0x7F, min_magnitude: 0x80, step: 1 }
}

/// What parsing an `i8` gives: the value and the number of bytes
/// consumed, or the error. See [`spec_parse_integer`].
pub open spec fn spec_parse_i8(s: Seq<u8>, radix: u32, format: NumberFormat) -> Result<
    (i8, usize),
    Error,
> {
    match spec_parse_integer(s, radix, format, spec_kind_i8(radix)) {
        Ok((negative, magnitude, consumed)) => Ok(
            (
                (if negative {
                    -(magnitude as int)
                } else {
                    magnitude as int
                }) as i8,
                consumed,
            ),
        ),
        Err(e) => Err(e),
    }
}

/// Parse an `i8` from the start of `bytes`.
pub fn parse_i8(bytes: &[u8], radix: u32, format: NumberFormat) -> (r: Result<(i8, usize), Error>)
    requires
        is_radix(radix),
    ensures
        r == spec_parse_i8(bytes@, radix, format),
{
    let kind = IntegerKind { signed: true, max: 0x7F, min_magnitude: 0x80, step: 1 };
    match parse_integer(bytes, radix, format, kind) {
        Ok((negative, magnitude, consumed)) => {
            let value: i8 = if negative {
                if magnitude == kind.min_magnitude {
                    i8::MIN
                } else {
                    -(magnitude as i8)
                }
            } else {
                magnitude as i8
            };
            Ok((value, consumed))
        },
        Err(e) => Err(e),
    }
}

impl FromLexical for i8 {
    type Options = ParseIntegerOptions;

    open spec fn spec_parse(bytes: Seq<u8>, options: ParseIntegerOptions) -> Result<
        (i8, usize),
        Error,
    > {
        spec_parse_i8(bytes, options.spec_radix(), options.spec_format())
    }

    open spec fn spec_parse_with(bytes: Seq<u8>, lossy: bool, radix: u32, format: NumberFormat)
        -> Result<(i8, usize), Error> {
        spec_parse_i8(bytes, radix, format)
    }

    open spec fn spec_fits(radix: u32, format: NumberFormat) -> bool {
        ParseIntegerOptions::fits(radix, format)
    }

    fn from_lexical(bytes: &[u8]) -> (r: Result<i8, Error>) {
        complete(parse_i8(bytes, 10, default_format()), bytes.len())
    }

    fn from_lexical_with_options(bytes: &[u8], options: &ParseIntegerOptions) -> (r: Result<
        i8,
        Error,
    >) {
        proof {
            use_type_invariant(options);
        }
        complete(parse_i8(bytes, options.radix(), options.format()), bytes.len())
    }

    fn from_lexical_partial(bytes: &[u8]) -> (r: Result<(i8, usize), Error>) {
        parse_i8(bytes, 10, default_format())
    }

    fn from_lexical_partial_with_options(bytes: &[u8], options: &ParseIntegerOptions) -> (r:
        Result<(i8, usize), Error>) {
        proof {
            use_type_invariant(options);
        }
        parse_i8(bytes, options.radix(), options.format())
    }

    fn from_lexical_radix(bytes: &[u8], radix: u8) -> (r: Result<i8, Error>) {
        complete(parse_i8(bytes, radix as u32, default_format()), bytes.len())
    }

    fn from_lexical_partial_radix(bytes: &[u8], radix: u8) -> (r: Result<(i8, usize), Error>) {
        parse_i8(bytes, radix as u32, default_format())
    }
}

impl FromLexicalFormat for i8 {
    fn from_lexical_format(bytes: &[u8], format: NumberFormat) -> (r: Result<i8, Error>) {
        complete(parse_i8(bytes, 10, format), bytes.len())
    }

    fn from_lexical_partial_format(bytes: &[u8], format: NumberFormat) -> (r: Result<
        (i8, usize),
        Error,
    >) {
        parse_i8(bytes, 10, format)
    }

    fn from_lexical_format_radix(bytes: &[u8], radix: u8, format: NumberFormat) -> (r: Result<
        i8,
        Error,
    >) {
        complete(parse_i8(bytes, radix as u32, format), bytes.len())
    }

    fn from_lexical_partial_format_radix(bytes: &[u8], radix: u8, format: NumberFormat) -> (r:
        Result<(i8, usize), Error>) {
        parse_i8(bytes, radix as u32, format)
    }
}

/// What the parser has to know of `i16`.
pub open spec fn spec_kind_i16(radix: u32) -> IntegerKind {
    IntegerKind { signed: true, max: 0x7FFF, min_magnitude: 0x8000, step: 1 }
}

/// What parsing an `i16` gives: the value and the number of bytes
/// consumed, or the error. See [`spec_parse_integer`].
pub open spec fn spec_parse_i16(s: Seq<u8>, radix: u32, format: NumberFormat) -> Result<
    (i16, usize),
    Error,
> {
    match spec_parse_integer(s, radix, format, spec_kind_i16(radix)) {
        Ok((negative, magnitude, consumed)) => Ok(
            (
                (if negative {
                    -(magnitude as int)
                } else {
                    magnitude as int
                }) as i16,
                consumed,
            ),
        ),
        Err(e) => Err(e),
    }
}

/// Parse an `i16` from the start of `bytes`.
pub fn parse_i16(bytes: &[u8], radix: u32, format: NumberFormat) -> (r: Result<(i16, usize), Error>)
    requires
        is_radix(radix),
    ensures
        r == spec_parse_i16(bytes@, radix, format),
{
    let kind = IntegerKind { signed: true, max: 0x7FFF, min_magnitude: 0x8000, step: 1 };
    match parse_integer(bytes, radix, format, kind) {
        Ok((negative, magnitude, consumed)) => {
            let value: i16 = if negative {
                if magnitude == kind.min_magnitude {
                    i16::MIN
                } else {
                    -(magnitude as i16)
                }
            } else {
                magnitude as i16
            };
            Ok((value, consumed))
        },
        Err(e) => Err(e),
    }
}

impl FromLexical for i16 {
    type Options = ParseIntegerOptions;

    open spec fn spec_parse(bytes: Seq<u8>, options: ParseIntegerOptions) -> Result<
        (i16, usize),
        Error,
    > {
        spec_parse_i16(bytes, options.spec_radix(), options.spec_format())
    }

    open spec fn spec_parse_with(bytes: Seq<u8>, lossy: bool, radix: u32, format: NumberFormat)
        -> Result<(i16, usize), Error> {
        spec_parse_i16(bytes, radix, format)
    }

    open spec fn spec_fits(radix: u32, format: NumberFormat) -> bool {
        ParseIntegerOptions::fits(radix, format)
    }

    fn from_lexical(bytes: &[u8]) -> (r: Result<i16, Error>) {
        complete(parse_i16(bytes, 10, default_format()), bytes.len())
    }

    fn from_lexical_with_options(bytes: &[u8], options: &ParseIntegerOptions) -> (r: Result<
        i16,
        Error,
    >) {
        proof {
            use_type_invariant(options);
        }
        complete(parse_i16(bytes, options.radix(), options.format()), bytes.len())
    }

    fn from_lexical_partial(bytes: &[u8]) -> (r: Result<(i16, usize), Error>) {
        parse_i16(bytes, 10, default_format())
    }

    fn from_lexical_partial_with_options(bytes: &[u8], options: &ParseIntegerOptions) -> (r:
        Result<(i16, usize), Error>) {
        proof {
            use_type_invariant(options);
        }
        parse_i16(bytes, options.radix(), options.format())
    }

    fn from_lexical_radix(bytes: &[u8], radix: u8) -> (r: Result<i16, Error>) {
        complete(parse_i16(bytes, radix as u32, default_format()), bytes.len())
    }

    fn from_lexical_partial_radix(bytes: &[u8], radix: u8) -> (r: Result<(i16, usize), Error>) {
        parse_i16(bytes, radix as u32, default_format())
    }
}

impl FromLexicalFormat for i16 {
    fn from_lexical_format(bytes: &[u8], format: NumberFormat) -> (r: Result<i16, Error>) {
        complete(parse_i16(bytes, 10, format), bytes.len())
    }

    fn from_lexical_partial_format(bytes: &[u8], format: NumberFormat) -> (r: Result<
        (i16, usize),
        Error,
    >) {
        parse_i16(bytes, 10, format)
    }

    fn from_lexical_format_radix(bytes: &[u8], radix: u8, format: NumberFormat) -> (r: Result<
        i16,
        Error,
    >) {
        complete(parse_i16(bytes, radix as u32, format), bytes.len())
    }

    fn from_lexical_partial_format_radix(bytes: &[u8], radix: u8, format: NumberFormat) -> (r:
        Result<(i16, usize), Error>) {
        parse_i16(bytes, radix as u32, format)
    }
}

/// What the parser has to know of `i32`.
pub open spec fn spec_kind_i32(radix: u32) -> IntegerKind {
    IntegerKind { signed: true, max: 0x7FFFFFFF, min_magnitude: 0x80000000, step: 1 }
}

/// What parsing an `i32` gives: the value and the number of bytes
/// consumed, or the error. See [`spec_parse_integer`].
pub open spec fn spec_parse_i32(s: Seq<u8>, radix: u32, format: NumberFormat) -> Result<
    (i32, usize),
    Error,
> {
    match spec_parse_integer(s, radix, format, spec_kind_i32(radix)) {
        Ok((negative, magnitude, consumed)) => Ok(
            (
                (if negative {
                    -(magnitude as int)
                } else {
                    magnitude as int
                }) as i32,
                consumed,
            ),
        ),
        Err(e) => Err(e),
    }
}

/// Parse an `i32` from the start of `bytes`.
pub fn parse_i32(bytes: &[u8], radix: u32, format: NumberFormat) -> (r: Result<(i32, usize), Error>)
    requires
        is_radix(radix),
    ensures
        r == spec_parse_i32(bytes@, radix, format),
{
    let kind = IntegerKind { signed: true, max: 0x7FFFFFFF, min_magnitude: 0x80000000, step: 1 };
    match parse_integer(bytes, radix, format, kind) {
        Ok((negative, magnitude, consumed)) => {
            let value: i32 = if negative {
                if magnitude == kind.min_magnitude {
                    i32::MIN
                } else {
                    -(magnitude as i32)
                }
            } else {
                magnitude as i32
            };
            Ok((value, consumed))
        },
        Err(e) => Err(e),
    }
}

impl FromLexical for i32 {
    type Options = ParseIntegerOptions;

    open spec fn spec_parse(bytes: Seq<u8>, options: ParseIntegerOptions) -> Result<
        (i32, usize),
        Error,
    > {
        spec_parse_i32(bytes, options.spec_radix(), options.spec_format())
    }

    open spec fn spec_parse_with(bytes: Seq<u8>, lossy: bool, radix: u32, format: NumberFormat)
        -> Result<(i32, usize), Error> {
        spec_parse_i32(bytes, radix, format)
    }

    open spec fn spec_fits(radix: u32, format: NumberFormat) -> bool {
        ParseIntegerOptions::fits(radix, format)
    }

    fn from_lexical(bytes: &[u8]) -> (r: Result<i32, Error>) {
        complete(parse_i32(bytes, 10, default_format()), bytes.len())
    }

    fn from_lexical_with_options(bytes: &[u8], options: &ParseIntegerOptions) -> (r: Result<
        i32,
        Error,
    >) {
        proof {
            use_type_invariant(options);
        }
        complete(parse_i32(bytes, options.radix(), options.format()), bytes.len())
    }

    fn from_lexical_partial(bytes: &[u8]) -> (r: Result<(i32, usize), Error>) {
        parse_i32(bytes, 10, default_format())
    }

    fn from_lexical_partial_with_options(bytes: &[u8], options: &ParseIntegerOptions) -> (r:
        Result<(i32, usize), Error>) {
        proof {
            use_type_invariant(options);
        }
        parse_i32(bytes, options.radix(), options.format())
    }

    fn from_lexical_radix(bytes: &[u8], radix: u8) -> (r: Result<i32, Error>) {
        complete(parse_i32(bytes, radix as u32, default_format()), bytes.len())
    }

    fn from_lexical_partial_radix(bytes: &[u8], radix: u8) -> (r: Result<(i32, usize), Error>) {
        parse_i32(bytes, radix as u32, default_format())
    }
}

impl FromLexicalFormat for i32 {
    fn from_lexical_format(bytes: &[u8], format: NumberFormat) -> (r: Result<i32, Error>) {
        complete(parse_i32(bytes, 10, format), bytes.len())
    }

    fn from_lexical_partial_format(bytes: &[u8], format: NumberFormat) -> (r: Result<
        (i32, usize),
        Error,
    >) {
        parse_i32(bytes, 10, format)
    }

    fn from_lexical_format_radix(bytes: &[u8], radix: u8, format: NumberFormat) -> (r: Result<
        i32,
        Error,
    >) {
        complete(parse_i32(bytes, radix as u32, format), bytes.len())
    }

    fn from_lexical_partial_format_radix(bytes: &[u8], radix: u8, format: NumberFormat) -> (r:
        Result<(i32, usize), Error>) {
        parse_i32(bytes, radix as u32, format)
    }
}

/// What the parser has to know of `i64`.
pub open spec fn spec_kind_i64(radix: u32) -> IntegerKind {
    IntegerKind { signed: true, max: 0x7FFFFFFFFFFFFFFF, min_magnitude: 0x8000000000000000, step: 1 }
}

/// What parsing an `i64` gives: the value and the number of bytes
/// consumed, or the error. See [`spec_parse_integer`].
pub open spec fn spec_parse_i64(s: Seq<u8>, radix: u32, format: NumberFormat) -> Result<
    (i64, usize),
    Error,
> {
    match spec_parse_integer(s, radix, format, spec_kind_i64(radix)) {
        Ok((negative, magnitude, consumed)) => Ok(
            (
                (if negative {
                    -(magnitude as int)
                } else {
                    magnitude as int
                }) as i64,
                consumed,
            ),
        ),
        Err(e) => Err(e),
    }
}

/// Parse an `i64` from the start of `bytes`.
pub fn parse_i64(bytes: &[u8], radix: u32, format: NumberFormat) -> (r: Result<(i64, usize), Error>)
    requires
        is_radix(radix),
    ensures
        r == spec_parse_i64(bytes@, radix, format),
{
    let kind = IntegerKind { signed: true, max: 0x7FFFFFFFFFFFFFFF, min_magnitude: 0x8000000000000000, step: 1 };
    match parse_integer(bytes, radix, format, kind) {
        Ok((negative, magnitude, consumed)) => {
            let value: i64 = if negative {
                if magnitude == kind.min_magnitude {
                    i64::MIN
                } else {
                    -(magnitude as i64)
                }
            } else {
                magnitude as i64
            };
            Ok((value, consumed))
        },
        Err(e) => Err(e),
    }
}

impl FromLexical for i64 {
    type Options = ParseIntegerOptions;

    open spec fn spec_parse(bytes: Seq<u8>, options: ParseIntegerOptions) -> Result<
        (i64, usize),
        Error,
    > {
        spec_parse_i64(bytes, options.spec_radix(), options.spec_format())
    }

    open spec fn spec_parse_with(bytes: Seq<u8>, lossy: bool, radix: u32, format: NumberFormat)
        -> Result<(i64, usize), Error> {
        spec_parse_i64(bytes, radix, format)
    }

    open spec fn spec_fits(radix: u32, format: NumberFormat) -> bool {
        ParseIntegerOptions::fits(radix, format)
    }

    fn from_lexical(bytes: &[u8]) -> (r: Result<i64, Error>) {
        complete(parse_i64(bytes, 10, default_format()), bytes.len())
    }

    fn from_lexical_with_options(bytes: &[u8], options: &ParseIntegerOptions) -> (r: Result<
        i64,
        Error,
    >) {
        proof {
            use_type_invariant(options);
        }
        complete(parse_i64(bytes, options.radix(), options.format()), bytes.len())
    }

    fn from_lexical_partial(bytes: &[u8]) -> (r: Result<(i64, usize), Error>) {
        parse_i64(bytes, 10, default_format())
    }

    fn from_lexical_partial_with_options(bytes: &[u8], options: &ParseIntegerOptions) -> (r:
        Result<(i64, usize), Error>) {
        proof {
            use_type_invariant(options);
        }
        parse_i64(bytes, options.radix(), options.format())
    }

    fn from_lexical_radix(bytes: &[u8], radix: u8) -> (r: Result<i64, Error>) {
        complete(parse_i64(bytes, radix as u32, default_format()), bytes.len())
    }

    fn from_lexical_partial_radix(bytes: &[u8], radix: u8) -> (r: Result<(i64, usize), Error>) {
        parse_i64(bytes, radix as u32, default_format())
    }
}

impl FromLexicalFormat for i64 {
    fn from_lexical_format(bytes: &[u8], format: NumberFormat) -> (r: Result<i64, Error>) {
        complete(parse_i64(bytes, 10, format), bytes.len())
    }

    fn from_lexical_partial_format(bytes: &[u8], format: NumberFormat) -> (r: Result<
        (i64, usize),
        Error,
    >) {
        parse_i64(bytes, 10, format)
    }

    fn from_lexical_format_radix(bytes: &[u8], radix: u8, format: NumberFormat) -> (r: Result<
        i64,
        Error,
    >) {
        complete(parse_i64(bytes, radix as u32, format), bytes.len())
    }

    fn from_lexical_partial_format_radix(bytes: &[u8], radix: u8, format: NumberFormat) -> (r:
        Result<(i64, usize), Error>) {
        parse_i64(bytes, radix as u32, format)
    }
}

/// What the parser has to know of `isize`.
pub open spec fn spec_kind_isize(radix: u32) -> IntegerKind {
    IntegerKind { signed: true, max: isize::MAX as u128, min_magnitude: ((isize::MAX as u128) + 1) as u128, step: 1 }
}

/// What parsing an `isize` gives: the value and the number of bytes
/// consumed, or the error. See [`spec_parse_integer`].
pub open spec fn spec_parse_isize(s: Seq<u8>, radix: u32, format: NumberFormat) -> Result<
    (isize, usize),
    Error,
> {
    match spec_parse_integer(s, radix, format, spec_kind_isize(radix)) {
        Ok((negative, magnitude, consumed)) => Ok(
            (
                (if negative {
                    -(magnitude as int)
                } else {
                    magnitude as int
                }) as isize,
                consumed,
            ),
        ),
        Err(e) => Err(e),
    }
}

/// Parse an `isize` from the start of `bytes`.
pub fn parse_isize(bytes: &[u8], radix: u32, format: NumberFormat) -> (r: Result<(isize, usize), Error>)
    requires
        is_radix(radix),
    ensures
        r == spec_parse_isize(bytes@, radix, format),
{
    let kind = IntegerKind { signed: true, max: isize::MAX as u128, min_magnitude: (isize::MAX as u128) + 1, step: 1 };
    match parse_integer(bytes, radix, format, kind) {
        Ok((negative, magnitude, consumed)) => {
            let value: isize = if negative {
                if magnitude == kind.min_magnitude {
                    isize::MIN
                } else {
                    -(magnitude as isize)
                }
            } else {
                magnitude as isize
            };
            Ok((value, consumed))
        },
        Err(e) => Err(e),
    }
}

impl FromLexical for isize {
    type Options = ParseIntegerOptions;

    open spec fn spec_parse(bytes: Seq<u8>, options: ParseIntegerOptions) -> Result<
        (isize, usize),
        Error,
    > {
        spec_parse_isize(bytes, options.spec_radix(), options.spec_format())
    }

    open spec fn spec_parse_with(bytes: Seq<u8>, lossy: bool, radix: u32, format: NumberFormat)
        -> Result<(isize, usize), Error> {
        spec_parse_isize(bytes, radix, format)
    }

    open spec fn spec_fits(radix: u32, format: NumberFormat) -> bool {
        ParseIntegerOptions::fits(radix, format)
    }

    fn from_lexical(bytes: &[u8]) -> (r: Result<isize, Error>) {
        complete(parse_isize(bytes, 10, default_format()), bytes.len())
    }

    fn from_lexical_with_options(bytes: &[u8], options: &ParseIntegerOptions) -> (r: Result<
        isize,
        Error,
    >) {
        proof {
            use_type_invariant(options);
        }
        complete(parse_isize(bytes, options.radix(), options.format()), bytes.len())
    }

    fn from_lexical_partial(bytes: &[u8]) -> (r: Result<(isize, usize), Error>) {
        parse_isize(bytes, 10, default_format())
    }

    fn from_lexical_partial_with_options(bytes: &[u8], options: &ParseIntegerOptions) -> (r:
        Result<(isize, usize), Error>) {
        proof {
            use_type_invariant(options);
        }
        parse_isize(bytes, options.radix(), options.format())
    }

    fn from_lexical_radix(bytes: &[u8], radix: u8) -> (r: Result<isize, Error>) {
        complete(parse_isize(bytes, radix as u32, default_format()), bytes.len())
    }

    fn from_lexical_partial_radix(bytes: &[u8], radix: u8) -> (r: Result<(isize, usize), Error>) {
        parse_isize(bytes, radix as u32, default_format())
    }
}

impl FromLexicalFormat for isize {
    fn from_lexical_format(bytes: &[u8], format: NumberFormat) -> (r: Result<isize, Error>) {
        complete(parse_isize(bytes, 10, format), bytes.len())
    }

    fn from_lexical_partial_format(bytes: &[u8], format: NumberFormat) -> (r: Result<
        (isize, usize),
        Error,
    >) {
        parse_isize(bytes, 10, format)
    }

    fn from_lexical_format_radix(bytes: &[u8], radix: u8, format: NumberFormat) -> (r: Result<
        isize,
        Error,
    >) {
        complete(parse_isize(bytes, radix as u32, format), bytes.len())
    }

    fn from_lexical_partial_format_radix(bytes: &[u8], radix: u8, format: NumberFormat) -> (r:
        Result<(isize, usize), Error>) {
        parse_isize(bytes, radix as u32, format)
    }
}

/// What the parser has to know of `i128`.
pub open spec fn spec_kind_i128(radix: u32) -> IntegerKind {
    IntegerKind { signed: true, max: 0x7FFFFFFFFFFFFFFFFFFFFFFFFFFFFFFF, min_magnitude: 0x80000000000000000000000000000000, step: spec_wide_step(radix) }
}

/// What parsing an `i128` gives: the value and the number of bytes
/// consumed, or the error. See [`spec_parse_integer`].
pub open spec fn spec_parse_i128(s: Seq<u8>, radix: u32, format: NumberFormat) -> Result<
    (i128, usize),
    Error,
> {
    match spec_parse_integer(s, radix, format, spec_kind_i128(radix)) {
        Ok((negative, magnitude, consumed)) => Ok(
            (
                (if negative {
                    -(magnitude as int)
                } else {
                    magnitude as int
                }) as i128,
                consumed,
            ),
        ),
        Err(e) => Err(e),
    }
}

/// Parse an `i128` from the start of `bytes`.
pub fn parse_i128(bytes: &[u8], radix: u32, format: NumberFormat) -> (r: Result<(i128, usize), Error>)
    requires
        is_radix(radix),
    ensures
        r == spec_parse_i128(bytes@, radix, format),
{
    let kind = IntegerKind { signed: true, max: 0x7FFFFFFFFFFFFFFFFFFFFFFFFFFFFFFF, min_magnitude: 0x80000000000000000000000000000000, step: wide_step(radix) };
    match parse_integer(bytes, radix, format, kind) {
        Ok((negative, magnitude, consumed)) => {
            let value: i128 = if negative {
                if magnitude == kind.min_magnitude {
                    i128::MIN
                } else {
                    -(magnitude as i128)
                }
            } else {
                magnitude as i128
            };
            Ok((value, consumed))
        },
        Err(e) => Err(e),
    }
}

impl FromLexical for i128 {
    type Options = ParseIntegerOptions;

    open spec fn spec_parse(bytes: Seq<u8>, options: ParseIntegerOptions) -> Result<
        (i128, usize),
        Error,
    > {
        spec_parse_i128(bytes, options.spec_radix(), options.spec_format())
    }

    open spec fn spec_parse_with(bytes: Seq<u8>, lossy: bool, radix: u32, format: NumberFormat)
        -> Result<(i128, usize), Error> {
        spec_parse_i128(bytes, radix, format)
    }

    open spec fn spec_fits(radix: u32, format: NumberFormat) -> bool {
        ParseIntegerOptions::fits(radix, format)
    }

    fn from_lexical(bytes: &[u8]) -> (r: Result<i128, Error>) {
        complete(parse_i128(bytes, 10, default_format()), bytes.len())
    }

    fn from_lexical_with_options(bytes: &[u8], options: &ParseIntegerOptions) -> (r: Result<
        i128,
        Error,
    >) {
        proof {
            use_type_invariant(options);
        }
        complete(parse_i128(bytes, options.radix(), options.format()), bytes.len())
    }

    fn from_lexical_partial(bytes: &[u8]) -> (r: Result<(i128, usize), Error>) {
        parse_i128(bytes, 10, default_format())
    }

    fn from_lexical_partial_with_options(bytes: &[u8], options: &ParseIntegerOptions) -> (r:
        Result<(i128, usize), Error>) {
        proof {
            use_type_invariant(options);
        }
        parse_i128(bytes, options.radix(), options.format())
    }

    fn from_lexical_radix(bytes: &[u8], radix: u8) -> (r: Result<i128, Error>) {
        complete(parse_i128(bytes, radix as u32, default_format()), bytes.len())
    }

    fn from_lexical_partial_radix(bytes: &[u8], radix: u8) -> (r: Result<(i128, usize), Error>) {
        parse_i128(bytes, radix as u32, default_format())
    }
}

impl FromLexicalFormat for i128 {
    fn from_lexical_format(bytes: &[u8], format: NumberFormat) -> (r: Result<i128, Error>) {
        complete(parse_i128(bytes, 10, format), bytes.len())
    }

    fn from_lexical_partial_format(bytes: &[u8], format: NumberFormat) -> (r: Result<
        (i128, usize),
        Error,
    >) {
        parse_i128(bytes, 10, format)
    }

    fn from_lexical_format_radix(bytes: &[u8], radix: u8, format: NumberFormat) -> (r: Result<
        i128,
        Error,
    >) {
        complete(parse_i128(bytes, radix as u32, format), bytes.len())
    }

    fn from_lexical_partial_format_radix(bytes: &[u8], radix: u8, format: NumberFormat) -> (r:
        Result<(i128, usize), Error>) {
        parse_i128(bytes, radix as u32, format)
    }
}

} // verus!

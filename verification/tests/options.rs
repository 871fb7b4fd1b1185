//! The checks that options are made with.

use lexical::options::{
    to_exponent_char, to_format_float, to_format_integer, to_inf_string, to_infinity_string,
    to_nan_string, to_radix,
};
use lexical::{NumberFormat, ParseIntegerOptions};

#[test]
fn to_radix_test() {
    assert_eq!(to_radix(1), None);
    assert_eq!(to_radix(2), Some(2));
    assert_eq!(to_radix(10), Some(10));
    assert_eq!(to_radix(36), Some(36));
    assert_eq!(to_radix(37), None);
}

#[test]
fn to_exponent_char_test() {
    assert_eq!(to_exponent_char(b'2', 2), Some(b'2'));
    assert_eq!(to_exponent_char(b'e', 2), Some(b'e'));
    assert_eq!(to_exponent_char(b'p', 2), Some(b'p'));
    assert_eq!(to_exponent_char(b'z', 2), Some(b'z'));

    assert_eq!(to_exponent_char(b'2', 10), None);
    assert_eq!(to_exponent_char(b'e', 10), Some(b'e'));
    assert_eq!(to_exponent_char(b'p', 10), Some(b'p'));
    assert_eq!(to_exponent_char(b'z', 10), Some(b'z'));

    assert_eq!(to_exponent_char(b'2', 16), None);
    assert_eq!(to_exponent_char(b'e', 16), None);
    assert_eq!(to_exponent_char(b'p', 16), Some(b'p'));
    assert_eq!(to_exponent_char(b'z', 16), Some(b'z'));

    assert_eq!(to_exponent_char(b'2', 36), None);
    assert_eq!(to_exponent_char(b'e', 36), None);
    assert_eq!(to_exponent_char(b'p', 36), None);
    assert_eq!(to_exponent_char(b'z', 36), None);
}

#[test]
fn to_format_integer_test() {
    let f1 = NumberFormat::ignore(b'0').unwrap();
    let f2 = NumberFormat::ignore(b'2').unwrap();
    let f3 = NumberFormat::ignore(b'e').unwrap();
    let f4 = NumberFormat::ignore(b'_').unwrap();

    assert_eq!(to_format_integer(f1, 2), None);
    assert_eq!(to_format_integer(f2, 2), Some(f2));
    assert_eq!(to_format_integer(f3, 2), Some(f3));
    assert_eq!(to_format_integer(f4, 2), Some(f4));

    assert_eq!(to_format_integer(f1, 10), None);
    assert_eq!(to_format_integer(f2, 10), None);
    assert_eq!(to_format_integer(f3, 10), Some(f3));
    assert_eq!(to_format_integer(f4, 10), Some(f4));

    assert_eq!(to_format_integer(f1, 16), None);
    assert_eq!(to_format_integer(f2, 16), None);
    assert_eq!(to_format_integer(f3, 16), None);
    assert_eq!(to_format_integer(f4, 16), Some(f4));
}

#[test]
fn to_format_float_test() {
    let f1 = NumberFormat::ignore(b'0').unwrap();
    let f2 = NumberFormat::ignore(b'2').unwrap();
    let f3 = NumberFormat::ignore(b'e').unwrap();
    let f4 = NumberFormat::ignore(b'_').unwrap();

    assert_eq!(to_format_float(f1, 2, b'e'), None);
    assert_eq!(to_format_float(f2, 2, b'e'), Some(f2));
    assert_eq!(to_format_float(f3, 2, b'e'), None);
    assert_eq!(to_format_float(f4, 2, b'e'), Some(f4));

    assert_eq!(to_format_float(f1, 10, b'e'), None);
    assert_eq!(to_format_float(f2, 10, b'e'), None);
    assert_eq!(to_format_float(f3, 10, b'e'), None);
    assert_eq!(to_format_float(f4, 10, b'e'), Some(f4));

    assert_eq!(to_format_float(f1, 16, b'p'), None);
    assert_eq!(to_format_float(f2, 16, b'p'), None);
    assert_eq!(to_format_float(f3, 16, b'p'), None);
    assert_eq!(to_format_float(f4, 16, b'p'), Some(f4));
}

#[test]
fn to_nan_string_test() {
    assert_eq!(to_nan_string(b"inf".as_slice()), None);
    assert_eq!(to_nan_string(b"nan".as_slice()), Some(b"nan".as_slice()));
    assert_eq!(to_nan_string(b"NAN".as_slice()), Some(b"NAN".as_slice()));
}

#[test]
fn to_inf_string_test() {
    assert_eq!(to_inf_string(b"nan".as_slice()), None);
    assert_eq!(to_inf_string(b"inf".as_slice()), Some(b"inf".as_slice()));
    assert_eq!(to_inf_string(b"INF".as_slice()), Some(b"INF".as_slice()));
}

#[test]
fn to_infinity_string_test() {
    assert_eq!(to_infinity_string(b"nan".as_slice(), b"inf".as_slice()), None);
    assert_eq!(to_infinity_string(b"in".as_slice(), b"inf".as_slice()), None);
    assert_eq!(to_infinity_string(b"IN".as_slice(), b"inf".as_slice()), None);
    assert_eq!(to_infinity_string(b"na".as_slice(), b"inf".as_slice()), None);
    assert_eq!(to_infinity_string(b"infinity".as_slice(), b"inf".as_slice()), Some(b"infinity".as_slice()));
    assert_eq!(to_infinity_string(b"INFINITY".as_slice(), b"inf".as_slice()), Some(b"INFINITY".as_slice()));
}

#[test]
fn parse_integer_options_invalid_digit_separator_test() {
    let format = NumberFormat::ignore(b'0').unwrap();
    let options = ParseIntegerOptions::create(10, format);
    assert!(options.is_none());

    let format = NumberFormat::ignore(b'9').unwrap();
    let options = ParseIntegerOptions::create(10, format);
    assert!(options.is_none());

    let format = NumberFormat::ignore(b'A').unwrap();
    let options = ParseIntegerOptions::create(10, format);
    assert!(options.is_some());
}

//! Parsing integers: the limits of every width, other radices, and what the
//! format requires or forbids.

use lexical::{
    Buildable, Builder, ErrorCode, FromLexical, NumberFormat, ParseIntegerOptions,
};

const DATA: [(u8, &'static str); 35] = [
    (2, "100101"),
    (3, "1101"),
    (4, "211"),
    (5, "122"),
    (6, "101"),
    (7, "52"),
    (8, "45"),
    (9, "41"),
    (10, "37"),
    (11, "34"),
    (12, "31"),
    (13, "2B"),
    (14, "29"),
    (15, "27"),
    (16, "25"),
    (17, "23"),
    (18, "21"),
    (19, "1I"),
    (20, "1H"),
    (21, "1G"),
    (22, "1F"),
    (23, "1E"),
    (24, "1D"),
    (25, "1C"),
    (26, "1B"),
    (27, "1A"),
    (28, "19"),
    (29, "18"),
    (30, "17"),
    (31, "16"),
    (32, "15"),
    (33, "14"),
    (34, "13"),
    (35, "12"),
    (36, "11"),
];

#[test]
fn u8_decimal_test() {
    assert_eq!(Ok(0), u8::from_lexical(b"0"));
    assert_eq!(Ok(127), u8::from_lexical(b"127"));
    assert_eq!(Ok(128), u8::from_lexical(b"128"));
    assert_eq!(Ok(255), u8::from_lexical(b"255"));
    assert_eq!(Err((ErrorCode::InvalidDigit, 0).into()), u8::from_lexical(b"-1"));
    assert_eq!(Err((ErrorCode::InvalidDigit, 1).into()), u8::from_lexical(b"1a"));
}

#[test]
fn u8_radix_test() {
    for (b, s) in DATA.iter() {
        let options = ParseIntegerOptions::builder().radix(*b).build().unwrap();
        assert_eq!(u8::from_lexical_with_options(s.as_bytes(), &options), Ok(37));
    }
}

#[test]
fn i8_decimal_test() {
    assert_eq!(Ok(0), i8::from_lexical(b"0"));
    assert_eq!(Ok(127), i8::from_lexical(b"127"));
    assert_eq!(Err((ErrorCode::Overflow, 2).into()), i8::from_lexical(b"128"));
    assert_eq!(Err((ErrorCode::Overflow, 2).into()), i8::from_lexical(b"255"));
    assert_eq!(Ok(-1), i8::from_lexical(b"-1"));
    assert_eq!(Err((ErrorCode::InvalidDigit, 1).into()), i8::from_lexical(b"1a"));
}

#[test]
fn i8_radix_test() {
    for (b, s) in DATA.iter() {
        let options = ParseIntegerOptions::builder().radix(*b).build().unwrap();
        assert_eq!(i8::from_lexical_with_options(s.as_bytes(), &options), Ok(37));
    }
}

#[test]
fn u16_decimal_test() {
    assert_eq!(Ok(0), u16::from_lexical(b"0"));
    assert_eq!(Ok(32767), u16::from_lexical(b"32767"));
    assert_eq!(Ok(32768), u16::from_lexical(b"32768"));
    assert_eq!(Ok(65535), u16::from_lexical(b"65535"));
    assert_eq!(Err((ErrorCode::InvalidDigit, 0).into()), u16::from_lexical(b"-1"));
    assert_eq!(Err((ErrorCode::InvalidDigit, 1).into()), u16::from_lexical(b"1a"));
}

#[test]
fn i16_decimal_test() {
    assert_eq!(Ok(0), i16::from_lexical(b"0"));
    assert_eq!(Ok(32767), i16::from_lexical(b"32767"));
    assert_eq!(Err((ErrorCode::Overflow, 4).into()), i16::from_lexical(b"32768"));
    assert_eq!(Err((ErrorCode::Overflow, 4).into()), i16::from_lexical(b"65535"));
    assert_eq!(Ok(-1), i16::from_lexical(b"-1"));
    assert_eq!(Err((ErrorCode::InvalidDigit, 1).into()), i16::from_lexical(b"1a"));
}

#[test]
fn i16_radix_test() {
    for (b, s) in DATA.iter() {
        let options = ParseIntegerOptions::builder().radix(*b).build().unwrap();
        assert_eq!(i16::from_lexical_with_options(s.as_bytes(), &options), Ok(37));
    }
    let options = ParseIntegerOptions::builder().radix(36).build().unwrap();
    assert_eq!(i16::from_lexical_with_options(b"YA", &options), Ok(1234));
}

#[test]
fn u32_decimal_test() {
    assert_eq!(Ok(0), u32::from_lexical(b"0"));
    assert_eq!(Ok(2147483647), u32::from_lexical(b"2147483647"));
    assert_eq!(Ok(2147483648), u32::from_lexical(b"2147483648"));
    assert_eq!(Ok(4294967295), u32::from_lexical(b"4294967295"));
    assert_eq!(Err((ErrorCode::InvalidDigit, 0).into()), u32::from_lexical(b"-1"));
    assert_eq!(Err((ErrorCode::InvalidDigit, 1).into()), u32::from_lexical(b"1a"));
}

#[test]
fn i32_decimal_test() {
    assert_eq!(Ok(0), i32::from_lexical(b"0"));
    assert_eq!(Ok(2147483647), i32::from_lexical(b"2147483647"));
    assert_eq!(Err((ErrorCode::Overflow, 9).into()), i32::from_lexical(b"2147483648"));
    assert_eq!(Err((ErrorCode::Overflow, 9).into()), i32::from_lexical(b"4294967295"));
    assert_eq!(Ok(-1), i32::from_lexical(b"-1"));
    assert_eq!(Err((ErrorCode::InvalidDigit, 1).into()), i32::from_lexical(b"1a"));
}

#[test]
fn u64_decimal_test() {
    assert_eq!(Ok(0), u64::from_lexical(b"0"));
    assert_eq!(Ok(9223372036854775807), u64::from_lexical(b"9223372036854775807"));
    assert_eq!(Ok(9223372036854775808), u64::from_lexical(b"9223372036854775808"));
    assert_eq!(Ok(18446744073709551615), u64::from_lexical(b"18446744073709551615"));
    assert_eq!(Err((ErrorCode::InvalidDigit, 0).into()), u64::from_lexical(b"-1"));
    assert_eq!(Err((ErrorCode::InvalidDigit, 1).into()), u64::from_lexical(b"1a"));
}

#[test]
fn i64_decimal_test() {
    assert_eq!(Ok(0), i64::from_lexical(b"0"));
    assert_eq!(Ok(9223372036854775807), i64::from_lexical(b"9223372036854775807"));
    assert_eq!(
        Err((ErrorCode::Overflow, 18).into()),
        i64::from_lexical(b"9223372036854775808")
    );
    assert_eq!(
        Err((ErrorCode::Overflow, 19).into()),
        i64::from_lexical(b"18446744073709551615")
    );
    assert_eq!(Ok(-1), i64::from_lexical(b"-1"));
    assert_eq!(Err((ErrorCode::InvalidDigit, 1).into()), i64::from_lexical(b"1a"));

    assert_eq!(Err((ErrorCode::Overflow, 19).into()), i64::from_lexical(b"406260572150672006000066000000060060007667760000000000000000000+00000006766767766666767665670000000000000000000000666"));
}

#[test]
fn u128_decimal_test() {
    assert_eq!(Ok(0), u128::from_lexical(b"0"));
    assert_eq!(
        Ok(170141183460469231731687303715884105727),
        u128::from_lexical(b"170141183460469231731687303715884105727")
    );
    assert_eq!(
        Ok(170141183460469231731687303715884105728),
        u128::from_lexical(b"170141183460469231731687303715884105728")
    );
    assert_eq!(
        Ok(340282366920938463463374607431768211455),
        u128::from_lexical(b"340282366920938463463374607431768211455")
    );
    assert_eq!(Err((ErrorCode::InvalidDigit, 0).into()), u128::from_lexical(b"-1"));
    assert_eq!(Err((ErrorCode::InvalidDigit, 1).into()), u128::from_lexical(b"1a"));
}

#[test]
fn i128_decimal_test() {
    assert_eq!(Ok(0), i128::from_lexical(b"0"));
    assert_eq!(
        Ok(170141183460469231731687303715884105727),
        i128::from_lexical(b"170141183460469231731687303715884105727")
    );
    assert_eq!(
        Err((ErrorCode::Overflow, 39).into()),
        i128::from_lexical(b"170141183460469231731687303715884105728")
    );
    assert_eq!(
        Err((ErrorCode::Overflow, 39).into()),
        i128::from_lexical(b"340282366920938463463374607431768211455")
    );
    assert_eq!(Ok(-1), i128::from_lexical(b"-1"));
    assert_eq!(Err((ErrorCode::InvalidDigit, 1).into()), i128::from_lexical(b"1a"));
}

#[test]
fn i32_no_leading_zeros_test() {
    let format = NumberFormat::builder().no_integer_leading_zeros(true).build().unwrap();
    let options = ParseIntegerOptions::builder().format(format).build().unwrap();
    assert!(i32::from_lexical_with_options(b"1", &options).is_ok());
    assert!(i32::from_lexical_with_options(b"0", &options).is_ok());
    assert!(i32::from_lexical_with_options(b"01", &options).is_err());
    assert!(i32::from_lexical_with_options(b"10", &options).is_ok());
    assert!(i32::from_lexical_with_options(b"010", &options).is_err());
}

#[test]
fn i32_integer_internal_digit_separator_test() {
    let format = NumberFormat::permissive()
        .unwrap()
        .rebuild()
        .integer_internal_digit_separator(true)
        .digit_separator(b'_')
        .build()
        .unwrap();
    let options = ParseIntegerOptions::builder().format(format).build().unwrap();
    assert!(i32::from_lexical_with_options(b"3_1", &options).is_ok());
    assert!(i32::from_lexical_with_options(b"_31", &options).is_err());
    assert!(i32::from_lexical_with_options(b"31_", &options).is_err());
}

#[test]
fn i32_integer_leading_digit_separator_test() {
    let format = NumberFormat::permissive()
        .unwrap()
        .rebuild()
        .integer_leading_digit_separator(true)
        .digit_separator(b'_')
        .build()
        .unwrap();
    let options = ParseIntegerOptions::builder().format(format).build().unwrap();
    assert!(i32::from_lexical_with_options(b"3_1", &options).is_err());
    assert!(i32::from_lexical_with_options(b"_31", &options).is_ok());
    assert!(i32::from_lexical_with_options(b"31_", &options).is_err());
}

#[test]
fn i32_integer_trailing_digit_separator_test() {
    let format = NumberFormat::permissive()
        .unwrap()
        .rebuild()
        .integer_trailing_digit_separator(true)
        .digit_separator(b'_')
        .build()
        .unwrap();
    let options = ParseIntegerOptions::builder().format(format).build().unwrap();
    assert!(i32::from_lexical_with_options(b"3_1", &options).is_err());
    assert!(i32::from_lexical_with_options(b"_31", &options).is_err());
    assert!(i32::from_lexical_with_options(b"31_", &options).is_ok());
}

#[test]
fn i32_integer_consecutive_digit_separator_test() {
    let format = NumberFormat::permissive()
        .unwrap()
        .rebuild()
        .integer_internal_digit_separator(true)
        .integer_consecutive_digit_separator(true)
        .digit_separator(b'_')
        .build()
        .unwrap();
    let options = ParseIntegerOptions::builder().format(format).build().unwrap();
    assert!(i32::from_lexical_with_options(b"3_1", &options).is_ok());
    assert!(i32::from_lexical_with_options(b"3__1", &options).is_ok());
    assert!(i32::from_lexical_with_options(b"_31", &options).is_err());
    assert!(i32::from_lexical_with_options(b"31_", &options).is_err());
}

#[test]
fn i32_json_no_leading_zero() {
    let format = NumberFormat::json();
    let options = ParseIntegerOptions::builder().format(format).build().unwrap();
    assert!(i32::from_lexical_with_options(b"12", &options).is_ok());
    assert!(i32::from_lexical_with_options(b"-12", &options).is_ok());
    assert!(i32::from_lexical_with_options(b"012", &options).is_err());
    assert!(i32::from_lexical_with_options(b"-012", &options).is_err());
}

#[test]
fn i32_binary_test() {
    let options = ParseIntegerOptions::binary();
    assert_eq!(i32::from_lexical_with_options(b"11", &options), Ok(3));
    assert_eq!(i32::from_lexical_with_options(b"-11", &options), Ok(-3));
}

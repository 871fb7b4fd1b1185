//! The bits of a format: which bytes can serve as punctuation, and how the
//! punctuation is packed into the format word.

use lexical::{Builder, NumberFormatBuilder};
use lexical::flags::{
    decimal_point_from_flags, decimal_point_to_flags, digit_separator_from_flags,
    digit_separator_to_flags, exponent_backup_from_flags, exponent_backup_to_flags,
    exponent_decimal_from_flags, exponent_decimal_to_flags, is_valid_decimal_point,
    is_valid_digit_separator, is_valid_exponent_backup, is_valid_exponent_decimal,
    is_valid_punctuation, to_ascii_lowercase,
};

#[test]
fn test_is_valid_digit_separator() {
    assert_eq!(is_valid_digit_separator(b'_'), true);
    assert_eq!(is_valid_digit_separator(b'\''), true);
    assert_eq!(is_valid_digit_separator(b'.'), true);
        assert_eq!(is_valid_digit_separator(b'e'), false);
    assert_eq!(is_valid_digit_separator(b'0'), false);
    assert_eq!(is_valid_digit_separator(128), false);
}

#[test]
fn test_is_valid_decimal_point() {
    assert_eq!(is_valid_decimal_point(b'_'), true);
    assert_eq!(is_valid_decimal_point(b'\''), true);
    assert_eq!(is_valid_decimal_point(b'.'), true);
        assert_eq!(is_valid_decimal_point(b'e'), false);
    assert_eq!(is_valid_decimal_point(b'0'), false);
    assert_eq!(is_valid_decimal_point(128), false);
}

#[test]
fn test_is_valid_exponent_decimal() {
    assert_eq!(is_valid_exponent_decimal(b'_'), true);
    assert_eq!(is_valid_exponent_decimal(b'\''), true);
    assert_eq!(is_valid_exponent_decimal(b'.'), true);
    assert_eq!(is_valid_exponent_decimal(b'^'), true);
    assert_eq!(is_valid_exponent_decimal(b'e'), true);
    assert_eq!(is_valid_exponent_decimal(b'0'), false);
    assert_eq!(is_valid_exponent_decimal(128), false);
}

#[test]
fn test_is_valid_exponent_backup() {
    assert_eq!(is_valid_exponent_backup(b'_'), true);
    assert_eq!(is_valid_exponent_backup(b'\''), true);
    assert_eq!(is_valid_exponent_backup(b'.'), true);
    assert_eq!(is_valid_exponent_backup(b'^'), true);
    assert_eq!(is_valid_exponent_backup(b'0'), false);
    assert_eq!(is_valid_exponent_backup(128), false);
    assert_eq!(is_valid_exponent_backup(b'e'), false);
}

#[test]
fn test_is_valid_punctuation() {
    assert_eq!(is_valid_punctuation(b'_', b'.', b'e', b'^'), true);
    assert_eq!(is_valid_punctuation(b'_', b'.', b'^', b'^'), true);
    assert_eq!(is_valid_punctuation(b'_', b'e', b'^', b'^'), true);
    assert_eq!(is_valid_punctuation(b'e', b'.', b'^', b'^'), true);
    assert_eq!(is_valid_punctuation(b'e', b'.', b'e', b'^'), false);
    assert_eq!(is_valid_punctuation(b'^', b'.', b'e', b'^'), false);
    assert_eq!(is_valid_punctuation(b'\'', b'^', b'e', b'^'), false);
    assert_eq!(is_valid_punctuation(b'\'', b'e', b'e', b'^'), false);
}

#[test]
fn test_exponent_decimal_to_flags() {
    assert_eq!(exponent_decimal_to_flags(b'e'), 0x1940000);
    assert_eq!(exponent_decimal_to_flags(b'^'), 0x1780000);
    assert_eq!(exponent_decimal_to_flags(b'.'), 0xB80000);
    assert_eq!(exponent_decimal_to_flags(b'\x00'), 0x0);
}

#[test]
fn test_exponent_decimal_from_flags() {
    assert_eq!(exponent_decimal_from_flags(0x1940000), b'e');
    assert_eq!(exponent_decimal_from_flags(0x1780000), b'^');
    assert_eq!(exponent_decimal_from_flags(0xB80000), b'.');
    assert_eq!(exponent_decimal_from_flags(0x0), b'\x00');

    // Test hybrid, to test mask
    let flags = 0x1940000 | 0xBC000000 | 0xB8000000000000 | 0xBE00000000000000;
    assert_eq!(exponent_decimal_from_flags(flags), b'e');
}

#[test]
fn test_exponent_backup_to_flags() {
    assert_eq!(exponent_backup_to_flags(b'e'), 0xCA000000);
    assert_eq!(exponent_backup_to_flags(b'^'), 0xBC000000);
    assert_eq!(exponent_backup_to_flags(b'.'), 0x5C000000);
    assert_eq!(exponent_backup_to_flags(b'\x00'), 0x0);
}

#[test]
fn test_exponent_backup_from_flags() {
    assert_eq!(exponent_backup_from_flags(0xCA000000), b'e');
    assert_eq!(exponent_backup_from_flags(0xBC000000), b'^');
    assert_eq!(exponent_backup_from_flags(0x5C000000), b'.');
    assert_eq!(exponent_backup_from_flags(0x0), b'\x00');

    // Test hybrid, to test mask
    let flags = 0x1940000 | 0xBC000000 | 0xB8000000000000 | 0xBE00000000000000;
    assert_eq!(exponent_backup_from_flags(flags), b'^');
}

#[test]
fn test_decimal_point_to_flags() {
    assert_eq!(decimal_point_to_flags(b'e'), 0x194000000000000);
    assert_eq!(decimal_point_to_flags(b'^'), 0x178000000000000);
    assert_eq!(decimal_point_to_flags(b'.'), 0xB8000000000000);
    assert_eq!(decimal_point_to_flags(b'\x00'), 0x0);
}

#[test]
fn test_decimal_point_from_flags() {
    assert_eq!(decimal_point_from_flags(0x194000000000000), b'e');
    assert_eq!(decimal_point_from_flags(0x178000000000000), b'^');
    assert_eq!(decimal_point_from_flags(0xB8000000000000), b'.');
    assert_eq!(decimal_point_from_flags(0x0), b'\x00');

    // Test hybrid, to test mask
    let flags = 0x1940000 | 0xBC000000 | 0xB8000000000000 | 0xBE00000000000000;
    assert_eq!(decimal_point_from_flags(flags), b'.');
}

#[test]
fn test_digit_separator_to_flags() {
    assert_eq!(digit_separator_to_flags(b'e'), 0xCA00000000000000);
    assert_eq!(digit_separator_to_flags(b'^'), 0xBC00000000000000);
    assert_eq!(digit_separator_to_flags(b'.'), 0x5C00000000000000);
    assert_eq!(digit_separator_to_flags(b'\x00'), 0x0);
}

#[test]
fn test_digit_separator_from_flags() {
    assert_eq!(digit_separator_from_flags(0xCA00000000000000), b'e');
    assert_eq!(digit_separator_from_flags(0xBC00000000000000), b'^');
    assert_eq!(digit_separator_from_flags(0x5C00000000000000), b'.');
    assert_eq!(digit_separator_from_flags(0x0), b'\x00');

    // Test hybrid, to test mask
    let flags = 0x1940000 | 0xBC000000 | 0xB8000000000000 | 0xBE00000000000000;
    assert_eq!(digit_separator_from_flags(flags), b'_');
}

#[test]
fn test_to_ascii_lowercase() {
    assert_eq!(to_ascii_lowercase(b'E'), b'e');
    assert_eq!(to_ascii_lowercase(b'e'), b'e');
    assert_eq!(to_ascii_lowercase(b'Z'), b'z');
    assert_eq!(to_ascii_lowercase(b'+'), b'+');
    assert_eq!(to_ascii_lowercase(b'\t'), b'\t');
}

#[test]
fn build_keeps_parts_test() {
    let format = NumberFormatBuilder::new()
        .digit_separator(b'_')
        .decimal_point(b',')
        .exponent_decimal(b'p')
        .exponent_backup(b'^')
        .required_fraction_digits(true)
        .no_special(true)
        .no_float_leading_zeros(true)
        .fraction_internal_digit_separator(true)
        .exponent_trailing_digit_separator(true)
        .special_digit_separator(true)
        .build()
        .unwrap();
    assert_eq!(format.digit_separator(), b'_');
    assert_eq!(format.decimal_point(), b',');
    assert_eq!(format.exponent_decimal(), b'p');
    assert_eq!(format.exponent_backup(), b'^');
    assert!(format.required_fraction_digits());
    assert!(format.no_special());
    assert!(format.no_float_leading_zeros());
    assert!(format.fraction_internal_digit_separator());
    assert!(format.exponent_trailing_digit_separator());
    assert!(format.special_digit_separator());
    assert!(!format.required_integer_digits());
    assert!(!format.required_exponent_digits());
    assert!(!format.no_exponent_notation());
    assert!(!format.case_sensitive_special());
    assert!(!format.integer_internal_digit_separator());
    assert!(!format.fraction_trailing_digit_separator());
    assert!(!format.exponent_consecutive_digit_separator());
    // Building again from the format gives the same word.
    assert_eq!(format.rebuild().build().unwrap().bits(), format.bits());
    // An exponent character that is a digit, and punctuation that cannot be
    // told apart, make no format.
    assert!(NumberFormatBuilder::new().exponent_decimal(b'1').build().is_none());
    assert!(NumberFormatBuilder::new()
        .digit_separator(b'.')
        .integer_internal_digit_separator(true)
        .build()
        .is_none());
}

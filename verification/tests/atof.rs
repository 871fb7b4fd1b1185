//! Parsing floats: decimal values, other radices, special values, and what
//! each flag of the format requires or forbids.

use lexical::atof::extract;
use lexical::exponent::{mantissa_exponent, scientific_exponent};
use lexical::flags;
use lexical::scan::{ltrim_zero, rtrim_zero};
use lexical::{
    parse_partial_format, Buildable, Builder, Error, ErrorCode, Float32, Float64, FromLexical,
    NumberFormat, ParseFloatOptions,
};

fn f32_from_lexical(bytes: &[u8]) -> Result<f32, Error> {
    Float32::from_lexical(bytes).map(|value| f32::from_bits(value.to_bits()))
}

fn f64_from_lexical(bytes: &[u8]) -> Result<f64, Error> {
    Float64::from_lexical(bytes).map(|value| f64::from_bits(value.to_bits()))
}

fn f32_with_options(bytes: &[u8], options: &ParseFloatOptions) -> Result<f32, Error> {
    Float32::from_lexical_with_options(bytes, options).map(|value| f32::from_bits(value.to_bits()))
}

fn f64_with_options(bytes: &[u8], options: &ParseFloatOptions) -> Result<f64, Error> {
    Float64::from_lexical_with_options(bytes, options).map(|value| f64::from_bits(value.to_bits()))
}

#[test]
fn f32_decimal_test() {
    // integer test
    assert_eq!(0.0, f32_from_lexical(b"0").unwrap());
    assert_eq!(1.0, f32_from_lexical(b"1").unwrap());
    assert_eq!(12.0, f32_from_lexical(b"12").unwrap());
    assert_eq!(123.0, f32_from_lexical(b"123").unwrap());
    assert_eq!(1234.0, f32_from_lexical(b"1234").unwrap());
    assert_eq!(12345.0, f32_from_lexical(b"12345").unwrap());
    assert_eq!(123456.0, f32_from_lexical(b"123456").unwrap());
    assert_eq!(1234567.0, f32_from_lexical(b"1234567").unwrap());
    assert_eq!(12345678.0, f32_from_lexical(b"12345678").unwrap());

     // No fraction after decimal point test
    assert_eq!(1.0, f32_from_lexical(b"1.").unwrap());
    assert_eq!(12.0, f32_from_lexical(b"12.").unwrap());
    assert_eq!(1234567.0, f32_from_lexical(b"1234567.").unwrap());

    // No integer before decimal point test
    assert_eq!(0.1, f32_from_lexical(b".1").unwrap());
    assert_eq!(0.12, f32_from_lexical(b".12").unwrap());
    assert_eq!(0.1234567, f32_from_lexical(b".1234567").unwrap());

    // decimal test
    assert_eq!(123.1, f32_from_lexical(b"123.1").unwrap());
    assert_eq!(123.12, f32_from_lexical(b"123.12").unwrap());
    assert_eq!(123.123, f32_from_lexical(b"123.123").unwrap());
    assert_eq!(123.1234, f32_from_lexical(b"123.1234").unwrap());
    assert_eq!(123.12345, f32_from_lexical(b"123.12345").unwrap());

    // rounding test
    assert_eq!(123456790.0, f32_from_lexical(b"123456789").unwrap());
    assert_eq!(123456790.0, f32_from_lexical(b"123456789.1").unwrap());
    assert_eq!(123456790.0, f32_from_lexical(b"123456789.12").unwrap());
    assert_eq!(123456790.0, f32_from_lexical(b"123456789.123").unwrap());
    assert_eq!(123456790.0, f32_from_lexical(b"123456789.1234").unwrap());
    assert_eq!(123456790.0, f32_from_lexical(b"123456789.12345").unwrap());

    // exponent test
    assert_eq!(123456789.12345, f32_from_lexical(b"1.2345678912345e8").unwrap());
    assert_eq!(123450000.0, f32_from_lexical(b"1.2345e+8").unwrap());
    assert_eq!(1.2345e+11, f32_from_lexical(b"1.2345e+11").unwrap());
    assert_eq!(1.2345e+11, f32_from_lexical(b"123450000000").unwrap());
    assert_eq!(1.2345e+38, f32_from_lexical(b"1.2345e+38").unwrap());
    assert_eq!(1.2345e+38, f32_from_lexical(b"123450000000000000000000000000000000000").unwrap());
    assert_eq!(1.2345e-8, f32_from_lexical(b"1.2345e-8").unwrap());
    assert_eq!(1.2345e-8, f32_from_lexical(b"0.000000012345").unwrap());
    assert_eq!(1.2345e-38, f32_from_lexical(b"1.2345e-38").unwrap());
    assert_eq!(1.2345e-38, f32_from_lexical(b"0.000000000000000000000000000000000000012345").unwrap());

    assert!(f32_from_lexical(b"NaN").unwrap().is_nan());
    assert!(f32_from_lexical(b"nan").unwrap().is_nan());
    assert!(f32_from_lexical(b"NAN").unwrap().is_nan());
    assert!(f32_from_lexical(b"inf").unwrap().is_infinite());
    assert!(f32_from_lexical(b"INF").unwrap().is_infinite());
    assert!(f32_from_lexical(b"+inf").unwrap().is_infinite());
    assert!(f32_from_lexical(b"-inf").unwrap().is_infinite());

    // Check various expected failures.
    assert_eq!(Err(ErrorCode::Empty.into()), f32_from_lexical(b""));
    assert_eq!(Err((ErrorCode::EmptyMantissa, 0).into()), f32_from_lexical(b"e"));
    assert_eq!(Err((ErrorCode::EmptyMantissa, 0).into()), f32_from_lexical(b"E"));
    assert_eq!(Err(ErrorCode::EmptyMantissa.into()), f32_from_lexical(b".e1"));
    assert_eq!(Err(ErrorCode::EmptyMantissa.into()), f32_from_lexical(b".e-1"));
    assert_eq!(Err((ErrorCode::EmptyMantissa, 0).into()), f32_from_lexical(b"e1"));
    assert_eq!(Err((ErrorCode::EmptyMantissa, 0).into()), f32_from_lexical(b"e-1"));
    assert_eq!(Err((ErrorCode::Empty, 1).into()), f32_from_lexical(b"+"));
    assert_eq!(Err((ErrorCode::Empty, 1).into()), f32_from_lexical(b"-"));

    assert_eq!(Ok(5.002868148396374), f32_from_lexical(b"5.002868148396374"));
}

#[test]
fn f32_radix_test() {
    let options = ParseFloatOptions::builder()
        .exponent_char(b'^')
        .radix(36)
        .build()
        .unwrap();
    assert_eq!(1234.0, f32_with_options(b"YA", &options).unwrap());

    let options = ParseFloatOptions::builder()
        .lossy(true)
        .exponent_char(b'^')
        .radix(36)
        .build()
        .unwrap();
    assert_eq!(1234.0, f32_with_options(b"YA", &options).unwrap());
}

#[test]
fn f64_decimal_test() {
    // integer test
    assert_eq!(0.0, f64_from_lexical(b"0").unwrap());
    assert_eq!(1.0, f64_from_lexical(b"1").unwrap());
    assert_eq!(12.0, f64_from_lexical(b"12").unwrap());
    assert_eq!(123.0, f64_from_lexical(b"123").unwrap());
    assert_eq!(1234.0, f64_from_lexical(b"1234").unwrap());
    assert_eq!(12345.0, f64_from_lexical(b"12345").unwrap());
    assert_eq!(123456.0, f64_from_lexical(b"123456").unwrap());
    assert_eq!(1234567.0, f64_from_lexical(b"1234567").unwrap());
    assert_eq!(12345678.0, f64_from_lexical(b"12345678").unwrap());

    // No fraction after decimal point test
    assert_eq!(1.0, f64_from_lexical(b"1.").unwrap());
    assert_eq!(12.0, f64_from_lexical(b"12.").unwrap());
    assert_eq!(1234567.0, f64_from_lexical(b"1234567.").unwrap());

    // No integer before decimal point test
    assert_eq!(0.1, f64_from_lexical(b".1").unwrap());
    assert_eq!(0.12, f64_from_lexical(b".12").unwrap());
    assert_eq!(0.1234567, f64_from_lexical(b".1234567").unwrap());

    // decimal test
    assert_eq!(123456789.0, f64_from_lexical(b"123456789").unwrap());
    assert_eq!(123456789.1, f64_from_lexical(b"123456789.1").unwrap());
    assert_eq!(123456789.12, f64_from_lexical(b"123456789.12").unwrap());
    assert_eq!(123456789.123, f64_from_lexical(b"123456789.123").unwrap());
    assert_eq!(123456789.1234, f64_from_lexical(b"123456789.1234").unwrap());
    assert_eq!(123456789.12345, f64_from_lexical(b"123456789.12345").unwrap());
    assert_eq!(123456789.123456, f64_from_lexical(b"123456789.123456").unwrap());
    assert_eq!(123456789.1234567, f64_from_lexical(b"123456789.1234567").unwrap());
    assert_eq!(123456789.12345678, f64_from_lexical(b"123456789.12345678").unwrap());

    // rounding test
    assert_eq!(123456789.12345679, f64_from_lexical(b"123456789.123456789").unwrap());
    assert_eq!(123456789.12345679, f64_from_lexical(b"123456789.1234567890").unwrap());
    assert_eq!(123456789.12345679, f64_from_lexical(b"123456789.123456789012").unwrap());
    assert_eq!(123456789.12345679, f64_from_lexical(b"123456789.1234567890123").unwrap());
    assert_eq!(123456789.12345679, f64_from_lexical(b"123456789.12345678901234").unwrap());

    // exponent test
    assert_eq!(123456789.12345, f64_from_lexical(b"1.2345678912345e8").unwrap());
    assert_eq!(123450000.0, f64_from_lexical(b"1.2345e+8").unwrap());
    assert_eq!(1.2345e+11, f64_from_lexical(b"123450000000").unwrap());
    assert_eq!(1.2345e+11, f64_from_lexical(b"1.2345e+11").unwrap());
    assert_eq!(1.2345e+38, f64_from_lexical(b"1.2345e+38").unwrap());
    assert_eq!(1.2345e+38, f64_from_lexical(b"123450000000000000000000000000000000000").unwrap());
    assert_eq!(1.2345e+308, f64_from_lexical(b"1.2345e+308").unwrap());
    assert_eq!(1.2345e+308, f64_from_lexical(b"123450000000000000000000000000000000000000000000000000000000000000000000000000000000000000000000000000000000000000000000000000000000000000000000000000000000000000000000000000000000000000000000000000000000000000000000000000000000000000000000000000000000000000000000000000000000000000000000000000000000000000000").unwrap());
    assert_eq!(0.000000012345, f64_from_lexical(b"1.2345e-8").unwrap());
    assert_eq!(1.2345e-8, f64_from_lexical(b"0.000000012345").unwrap());
    assert_eq!(1.2345e-38, f64_from_lexical(b"1.2345e-38").unwrap());
    assert_eq!(1.2345e-38, f64_from_lexical(b"0.000000000000000000000000000000000000012345").unwrap());

    // denormalized (try extremely low values)
    assert_eq!(1.2345e-308, f64_from_lexical(b"1.2345e-308").unwrap());
    assert_eq!(Ok(5e-322), f64_from_lexical(b"5e-322"));
    assert_eq!(Ok(5e-323), f64_from_lexical(b"5e-323"));
    assert_eq!(Ok(5e-324), f64_from_lexical(b"5e-324"));
    assert_eq!(1.2345e-299, f64_from_lexical(b"0.000000000000000000000000000000000000000000000000000000000000000000000000000000000000000000000000000000000000000000000000000000000000000000000000000000000000000000000000000000000000000000000000000000000000000000000000000000000000000000000000000000000000000000000000000000000000000000000000000000000012345").unwrap());

    // Keep pushing from -300 to -324
    assert_eq!(1.2345e-300, f64_from_lexical(b"0.0000000000000000000000000000000000000000000000000000000000000000000000000000000000000000000000000000000000000000000000000000000000000000000000000000000000000000000000000000000000000000000000000000000000000000000000000000000000000000000000000000000000000000000000000000000000000000000000000000000000012345").unwrap());

    assert_eq!(1.2345e-310, f64_from_lexical(b"0.00000000000000000000000000000000000000000000000000000000000000000000000000000000000000000000000000000000000000000000000000000000000000000000000000000000000000000000000000000000000000000000000000000000000000000000000000000000000000000000000000000000000000000000000000000000000000000000000000000000000000000000012345").unwrap());
    assert_eq!(1.2345e-320, f64_from_lexical(b"0.000000000000000000000000000000000000000000000000000000000000000000000000000000000000000000000000000000000000000000000000000000000000000000000000000000000000000000000000000000000000000000000000000000000000000000000000000000000000000000000000000000000000000000000000000000000000000000000000000000000000000000000000000000012345").unwrap());
    assert_eq!(1.2345e-321, f64_from_lexical(b"0.0000000000000000000000000000000000000000000000000000000000000000000000000000000000000000000000000000000000000000000000000000000000000000000000000000000000000000000000000000000000000000000000000000000000000000000000000000000000000000000000000000000000000000000000000000000000000000000000000000000000000000000000000000000012345").unwrap());
    assert_eq!(1.24e-322, f64_from_lexical(b"0.000000000000000000000000000000000000000000000000000000000000000000000000000000000000000000000000000000000000000000000000000000000000000000000000000000000000000000000000000000000000000000000000000000000000000000000000000000000000000000000000000000000000000000000000000000000000000000000000000000000000000000000000000000000124").unwrap());
    assert_eq!(Ok(1e-323), f64_from_lexical(b"0.00000000000000000000000000000000000000000000000000000000000000000000000000000000000000000000000000000000000000000000000000000000000000000000000000000000000000000000000000000000000000000000000000000000000000000000000000000000000000000000000000000000000000000000000000000000000000000000000000000000000000000000000000000000001"));
    assert_eq!(Ok(5e-324), f64_from_lexical(b"0.000000000000000000000000000000000000000000000000000000000000000000000000000000000000000000000000000000000000000000000000000000000000000000000000000000000000000000000000000000000000000000000000000000000000000000000000000000000000000000000000000000000000000000000000000000000000000000000000000000000000000000000000000000000005"));

    assert!(f64_from_lexical(b"NaN").unwrap().is_nan());
    assert!(f64_from_lexical(b"nan").unwrap().is_nan());
    assert!(f64_from_lexical(b"NAN").unwrap().is_nan());
    assert!(f64_from_lexical(b"inf").unwrap().is_infinite());
    assert!(f64_from_lexical(b"INF").unwrap().is_infinite());
    assert!(f64_from_lexical(b"+inf").unwrap().is_infinite());
    assert!(f64_from_lexical(b"-inf").unwrap().is_infinite());

    // Check various expected failures.
    assert_eq!(Err(ErrorCode::Empty.into()), f64_from_lexical(b""));
    assert_eq!(Err((ErrorCode::EmptyMantissa, 0).into()), f64_from_lexical(b"e"));
    assert_eq!(Err((ErrorCode::EmptyMantissa, 0).into()), f64_from_lexical(b"E"));
    assert_eq!(Err(ErrorCode::EmptyMantissa.into()), f64_from_lexical(b".e1"));
    assert_eq!(Err(ErrorCode::EmptyMantissa.into()), f64_from_lexical(b".e-1"));
    assert_eq!(Err((ErrorCode::EmptyMantissa, 0).into()), f64_from_lexical(b"e1"));
    assert_eq!(Err((ErrorCode::EmptyMantissa, 0).into()), f64_from_lexical(b"e-1"));

    assert_eq!(Err((ErrorCode::EmptyExponent, 2).into()), f64_from_lexical(b"0e"));
    assert_eq!(Err((ErrorCode::EmptyExponent, 4).into()), f64_from_lexical(b"0.0e"));
    assert_eq!(Err((ErrorCode::EmptyMantissa, 0).into()), f64_from_lexical(b".E"));
    assert_eq!(Err((ErrorCode::EmptyMantissa, 0).into()), f64_from_lexical(b".e"));
    assert_eq!(Err((ErrorCode::EmptyMantissa, 0).into()), f64_from_lexical(b"E2252525225"));
    assert_eq!(Err((ErrorCode::EmptyMantissa, 0).into()), f64_from_lexical(b"e2252525225"));
    assert_eq!(Ok(f64::INFINITY), f64_from_lexical(b"2E200000000000"));

    assert_eq!(Err((ErrorCode::EmptyExponent, 2).into()), f64_from_lexical(b"0e"));
    assert_eq!(Err((ErrorCode::EmptyMantissa, 0).into()), f64_from_lexical(b"."));
    assert_eq!(Err((ErrorCode::EmptyMantissa, 1).into()), f64_from_lexical(b"+."));
    assert_eq!(Err((ErrorCode::EmptyMantissa, 1).into()), f64_from_lexical(b"-."));
    assert_eq!(Err((ErrorCode::Empty, 1).into()), f64_from_lexical(b"+"));
    assert_eq!(Err((ErrorCode::Empty, 1).into()), f64_from_lexical(b"-"));

    assert_eq!(Ok(5.002868148396374), f64_from_lexical(b"5.002868148396374"));
}

#[test]
fn f64_radix_test() {
    let options = ParseFloatOptions::builder()
        .exponent_char(b'^')
        .radix(36)
        .build()
        .unwrap();
    assert_eq!(1234.0, f64_with_options(b"YA", &options).unwrap());

    let options = ParseFloatOptions::builder()
        .lossy(true)
        .exponent_char(b'^')
        .radix(36)
        .build()
        .unwrap();
    assert_eq!(1234.0, f64_with_options(b"YA", &options).unwrap());
}

#[test]
fn f32_lossy_decimal_test() {
    let options = ParseFloatOptions::builder()
        .lossy(true)
        .build()
        .unwrap();
    assert_eq!(Err(ErrorCode::EmptyMantissa.into()), f32_with_options(b".", &options));
    assert_eq!(Err(ErrorCode::Empty.into()), f32_with_options(b"", &options));
    assert_eq!(Ok(0.0), f32_with_options(b"0.0", &options));
    assert_eq!(Err((ErrorCode::InvalidDigit, 1).into()), f32_with_options(b"1a", &options));

    assert_eq!(Ok(5.002868148396374), f32_with_options(b"5.002868148396374", &options));
}

#[test]
fn f64_lossy_decimal_test() {
    let options = ParseFloatOptions::builder()
        .lossy(true)
        .build()
        .unwrap();
    assert_eq!(Err(ErrorCode::EmptyMantissa.into()), f64_with_options(b".", &options));
    assert_eq!(Err(ErrorCode::Empty.into()), f64_with_options(b"", &options));
    assert_eq!(Ok(0.0), f64_with_options(b"0.0", &options));
    assert_eq!(Err((ErrorCode::InvalidDigit, 1).into()), f64_with_options(b"1a", &options));

    assert_eq!(Ok(5.002868148396374), f64_with_options(b"5.002868148396374", &options));
}

#[test]
fn f64_special_test() {
    //  Comments match (no_special, case_sensitive, has_sep)
    let f1 = NumberFormat::standard().unwrap();         // false, false, false
    let f2 = NumberFormat::ignore(b'_').unwrap();       // false, false, true
    let f3 = f1 | NumberFormat::from_bits(flags::NO_SPECIAL);             // true, _, _
    let f4 = f1 | NumberFormat::from_bits(flags::CASE_SENSITIVE_SPECIAL); // false, true, false
    let f5 = f2 | NumberFormat::from_bits(flags::CASE_SENSITIVE_SPECIAL); // false, true, true

    // Create options from format.
    let o1 = ParseFloatOptions::builder().format(f1).build().unwrap();
    let o2 = ParseFloatOptions::builder().format(f2).build().unwrap();
    let o3 = ParseFloatOptions::builder().format(f3).build().unwrap();
    let o4 = ParseFloatOptions::builder().format(f4).build().unwrap();
    let o5 = ParseFloatOptions::builder().format(f5).build().unwrap();

    // Easy NaN
    assert!(f64_with_options(b"NaN", &o1).unwrap().is_nan());
    assert!(f64_with_options(b"NaN", &o2).unwrap().is_nan());
    assert!(f64_with_options(b"NaN", &o3).is_err());
    assert!(f64_with_options(b"NaN", &o4).unwrap().is_nan());
    assert!(f64_with_options(b"NaN", &o5).unwrap().is_nan());

    // Case-sensitive NaN.
    assert!(f64_with_options(b"nan", &o1).unwrap().is_nan());
    assert!(f64_with_options(b"nan", &o2).unwrap().is_nan());
    assert!(f64_with_options(b"nan", &o3).is_err());
    assert!(f64_with_options(b"nan", &o4).is_err());
    assert!(f64_with_options(b"nan", &o5).is_err());

    // Digit-separator NaN.
    assert!(f64_with_options(b"N_aN", &o1).is_err());
    assert!(f64_with_options(b"N_aN", &o2).unwrap().is_nan());
    assert!(f64_with_options(b"N_aN", &o3).is_err());
    assert!(f64_with_options(b"N_aN", &o4).is_err());
    assert!(f64_with_options(b"N_aN", &o5).unwrap().is_nan());

    // Digit-separator + case-sensitive NaN.
    assert!(f64_with_options(b"n_an", &o1).is_err());
    assert!(f64_with_options(b"n_an", &o2).unwrap().is_nan());
    assert!(f64_with_options(b"n_an", &o3).is_err());
    assert!(f64_with_options(b"n_an", &o4).is_err());
    assert!(f64_with_options(b"n_an", &o5).is_err());
}

#[test]
fn f64_required_integer_digits_test() {
    let format = NumberFormat::from_bits(flags::REQUIRED_INTEGER_DIGITS);
    let options = ParseFloatOptions::builder()
        .format(format)
        .build()
        .unwrap();
    assert!(f64_with_options(b"+3.0", &options).is_ok());
    assert!(f64_with_options(b"3.0", &options).is_ok());
    assert!(f64_with_options(b".0", &options).is_err());
}

#[test]
fn f64_required_fraction_digits_test() {
    let format = NumberFormat::from_bits(flags::REQUIRED_FRACTION_DIGITS);
    let options = ParseFloatOptions::builder()
        .format(format)
        .build()
        .unwrap();
    assert!(f64_with_options(b"+3.0", &options).is_ok());
    assert!(f64_with_options(b"3.0", &options).is_ok());
    assert!(f64_with_options(b"3.", &options).is_err());
    assert!(f64_with_options(b"3", &options).is_ok());
}

#[test]
fn f64_required_digits_test() {
    let format = NumberFormat::from_bits(flags::REQUIRED_DIGITS);
    let options = ParseFloatOptions::builder()
        .format(format)
        .build()
        .unwrap();
    assert!(f64_with_options(b"+3.0", &options).is_ok());
    assert!(f64_with_options(b"3.0", &options).is_ok());
    assert!(f64_with_options(b"3.", &options).is_err());
    assert!(f64_with_options(b"3", &options).is_ok());
    assert!(f64_with_options(b".0", &options).is_err());
}

#[test]
fn f64_no_positive_mantissa_sign_test() {
    let format = NumberFormat::from_bits(flags::NO_POSITIVE_MANTISSA_SIGN);
    let options = ParseFloatOptions::builder()
        .format(format)
        .build()
        .unwrap();
    assert!(f64_with_options(b"+3.0", &options).is_err());
    assert!(f64_with_options(b"-3.0", &options).is_ok());
    assert!(f64_with_options(b"3.0", &options).is_ok());
}

#[test]
fn f64_required_mantissa_sign_test() {
    let format = NumberFormat::from_bits(flags::REQUIRED_MANTISSA_SIGN);
    let options = ParseFloatOptions::builder()
        .format(format)
        .build()
        .unwrap();
    assert!(f64_with_options(b"+3.0", &options).is_ok());
    assert!(f64_with_options(b"-3.0", &options).is_ok());
    assert!(f64_with_options(b"3.0", &options).is_err());
}

#[test]
fn f64_no_exponent_notation_test() {
    let format = NumberFormat::from_bits(flags::NO_EXPONENT_NOTATION);
    let options = ParseFloatOptions::builder()
        .format(format)
        .build()
        .unwrap();
    assert!(f64_with_options(b"+3.0e7", &options).is_err());
    assert!(f64_with_options(b"+3.0e-7", &options).is_err());
    assert!(f64_with_options(b"+3e", &options).is_err());
    assert!(f64_with_options(b"+3e-", &options).is_err());
    assert!(f64_with_options(b"+3.0", &options).is_ok());
    assert!(f64_with_options(b"+3", &options).is_ok());
}

#[test]
fn f64_optional_exponent_test() {
    let format = NumberFormat::permissive().unwrap();
    let options = ParseFloatOptions::builder()
        .format(format)
        .build()
        .unwrap();
    assert!(f64_with_options(b"+3.0e7", &options).is_ok());
    assert!(f64_with_options(b"+3.0e-7", &options).is_ok());
    assert!(f64_with_options(b"+3.0e", &options).is_ok());
    assert!(f64_with_options(b"+3.0e-", &options).is_ok());
    assert!(f64_with_options(b"+3.0", &options).is_ok());
}

#[test]
fn f64_required_exponent_test() {
    let format = NumberFormat::from_bits(flags::REQUIRED_EXPONENT_DIGITS);
    let options = ParseFloatOptions::builder()
        .format(format)
        .build()
        .unwrap();
    assert!(f64_with_options(b"+3.0e7", &options).is_ok());
    assert!(f64_with_options(b"+3.0e-7", &options).is_ok());
    assert!(f64_with_options(b"+3.0e", &options).is_err());
    assert!(f64_with_options(b"+3.0e-", &options).is_err());
    assert!(f64_with_options(b"+3.0", &options).is_ok());
}

#[test]
fn f64_no_positive_exponent_sign_test() {
    let format = NumberFormat::from_bits(flags::NO_POSITIVE_EXPONENT_SIGN);
    let options = ParseFloatOptions::builder()
        .format(format)
        .build()
        .unwrap();
    assert!(f64_with_options(b"3.0e7", &options).is_ok());
    assert!(f64_with_options(b"3.0e+7", &options).is_err());
    assert!(f64_with_options(b"3.0e-7", &options).is_ok());
}

#[test]
fn f64_required_exponent_sign_test() {
    let format = NumberFormat::from_bits(flags::REQUIRED_EXPONENT_SIGN);
    let options = ParseFloatOptions::builder()
        .format(format)
        .build()
        .unwrap();
    assert!(f64_with_options(b"3.0e7", &options).is_err());
    assert!(f64_with_options(b"3.0e+7", &options).is_ok());
    assert!(f64_with_options(b"3.0e-7", &options).is_ok());
}

#[test]
fn f64_no_exponent_without_fraction_test() {
    let format = NumberFormat::from_bits(flags::NO_EXPONENT_WITHOUT_FRACTION);
    let options = ParseFloatOptions::builder()
        .format(format)
        .build()
        .unwrap();
    assert!(f64_with_options(b"3.0e7", &options).is_ok());
    assert!(f64_with_options(b"3.e7", &options).is_ok());
    assert!(f64_with_options(b"3e7", &options).is_err());

    let format = format | NumberFormat::from_bits(flags::REQUIRED_FRACTION_DIGITS);
    let options = ParseFloatOptions::builder()
        .format(format)
        .build()
        .unwrap();
    assert!(f64_with_options(b"3.0e7", &options).is_ok());
    assert!(f64_with_options(b"3.e7", &options).is_err());
    assert!(f64_with_options(b"3e7", &options).is_err());
}

#[test]
fn f64_no_leading_zeros_test() {
    let format = NumberFormat::from_bits(flags::NO_FLOAT_LEADING_ZEROS);
    let options = ParseFloatOptions::builder()
        .format(format)
        .build()
        .unwrap();
    assert!(f64_with_options(b"1.0", &options).is_ok());
    assert!(f64_with_options(b"0.0", &options).is_ok());
    assert!(f64_with_options(b"01.0", &options).is_err());
    assert!(f64_with_options(b"10.0", &options).is_ok());
    assert!(f64_with_options(b"010.0", &options).is_err());
}

#[test]
fn f64_integer_internal_digit_separator_test() {
    let format = NumberFormat::from_separator(b'_') | NumberFormat::from_bits(flags::INTEGER_INTERNAL_DIGIT_SEPARATOR);
    let options = ParseFloatOptions::builder()
        .format(format)
        .build()
        .unwrap();
    assert!(f64_with_options(b"3_1.0e7", &options).is_ok());
    assert!(f64_with_options(b"_31.0e7", &options).is_err());
    assert!(f64_with_options(b"31_.0e7", &options).is_err());
}

#[test]
fn f64_fraction_internal_digit_separator_test() {
    let format = NumberFormat::from_separator(b'_') | NumberFormat::from_bits(flags::FRACTION_INTERNAL_DIGIT_SEPARATOR);
    let options = ParseFloatOptions::builder()
        .format(format)
        .build()
        .unwrap();
    assert!(f64_with_options(b"31.0_1e7", &options).is_ok());
    assert!(f64_with_options(b"31._01e7", &options).is_err());
    assert!(f64_with_options(b"31.01_e7", &options).is_err());
}

#[test]
fn f64_exponent_internal_digit_separator_test() {
    let format = NumberFormat::from_separator(b'_') | NumberFormat::from_bits(flags::EXPONENT_INTERNAL_DIGIT_SEPARATOR);
    let options = ParseFloatOptions::builder()
        .format(format)
        .build()
        .unwrap();
    assert!(f64_with_options(b"31.01e7_1", &options).is_ok());
    assert!(f64_with_options(b"31.01e_71", &options).is_err());
    assert!(f64_with_options(b"31.01e71_", &options).is_err());
}

#[test]
fn f64_integer_leading_digit_separator_test() {
    let format = NumberFormat::from_separator(b'_') | NumberFormat::from_bits(flags::INTEGER_LEADING_DIGIT_SEPARATOR);
    let options = ParseFloatOptions::builder()
        .format(format)
        .build()
        .unwrap();
    assert!(f64_with_options(b"3_1.0e7", &options).is_err());
    assert!(f64_with_options(b"_31.0e7", &options).is_ok());
    assert!(f64_with_options(b"31_.0e7", &options).is_err());
}

#[test]
fn f64_fraction_leading_digit_separator_test() {
    let format = NumberFormat::from_separator(b'_') | NumberFormat::from_bits(flags::FRACTION_LEADING_DIGIT_SEPARATOR);
    let options = ParseFloatOptions::builder()
        .format(format)
        .build()
        .unwrap();
    assert!(f64_with_options(b"31.0_1e7", &options).is_err());
    assert!(f64_with_options(b"31._01e7", &options).is_ok());
    assert!(f64_with_options(b"31.01_e7", &options).is_err());
}

#[test]
fn f64_exponent_leading_digit_separator_test() {
    let format = NumberFormat::from_separator(b'_') | NumberFormat::from_bits(flags::EXPONENT_LEADING_DIGIT_SEPARATOR);
    let options = ParseFloatOptions::builder()
        .format(format)
        .build()
        .unwrap();
    assert!(f64_with_options(b"31.01e7_1", &options).is_err());
    assert!(f64_with_options(b"31.01e_71", &options).is_ok());
    assert!(f64_with_options(b"31.01e71_", &options).is_err());
}

#[test]
fn f64_integer_trailing_digit_separator_test() {
    let format = NumberFormat::from_separator(b'_') | NumberFormat::from_bits(flags::INTEGER_TRAILING_DIGIT_SEPARATOR);
    let options = ParseFloatOptions::builder()
        .format(format)
        .build()
        .unwrap();
    assert!(f64_with_options(b"3_1.0e7", &options).is_err());
    assert!(f64_with_options(b"_31.0e7", &options).is_err());
    assert!(f64_with_options(b"31_.0e7", &options).is_ok());
}

#[test]
fn f64_fraction_trailing_digit_separator_test() {
    let format = NumberFormat::from_separator(b'_') | NumberFormat::from_bits(flags::FRACTION_TRAILING_DIGIT_SEPARATOR);
    let options = ParseFloatOptions::builder()
        .format(format)
        .build()
        .unwrap();
    assert!(f64_with_options(b"31.0_1e7", &options).is_err());
    assert!(f64_with_options(b"31._01e7", &options).is_err());
    assert!(f64_with_options(b"31.01_e7", &options).is_ok());
}

#[test]
fn f64_exponent_trailing_digit_separator_test() {
    let format = NumberFormat::from_separator(b'_') | NumberFormat::from_bits(flags::EXPONENT_TRAILING_DIGIT_SEPARATOR);
    let options = ParseFloatOptions::builder()
        .format(format)
        .build()
        .unwrap();
    assert!(f64_with_options(b"31.01e7_1", &options).is_err());
    assert!(f64_with_options(b"31.01e_71", &options).is_err());
    assert!(f64_with_options(b"31.01e71_", &options).is_ok());
}

#[test]
fn f64_integer_consecutive_digit_separator_test() {
    let format = NumberFormat::from_separator(b'_')
        | NumberFormat::from_bits(flags::INTEGER_INTERNAL_DIGIT_SEPARATOR)
        | NumberFormat::from_bits(flags::INTEGER_CONSECUTIVE_DIGIT_SEPARATOR);
    let options = ParseFloatOptions::builder()
        .format(format)
        .build()
        .unwrap();
    assert!(f64_with_options(b"3__1.0e7", &options).is_ok());
    assert!(f64_with_options(b"_31.0e7", &options).is_err());
    assert!(f64_with_options(b"31_.0e7", &options).is_err());
}

#[test]
fn f64_fraction_consecutive_digit_separator_test() {
    let format = NumberFormat::from_separator(b'_')
        | NumberFormat::from_bits(flags::FRACTION_INTERNAL_DIGIT_SEPARATOR)
        | NumberFormat::from_bits(flags::FRACTION_CONSECUTIVE_DIGIT_SEPARATOR);
    let options = ParseFloatOptions::builder()
        .format(format)
        .build()
        .unwrap();
    assert!(f64_with_options(b"31.0__1e7", &options).is_ok());
    assert!(f64_with_options(b"31._01e7", &options).is_err());
    assert!(f64_with_options(b"31.01_e7", &options).is_err());
}

#[test]
fn f64_exponent_consecutive_digit_separator_test() {
    let format = NumberFormat::from_separator(b'_')
        | NumberFormat::from_bits(flags::EXPONENT_INTERNAL_DIGIT_SEPARATOR)
        | NumberFormat::from_bits(flags::EXPONENT_CONSECUTIVE_DIGIT_SEPARATOR);
    let options = ParseFloatOptions::builder()
        .format(format)
        .build()
        .unwrap();
    assert!(f64_with_options(b"31.01e7__1", &options).is_ok());
    assert!(f64_with_options(b"31.01e_71", &options).is_err());
    assert!(f64_with_options(b"31.01e71_", &options).is_err());
}

#[test]
fn f64_json_exponent_without_dot() {
    let format = NumberFormat::json();
    let options = ParseFloatOptions::builder()
        .format(format)
        .build()
        .unwrap();
    assert!(f64_with_options(b"0e1", &options).is_ok());
    assert!(f64_with_options(b"20e1", &options).is_ok());
    assert!(f64_with_options(b"1E+2", &options).is_ok());
    assert!(f64_with_options(b"1E-999", &options).is_ok());
    assert!(f64_with_options(b"23456789012E66", &options).is_ok());
}
#[test]
fn f64_json_exponent_requires_digit() {
    let format = NumberFormat::json();
    let options = ParseFloatOptions::builder()
        .format(format)
        .build()
        .unwrap();
    assert!(f64_with_options(b"1e", &options).is_err());
    assert!(f64_with_options(b"9.e+", &options).is_err());
    assert!(f64_with_options(b"2.e-3", &options).is_err());
    assert!(f64_with_options(b"1.", &options).is_err());
}

#[test]
fn f64_json_no_leading_zero() {
    let format = NumberFormat::json();
    let options = ParseFloatOptions::builder()
        .format(format)
        .build()
        .unwrap();
    assert!(f64_with_options(b"12.0", &options).is_ok());
    assert!(f64_with_options(b"-12.0", &options).is_ok());
    assert!(f64_with_options(b"012.0", &options).is_err());
    assert!(f64_with_options(b"-012.0", &options).is_err());
}

#[test]
fn extract_trim_test() {
    let format = NumberFormat::from_bits(flags::REQUIRED_EXPONENT_DIGITS);
    let parts = extract(b"01.50", 0, 10, b'e', format).unwrap();
    assert_eq!((parts.integer_start, parts.integer_end), (0, 2));
    assert_eq!((parts.fraction_start, parts.fraction_end), (3, 5));
    assert_eq!((parts.integer_first, parts.fraction_last, parts.digits_start()), (1, 4, 0));
    assert_eq!(parts.integer_digits(b"01.50", 10), 1);
    assert_eq!(parts.fraction_digits(b"01.50", 10), 1);
    assert_eq!(parts.mantissa_digits(b"01.50", 10), 2);

    let text = b"-000.001200e5x";
    let parts = extract(text, 1, 10, b'e', format).unwrap();
    assert_eq!((parts.integer_start, parts.integer_end), (1, 4));
    assert_eq!((parts.fraction_start, parts.fraction_end), (5, 11));
    assert_eq!((parts.integer_first, parts.fraction_last, parts.digits_start()), (4, 9, 2));
    assert_eq!(parts.integer_digits(text, 10), 0);
    assert_eq!(parts.fraction_digits(text, 10), 4);
    assert_eq!(parts.mantissa_digits(text, 10), 2);
    assert_eq!(parts.end, 13);

    // Zeros alone leave no digit that counts.
    let parts = extract(b"00.000", 0, 10, b'e', format).unwrap();
    assert_eq!((parts.integer_first, parts.fraction_last, parts.digits_start()), (2, 3, 0));
    assert_eq!(parts.mantissa_digits(b"00.000", 10), 0);

    // Zeros between digits that count stay, and separators are passed over.
    let skip = NumberFormat::ignore(b'_').unwrap();
    let text = b"_0_10_02.0_30_0_";
    let parts = extract(text, 0, 10, b'e', skip).unwrap();
    assert_eq!((parts.integer_start, parts.integer_end), (0, 8));
    assert_eq!((parts.integer_first, parts.fraction_last, parts.digits_start()), (3, 12, 0));
    assert_eq!(parts.integer_digits(text, 10), 4);
    assert_eq!(parts.fraction_digits(text, 10), 2);

    assert_eq!(ltrim_zero(b"0a00b", 0, 5, 16), (1, 1));
    assert_eq!(ltrim_zero(b"000", 0, 3, 10), (3, 3));
    assert_eq!(rtrim_zero(b"a0b00", 0, 5, 16), (3, 2));
    assert_eq!(rtrim_zero(b"000", 1, 3, 10), (1, 2));
}

#[test]
fn exponent_of_parts_test() {
    // 123.45e2: the mantissa 12345 is scaled by ten to the 0, the first digit
    // stands for ten to the 4.
    assert_eq!(mantissa_exponent(2, 2, 0), 0);
    assert_eq!(scientific_exponent(2, 3, 0), 4);
    // 0.00012e-3: the mantissa 12 is scaled by ten to the -8, the first
    // digit stands for ten to the -7.
    assert_eq!(mantissa_exponent(-3, 5, 0), -8);
    assert_eq!(scientific_exponent(-3, 0, 3), -7);
    // Digits that were left off the mantissa raise its exponent.
    assert_eq!(mantissa_exponent(0, 2, 7), 5);
    assert_eq!(mantissa_exponent(i32::MAX, 0, 1), i32::MAX);
    assert_eq!(mantissa_exponent(i32::MIN, 1, 0), i32::MIN);
    assert_eq!(scientific_exponent(i32::MAX, 2, 0), i32::MAX);
    assert_eq!(scientific_exponent(i32::MIN, 0, 5), i32::MIN);
}

#[test]
fn exponent_marker_test() {
    // A format that sets its own exponent character is read with it.
    let format = NumberFormat::permissive()
        .unwrap()
        .rebuild()
        .exponent_decimal(b'd')
        .build()
        .unwrap();
    let parsed = parse_partial_format::<Float64>(b"1d2", format).unwrap();
    assert_eq!((f64::from_bits(parsed.0.to_bits()), parsed.1), (100.0, 3));
    let parsed = parse_partial_format::<Float64>(b"1D2", format).unwrap();
    assert_eq!((f64::from_bits(parsed.0.to_bits()), parsed.1), (100.0, 3));
    let parsed = parse_partial_format::<Float64>(b"1e2", format).unwrap();
    assert_eq!((f64::from_bits(parsed.0.to_bits()), parsed.1), (1.0, 1));
    assert_eq!(format.exponent_marker(10, b'e'), b'd');
    assert_eq!(format.exponent_marker(16, b'p'), b'^');
    // A format that sets none leaves the character of the options.
    let plain = NumberFormat::permissive().unwrap();
    assert_eq!(plain.exponent_marker(10, b'e'), b'e');
    assert_eq!(plain.exponent_marker(16, b'p'), b'p');
    let options = ParseFloatOptions::hexadecimal();
    let parsed = Float64::from_lexical_with_options(b"1.8p1", &options).unwrap();
    assert_eq!(f64::from_bits(parsed.to_bits()), 24.0);
    // From the radix on in which `e` is a digit the backup character of
    // the format is read.
    let backup = NumberFormat::permissive()
        .unwrap()
        .rebuild()
        .exponent_backup(b'~')
        .build()
        .unwrap();
    let options = ParseFloatOptions::builder()
        .radix(16)
        .exponent_char(b'^')
        .format(backup)
        .build()
        .unwrap();
    let parsed = Float64::from_lexical_with_options(b"1.8~1", &options).unwrap();
    assert_eq!(f64::from_bits(parsed.to_bits()), 24.0);
}

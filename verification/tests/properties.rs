//! What holds of the library as a whole, on chosen values.

use lexical::flags;
use lexical::{
    parse, parse_format, parse_partial, parse_partial_format, parse_partial_radix, parse_radix,
    parse_with_options,
    Buildable, Builder, Error, ErrorCode, Float32, Float64, FromLexical, NumberFormat,
    ParseFloatOptions, RoundingKind,
};

fn double(bytes: &[u8]) -> Result<f64, Error> {
    parse::<Float64>(bytes).map(|value| f64::from_bits(value.to_bits()))
}

fn double_in(bytes: &[u8], format: NumberFormat) -> Result<f64, Error> {
    parse_format::<Float64>(bytes, format).map(|value| f64::from_bits(value.to_bits()))
}

#[test]
fn regression_fraction_test() {
    assert_eq!(double(b"5.002868148396374"), Ok(5.002868148396374));
}

#[test]
fn smallest_subnormal_test() {
    assert_eq!(double(b"5e-324"), Ok(5e-324));
    assert_eq!(double(b"4.9406564584124654e-324"), Ok(5e-324));
    // Just above half of the smallest subnormal rounds up, half of it to even.
    assert_eq!(double(b"2.4703282292062328e-324"), Ok(5e-324));
    assert_eq!(double(b"2.4703282292062327e-324"), Ok(0.0));
    assert_eq!(double(b"0.5e-324"), Ok(0.0));
}

#[test]
fn overflow_saturates_test() {
    assert_eq!(double(b"2e200000000000"), Ok(f64::INFINITY));
    assert_eq!(double(b"-2e200000000000"), Ok(f64::NEG_INFINITY));
    assert_eq!(double(b"1.7976931348623157e308"), Ok(f64::MAX));
    assert_eq!(double(b"1.7976931348623158e308"), Ok(f64::MAX));
    assert_eq!(double(b"1.7976931348623159e308"), Ok(f64::INFINITY));
    assert_eq!(double(b"1e309"), Ok(f64::INFINITY));
    assert_eq!(double(b"2e-200000000000"), Ok(0.0));
    assert_eq!(double(b"0e200000000000"), Ok(0.0));
}

#[test]
fn deep_leading_zero_subnormal_test() {
    let mut text = String::from("0.");
    text.push_str(&"0".repeat(322));
    text.push('1');
    assert_eq!(double(text.as_bytes()), Ok(1e-323));
}

#[test]
fn signed_overflow_index_test() {
    assert_eq!(
        parse::<i64>(b"9223372036854775808"),
        Err(Error { code: ErrorCode::Overflow, index: 18 })
    );
    assert_eq!(
        parse::<i64>(b"-9223372036854775809"),
        Err(Error { code: ErrorCode::Underflow, index: 19 })
    );
    assert_eq!(parse::<i64>(b"-9223372036854775808"), Ok(i64::MIN));
}

#[test]
fn unsigned_minus_test() {
    assert_eq!(parse::<u8>(b"-1"), Err(Error { code: ErrorCode::InvalidDigit, index: 0 }));
}

#[test]
fn partial_float_test() {
    let parsed = parse_partial::<Float32>(b"1.0.").unwrap();
    assert_eq!((f32::from_bits(parsed.0.to_bits()), parsed.1), (1.0, 3));
}

#[test]
fn json_format_test() {
    let json = NumberFormat::json();
    assert_eq!(double_in(b"012", json).unwrap_err().code, ErrorCode::InvalidLeadingZeros);
    assert_eq!(double_in(b"1.", json).unwrap_err().code, ErrorCode::EmptyFraction);
    assert_eq!(double_in(b".5", json).unwrap_err().code, ErrorCode::EmptyInteger);
    assert_eq!(double_in(b"1e", json).unwrap_err().code, ErrorCode::EmptyExponent);
    assert_eq!(double_in(b"+1", json).unwrap_err().code, ErrorCode::InvalidPositiveMantissaSign);
    assert_eq!(double_in(b"NaN", json).unwrap_err().code, ErrorCode::EmptyMantissa);
    assert_eq!(double_in(b"-1.5e3", json), Ok(-1500.0));
}

#[test]
fn internal_separator_test() {
    let format = NumberFormat::from_separator(b'_')
        | NumberFormat::from_bits(flags::INTEGER_INTERNAL_DIGIT_SEPARATOR);
    assert_eq!(double_in(b"3_1.0", format), Ok(31.0));
    assert!(double_in(b"_31.0", format).is_err());
    assert!(double_in(b"31_.0", format).is_err());
}

#[test]
fn error_variants_test() {
    let with = |bits: u64, text: &[u8]| {
        double_in(text, NumberFormat::from_bits(bits)).unwrap_err()
    };
    assert_eq!(with(flags::REQUIRED_MANTISSA_SIGN, b"1.0"), Error { code: ErrorCode::MissingMantissaSign, index: 0 });
    assert_eq!(with(flags::NO_EXPONENT_NOTATION, b"1.0e5"), Error { code: ErrorCode::InvalidExponent, index: 3 });
    assert_eq!(with(flags::REQUIRED_EXPONENT_NOTATION, b"1.0"), Error { code: ErrorCode::MissingExponentNotation, index: 3 });
    assert_eq!(with(flags::NO_POSITIVE_EXPONENT_SIGN, b"1.0e+5"), Error { code: ErrorCode::InvalidPositiveExponentSign, index: 4 });
    assert_eq!(with(flags::REQUIRED_EXPONENT_SIGN, b"1.0e5"), Error { code: ErrorCode::MissingExponentSign, index: 4 });
    assert_eq!(with(flags::NO_EXPONENT_WITHOUT_FRACTION, b"1e5"), Error { code: ErrorCode::ExponentWithoutFraction, index: 1 });
    assert_eq!(with(flags::REQUIRED_INTEGER_DIGITS, b"+.5"), Error { code: ErrorCode::EmptyInteger, index: 1 });
    assert_eq!(with(flags::REQUIRED_FRACTION_DIGITS, b"5."), Error { code: ErrorCode::EmptyFraction, index: 2 });
    assert_eq!(with(flags::NO_FLOAT_LEADING_ZEROS, b"-00.5"), Error { code: ErrorCode::InvalidLeadingZeros, index: 1 });
    assert_eq!(double(b"1.5x"), Err(Error { code: ErrorCode::InvalidDigit, index: 3 }));
    assert_eq!(double(b""), Err(Error { code: ErrorCode::Empty, index: 0 }));
    assert_eq!(parse::<u16>(b"65536"), Err(Error { code: ErrorCode::Overflow, index: 4 }));
    assert_eq!(parse::<i16>(b"-32769"), Err(Error { code: ErrorCode::Underflow, index: 5 }));
}

#[test]
fn error_code_numbers_test() {
    assert_eq!(ErrorCode::Overflow.as_i32(), -1);
    assert_eq!(ErrorCode::Underflow.as_i32(), -2);
    assert_eq!(ErrorCode::InvalidDigit.as_i32(), -3);
    assert_eq!(ErrorCode::Empty.as_i32(), -4);
    assert_eq!(ErrorCode::InvalidLeadingZeros.as_i32(), -15);
    assert_eq!(ErrorCode::InvalidConsecutiveDigitSeparator.as_i32(), -17);
}

#[test]
fn halfway_cases_test() {
    // 2^53 + 1 is halfway between two doubles.
    assert_eq!(double(b"9007199254740993"), Ok(9007199254740992.0));
    assert_eq!(double(b"9007199254740993.0000000000000000000000000001"), Ok(9007199254740994.0));
    assert_eq!(double(b"9007199254740995"), Ok(9007199254740996.0));
    assert_eq!(double(b"9007199254740994.9999999999999999999999999999"), Ok(9007199254740994.0));
    // Adversarial cases of the literature.
    assert_eq!(double(b"2.2250738585072012e-308"), Ok(2.2250738585072014e-308));
    assert_eq!(double(b"2.2250738585072011e-308"), Ok(2.225073858507201e-308));
    assert_eq!(double(b"6929495644600919.5"), Ok(6929495644600920.0));
    assert_eq!(double(b"3.2378839133029012895883524125015321748630376694231080599012e+192"), Ok(3.2378839133029013e192));
    assert_eq!(double(b"9.5e-324"), Ok(1e-323));
    assert_eq!(double(b"7.4109846876186981626485318930233205854758970392148714663837852375101326090531312779794975454245398856969484704316857659638998506553390969459816219401617281718945106978546710679176872575177347315553307795408549809608457500958111373034747658096871009590975442271004757307809711118935784838675653998783503015228055934046593739791790738723868299395818481660169122019456499931289798411362062484498678713572180352209017023903285791732520220528974020802906854021606612375549983402671300035812486479041385743401875520901590172592547146296175134159774938718574737870961645638908718119841271673056017045493004705269590165763776884908267986972573366521765567941072508764337560846003984904972149117463085539556354188641513168478436313080237596295773983001708984375e-324"), Ok(1e-323));
    let single = |bytes: &[u8]| parse::<Float32>(bytes).map(|v| f32::from_bits(v.to_bits()));
    assert_eq!(single(b"16777217"), Ok(16777216.0));
    assert_eq!(single(b"16777219"), Ok(16777220.0));
    assert_eq!(single(b"1.17549435e-38"), Ok(1.17549435e-38));
    assert_eq!(single(b"1e-45"), Ok(1e-45));
    assert_eq!(single(b"3.4028236e38"), Ok(f32::INFINITY));
    assert_eq!(single(b"3.4028235e38"), Ok(f32::MAX));
}

#[test]
fn rounding_kinds_test() {
    let with = |rounding: RoundingKind, text: &[u8]| {
        let options = ParseFloatOptions::builder().rounding(rounding).build().unwrap();
        f64::from_bits(parse_with_options::<Float64>(text, &options).unwrap().to_bits())
    };
    assert_eq!(with(RoundingKind::NearestTieEven, b"9007199254740993"), 9007199254740992.0);
    assert_eq!(with(RoundingKind::NearestTieAwayZero, b"9007199254740993"), 9007199254740994.0);
    assert_eq!(with(RoundingKind::TowardZero, b"9007199254740993.9"), 9007199254740992.0);
    assert_eq!(with(RoundingKind::TowardPositiveInfinity, b"9007199254740992.1"), 9007199254740994.0);
    assert_eq!(with(RoundingKind::TowardPositiveInfinity, b"-9007199254740992.1"), -9007199254740992.0);
    assert_eq!(with(RoundingKind::TowardNegativeInfinity, b"-9007199254740992.1"), -9007199254740994.0);
    assert_eq!(with(RoundingKind::TowardNegativeInfinity, b"9007199254740992.1"), 9007199254740992.0);
    assert_eq!(with(RoundingKind::TowardPositiveInfinity, b"1e-400"), 5e-324);
    assert_eq!(with(RoundingKind::TowardZero, b"1e-400"), 0.0);
}

#[test]
fn partial_prefix_test() {
    // What a partial parse consumes parses completely to the same value.
    for text in [&b"123abc"[..], b"-45.5e3x", b"1.0.", b"0x10", b"7_", b"12e5.5"] {
        let (value, consumed) = parse_partial::<Float64>(text).unwrap();
        assert_eq!(parse::<Float64>(&text[..consumed]), Ok(value));
    }
    for text in [&b"123abc"[..], b"-45.5", b"+7 ", b"99"] {
        let (value, consumed) = parse_partial::<i32>(text).unwrap();
        assert_eq!(parse::<i32>(&text[..consumed]), Ok(value));
    }
    assert_eq!(parse_partial::<i32>(b"123abc"), Ok((123, 3)));
    assert_eq!(parse_partial::<u8>(b"a"), Ok((0, 0)));
}

#[test]
fn partial_prefix_separator_test() {
    // The same with digit separators wherever they may stand: a separator
    // that ends what is consumed belongs to it only where it may trail.
    let format = NumberFormat::ignore(b'_').unwrap();
    for text in [&b"1_2.5_0e1_0xyz"[..], b"_1__2_._5_", b"1_2_e", b"1_.e_3_+", b"__7__x_8"] {
        let (value, consumed) = parse_partial_format::<Float64>(text, format).unwrap();
        assert_eq!(parse_format::<Float64>(&text[..consumed], format), Ok(value));
    }
    let internal = NumberFormat::from_separator(b'_')
        | NumberFormat::from_bits(
            flags::INTEGER_INTERNAL_DIGIT_SEPARATOR | flags::FRACTION_INTERNAL_DIGIT_SEPARATOR,
        );
    for text in [&b"1_2.5_0e10xyz"[..], b"1_2_", b"1__2", b"1_2.3_", b"1_2.3__4", b"12_.5"] {
        let (value, consumed) = parse_partial_format::<Float64>(text, internal).unwrap();
        assert_eq!(parse_format::<Float64>(&text[..consumed], internal), Ok(value));
    }
    let (value, consumed) = parse_partial_format::<Float64>(b"1_2_", internal).unwrap();
    assert_eq!((f64::from_bits(value.to_bits()), consumed), (12.0, 3));
    let (value, consumed) = parse_partial_format::<Float64>(b"1__2", internal).unwrap();
    assert_eq!((f64::from_bits(value.to_bits()), consumed), (1.0, 1));
}

#[test]
fn radix_parse_test() {
    assert_eq!(parse_radix::<i32>(b"-11", 2), Ok(-3));
    assert_eq!(parse_radix::<u64>(b"ff", 16), Ok(255));
    assert_eq!(parse_radix::<u64>(b"FF", 16), Ok(255));
    assert_eq!(parse_partial_radix::<u64>(b"zz!", 36), Ok((1295, 2)));
    let value = parse_radix::<Float64>(b"1.1", 2).unwrap();
    assert_eq!(f64::from_bits(value.to_bits()), 1.5);
    let value = parse_radix::<Float64>(b"A.8", 16).unwrap();
    assert_eq!(f64::from_bits(value.to_bits()), 10.5);
    let value = parse_radix::<Float64>(b"1e3", 8).unwrap();
    assert_eq!(f64::from_bits(value.to_bits()), 512.0);
    let options = ParseFloatOptions::hexadecimal();
    let value = Float64::from_lexical_with_options(b"1.8p1", &options).unwrap();
    assert_eq!(f64::from_bits(value.to_bits()), 24.0);
    let value = parse_radix::<Float64>(b"1^2", 16).unwrap();
    assert_eq!(f64::from_bits(value.to_bits()), 256.0);
}

#[test]
fn wide_overflow_index_test() {
    // The 128-bit types notice an overflow where a group of digits ends.
    let digits = "9".repeat(60);
    assert_eq!(
        parse::<u128>(digits.as_bytes()),
        Err(Error { code: ErrorCode::Overflow, index: 57 })
    );
    assert_eq!(
        parse::<u128>(b"340282366920938463463374607431768211456"),
        Err(Error { code: ErrorCode::Overflow, index: 39 })
    );
    assert_eq!(
        parse::<i128>(b"-170141183460469231731687303715884105729"),
        Err(Error { code: ErrorCode::Underflow, index: 40 })
    );
}

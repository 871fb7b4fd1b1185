//! Writing floats.

use lexical::{
    write_radix, write_with_options, Float32, Float64, FromLexical, ParseFloatOptions, ToLexical,
    WriteFloatOptions,
};

fn double(value: f64) -> String {
    let mut buffer = [b'#'; 32];
    let len = lexical::write(Float64::from_bits(value.to_bits()), &mut buffer);
    assert!(buffer[len..].iter().all(|&b| b == b'#'));
    String::from_utf8(buffer[..len].to_vec()).unwrap()
}

fn single(value: f32) -> String {
    let mut buffer = [b'#'; 32];
    let len = lexical::write(Float32::from_bits(value.to_bits()), &mut buffer);
    assert!(buffer[len..].iter().all(|&b| b == b'#'));
    String::from_utf8(buffer[..len].to_vec()).unwrap()
}

fn double_radix(value: f64, radix: u8) -> String {
    let mut buffer = [b'#'; 80];
    let len = write_radix(Float64::from_bits(value.to_bits()), radix, &mut buffer);
    String::from_utf8(buffer[..len].to_vec()).unwrap()
}

fn double_with(value: f64, options: &WriteFloatOptions) -> String {
    let mut buffer = [b'#'; 80];
    let len = write_with_options(Float64::from_bits(value.to_bits()), &mut buffer, options);
    String::from_utf8(buffer[..len].to_vec()).unwrap()
}

#[test]
fn float_write_fixed_test() {
    assert_eq!(double(0.0), "0.0");
    assert_eq!(double(-0.0), "-0.0");
    assert_eq!(double(1.0), "1.0");
    assert_eq!(double(-3.0), "-3.0");
    assert_eq!(double(0.1), "0.1");
    assert_eq!(double(0.3), "0.3");
    assert_eq!(double(1.5), "1.5");
    assert_eq!(double(123.456), "123.456");
    assert_eq!(double(0.000123), "0.000123");
    assert_eq!(double(0.00001), "0.00001");
    assert_eq!(double(100.0), "100.0");
    assert_eq!(double(123456789.0), "123456789.0");
    assert_eq!(double(1000000000.0), "1000000000.0");
    assert_eq!(double(9999999999.5), "9999999999.5");
    assert_eq!(single(0.1), "0.1");
    assert_eq!(single(16777216.0), "16777216.0");
}

#[test]
fn float_write_scientific_test() {
    assert_eq!(double(1e10), "1.0e10");
    assert_eq!(double(1234567890123.0), "1.234567890123e12");
    assert_eq!(double(1e-6), "1.0e-6");
    assert_eq!(double(1.2345e-7), "1.2345e-7");
    assert_eq!(double(1e23), "1.0e23");
    assert_eq!(double(5e-324), "5.0e-324");
    assert_eq!(double(f64::MAX), "1.7976931348623157e308");
    assert_eq!(double(f64::MIN_POSITIVE), "2.2250738585072014e-308");
    assert_eq!(double(-f64::MAX), "-1.7976931348623157e308");
    assert_eq!(single(f32::MAX), "3.4028235e38");
    assert_eq!(single(1e-45), "1.0e-45");
    assert_eq!(single(f32::MIN_POSITIVE), "1.1754944e-38");
}

#[test]
fn float_write_special_test() {
    assert_eq!(double(f64::INFINITY), "inf");
    assert_eq!(double(f64::NEG_INFINITY), "-inf");
    assert_eq!(double(f64::NAN), "NaN");
    assert_eq!(single(f32::INFINITY), "inf");
    let options = WriteFloatOptions::create(b'e', 10, false, b"nan", b"Infinity").unwrap();
    assert_eq!(double_with(f64::NAN, &options), "nan");
    assert_eq!(double_with(f64::NEG_INFINITY, &options), "-Infinity");
    assert!(WriteFloatOptions::create(b'e', 10, false, b"xan", b"inf").is_none());
    assert!(WriteFloatOptions::create(b'e', 10, false, b"nan", b"nf").is_none());
    assert!(WriteFloatOptions::create(b'1', 10, false, b"nan", b"inf").is_none());
    assert!(WriteFloatOptions::create(b'e', 16, false, b"nan", b"inf").is_none());
}

#[test]
fn float_write_trim_test() {
    let options = WriteFloatOptions::create(b'e', 10, true, b"NaN", b"inf").unwrap();
    assert_eq!(double_with(0.0, &options), "0");
    assert_eq!(double_with(3.0, &options), "3");
    assert_eq!(double_with(-100.0, &options), "-100");
    assert_eq!(double_with(1.5, &options), "1.5");
    assert_eq!(double_with(1e10, &options), "1e10");
    assert_eq!(double_with(1.5e10, &options), "1.5e10");
}

#[test]
fn float_write_radix_test() {
    assert_eq!(double_radix(1.5, 2), "1.1");
    assert_eq!(double_radix(0.5, 2), "0.1");
    assert_eq!(double_radix(10.5, 16), "A.8");
    assert_eq!(double_radix(255.0, 16), "FF.0");
    assert_eq!(double_radix(1234.0, 36), "YA.0");
    assert_eq!(double_radix(1024.0, 2), "1.0e1010");
    assert_eq!(double_radix(4096.0, 16), "1000.0");
    assert_eq!(double_radix(1099511627776.0, 16), "1.0^A");
    assert_eq!(double_with(1099511627776.0, &WriteFloatOptions::hexadecimal()), "1.0pA");
    assert_eq!(double_radix(5e-324, 2), format!("1.0e-{:b}", 1074));
}

#[test]
fn float_round_trip_test() {
    let mut state: u64 = 0x243F_6A88_85A3_08D3;
    let mut next = || {
        state = state.wrapping_mul(6364136223846793005).wrapping_add(1442695040888963407);
        state
    };
    for _ in 0..5000 {
        let value = f64::from_bits(next());
        if !value.is_finite() {
            continue;
        }
        let text = double(value);
        let back = Float64::from_lexical(text.as_bytes()).unwrap();
        assert_eq!(back.to_bits(), value.to_bits(), "{}", text);
        // Writing what was parsed gives the text again.
        assert_eq!(double(f64::from_bits(back.to_bits())), text);
        // No text of the standard library has fewer digits.
        let shortest = format!("{:e}", value);
        let count = |text: &str| {
            let mantissa = text.split('e').next().unwrap();
            mantissa
                .chars()
                .filter(char::is_ascii_digit)
                .collect::<String>()
                .trim_matches('0')
                .len()
        };
        assert_eq!(count(&text), count(&shortest), "{} {}", text, shortest);
    }
    for _ in 0..5000 {
        let value = f32::from_bits(next() as u32);
        if !value.is_finite() {
            continue;
        }
        let text = single(value);
        let back = Float32::from_lexical(text.as_bytes()).unwrap();
        assert_eq!(back.to_bits(), value.to_bits(), "{}", text);
    }
}

#[test]
fn float_round_trip_radix_test() {
    let values = [
        1.0, 0.1, 1.0 / 3.0, 123456.789, 5e-324, f64::MAX, f64::MIN_POSITIVE, 2.5e-310, 1e100,
        9007199254740993.0, 0.3, 7.0e-10,
    ];
    let mut buffer = [0u8; 80];
    for radix in 2..=36u8 {
        let options = ParseFloatOptions::from_radix(radix).unwrap();
        for value in values {
            let len = Float64::from_bits(f64::to_bits(value)).to_lexical_radix(radix, &mut buffer);
            let back = Float64::from_lexical_with_options(&buffer[..len], &options).unwrap();
            assert_eq!(back.to_bits(), value.to_bits(), "{} in radix {}", value, radix);
            let len = Float64::from_bits(f64::to_bits(-value)).to_lexical_radix(radix, &mut buffer);
            let back = Float64::from_lexical_with_options(&buffer[..len], &options).unwrap();
            assert_eq!(back.to_bits(), (-value).to_bits());
        }
    }
}

#[test]
fn float_bounded_output_test() {
    assert_eq!(Float64::formatted_size_decimal(), 32);
    assert_eq!(Float64::formatted_size(), 80);
    assert_eq!(Float32::formatted_size_decimal(), 32);
    let mut state: u64 = 0x1357_9BDF_0246_8ACE;
    for _ in 0..2000 {
        state = state.wrapping_mul(6364136223846793005).wrapping_add(1442695040888963407);
        assert!(double(f64::from_bits(state)).len() <= 32);
        assert!(double_radix(f64::from_bits(state), 2).len() <= 80);
        assert!(double_radix(f64::from_bits(state), 3).len() <= 80);
    }
    assert_eq!(double(-2.2250738585072014e-308), "-2.2250738585072014e-308");
    assert_eq!(double(-2.2250738585072014e-308).len(), 24);
    let text = double_radix(-f64::from_bits(0x000F_FFFF_FFFF_FFFF), 2);
    assert_eq!(text, format!("-1.{}e-{:b}", "1".repeat(51), 1023));
    assert_eq!(text.len(), 66);
}

#[test]
fn float_write_binade_test() {
    // The least float of a binade has a wider gap above it than below it;
    // its text is as short as that of any other float.
    let count = |text: &str| {
        let mantissa = text.split('e').next().unwrap();
        mantissa
            .chars()
            .filter(char::is_ascii_digit)
            .collect::<String>()
            .trim_matches('0')
            .len()
    };
    for field in 1..2047u64 {
        let value = f64::from_bits(field << 52);
        let text = double(value);
        assert_eq!(count(&text), count(&format!("{:e}", value)), "{}", text);
        assert_eq!(Float64::from_lexical(text.as_bytes()).unwrap().to_bits(), value.to_bits());
    }
    for field in 1..255u32 {
        let value = f32::from_bits(field << 23);
        let text = single(value);
        assert_eq!(count(&text), count(&format!("{:e}", value)), "{}", text);
        assert_eq!(Float32::from_lexical(text.as_bytes()).unwrap().to_bits(), value.to_bits());
    }
    assert_eq!(double(9007199254740992.0), "9.007199254740992e15");
    assert_eq!(double(2.0f64.powi(-1022)), "2.2250738585072014e-308");
    assert_eq!(single(2.0f32.powi(33)), "8589935000.0");
}

#[test]
fn float_special_letters_test() {
    // From the radix nineteen on the letters that begin the special values
    // are digits: a number whose digits spell a special value is read as
    // that value.
    assert_eq!(double_radix(30191.0, 36), "NAN.0");
    let options = ParseFloatOptions::from_radix(36).unwrap();
    let parsed = Float64::from_lexical_partial_with_options(b"NAN.0", &options).unwrap();
    assert!(f64::from_bits(parsed.0.to_bits()).is_nan());
    assert_eq!(parsed.1, 3);
    // In the radices up to eighteen every number is read back.
    assert_eq!(double_radix(30191.0, 18), "5335.0");
    let options = ParseFloatOptions::from_radix(18).unwrap();
    let parsed = Float64::from_lexical_with_options(b"5335.0", &options).unwrap();
    assert_eq!(f64::from_bits(parsed.to_bits()), 30191.0);
}

#[test]
fn float_fewest_digits_test() {
    // With one digit less, neither the number below nor the number above
    // is read as the float.
    let values = [
        0.1f64,
        0.3,
        1e23,
        5e-324,
        1.5,
        123456.789,
        9007199254740993.0,
        2.2250738585072014e-308,
        1.7976931348623157e308,
        4.35,
        8.41e21,
    ];
    for &value in values.iter() {
        let text = format!("{:e}", value);
        let (mantissa, exponent) = text.split_once('e').unwrap();
        let digits: String = mantissa.chars().filter(char::is_ascii_digit).collect();
        let written = double(value);
        let ours: String = written
            .split('e')
            .next()
            .unwrap()
            .chars()
            .filter(char::is_ascii_digit)
            .collect();
        assert_eq!(ours.trim_matches('0'), digits.trim_matches('0'), "{}", written);
        if digits.len() >= 2 {
            let front: u64 = digits[..digits.len() - 1].parse().unwrap();
            let exponent: i32 = exponent.parse().unwrap();
            let scale = exponent - (digits.len() as i32 - 2);
            for candidate in [front, front + 1] {
                let shorter = format!("{}e{}", candidate, scale);
                let parsed = Float64::from_lexical(shorter.as_bytes()).unwrap();
                assert_ne!(parsed.to_bits(), value.to_bits(), "{}", shorter);
            }
        }
    }
}

#[test]
fn float_nearest_digits_test() {
    // Of two texts that are as short, the one nearer the float is written.
    assert_eq!(single(f32::from_bits(0x4D00_0001)), "134217740.0");
    assert_eq!(single(134217744.0), "134217740.0");
    assert_eq!(double(9007199254740993.0), "9.007199254740992e15");
    assert_eq!(double(5e-324), "5.0e-324");
    assert_eq!(double(1e23), "1.0e23");
    assert_eq!(double(9.5e22), "9.5e22");
    assert_eq!(double_radix(2.5, 2), "10.1");
    assert_eq!(single(f32::from_bits(1)), "1.0e-45");
}

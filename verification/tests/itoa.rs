//! Writing integers.

use lexical::digit::digit_to_char;
use lexical::{FromLexical, ToLexical, WriteIntegerOptions};

fn written<N: ToLexical>(value: N) -> String {
    let mut buffer = [b'#'; 40];
    let len = value.to_lexical(&mut buffer);
    assert!(buffer[len..].iter().all(|&b| b == b'#'));
    String::from_utf8(buffer[..len].to_vec()).unwrap()
}

fn written_radix<N: ToLexical>(value: N, radix: u8) -> String {
    let mut buffer = [b'#'; 129];
    let len = value.to_lexical_radix(radix, &mut buffer);
    assert!(buffer[len..].iter().all(|&b| b == b'#'));
    String::from_utf8(buffer[..len].to_vec()).unwrap()
}

#[test]
fn digit_to_char_test() {
    assert_eq!(digit_to_char(0), b'0');
    assert_eq!(digit_to_char(9), b'9');
    assert_eq!(digit_to_char(10), b'A');
    assert_eq!(digit_to_char(35), b'Z');
}

#[test]
fn unsigned_decimal_write_test() {
    assert_eq!(written(0u8), "0");
    assert_eq!(written(7u8), "7");
    assert_eq!(written(10u8), "10");
    assert_eq!(written(99u8), "99");
    assert_eq!(written(100u8), "100");
    assert_eq!(written(255u8), "255");
    assert_eq!(written(65535u16), "65535");
    assert_eq!(written(4294967295u32), "4294967295");
    assert_eq!(written(18446744073709551615u64), "18446744073709551615");
    assert_eq!(written(u128::MAX), "340282366920938463463374607431768211455");
    assert_eq!(written(1234567usize), "1234567");
}

#[test]
fn signed_decimal_write_test() {
    assert_eq!(written(0i8), "0");
    assert_eq!(written(-1i8), "-1");
    assert_eq!(written(-128i8), "-128");
    assert_eq!(written(127i8), "127");
    assert_eq!(written(-32768i16), "-32768");
    assert_eq!(written(-2147483648i32), "-2147483648");
    assert_eq!(written(i64::MIN), "-9223372036854775808");
    assert_eq!(written(i64::MAX), "9223372036854775807");
    assert_eq!(written(i128::MIN), "-170141183460469231731687303715884105728");
    assert_eq!(written(-1234567isize), "-1234567");
}

#[test]
fn radix_write_test() {
    assert_eq!(written_radix(37u8, 2), "100101");
    assert_eq!(written_radix(37u8, 16), "25");
    assert_eq!(written_radix(1234i16, 36), "YA");
    assert_eq!(written_radix(-3i32, 2), "-11");
    assert_eq!(written_radix(255u8, 2), "11111111");
    assert_eq!(written_radix(i8::MIN, 2), "-10000000");
    assert_eq!(written_radix(u128::MAX, 2), "1".repeat(128));
    assert_eq!(written_radix(i128::MIN, 2), format!("-1{}", "0".repeat(127)));
    assert_eq!(written_radix(u64::MAX, 16), "FFFFFFFFFFFFFFFF");
}

#[test]
fn options_write_test() {
    let options = WriteIntegerOptions::hexadecimal();
    let mut buffer = [0u8; 65];
    let len = 48879u32.to_lexical_with_options(&mut buffer, &options);
    assert_eq!(&buffer[..len], b"BEEF");
    let options = WriteIntegerOptions::create(8).unwrap();
    let len = (-8i64).to_lexical_with_options(&mut buffer, &options);
    assert_eq!(&buffer[..len], b"-10");
    assert!(WriteIntegerOptions::create(1).is_none());
    assert!(WriteIntegerOptions::create(37).is_none());
}

#[test]
fn formatted_size_test() {
    assert_eq!(u8::formatted_size_decimal(), 3);
    assert_eq!(i8::formatted_size_decimal(), 4);
    assert_eq!(u64::formatted_size_decimal(), 20);
    assert_eq!(i64::formatted_size_decimal(), 20);
    assert_eq!(u128::formatted_size_decimal(), 39);
    assert_eq!(i128::formatted_size_decimal(), 40);
    assert_eq!(u64::formatted_size(), 64);
    assert_eq!(i64::formatted_size(), 65);
    assert_eq!(u128::formatted_size(), 128);
    assert_eq!(i128::formatted_size(), 129);
    // The longest texts fill buffers of exactly these sizes.
    let mut buffer = [0u8; 20];
    assert_eq!(u64::MAX.to_lexical(&mut buffer), 20);
    assert_eq!(i64::MIN.to_lexical(&mut buffer), 20);
    let mut buffer = [0u8; 129];
    assert_eq!(i128::MIN.to_lexical_radix(2, &mut buffer), 129);
}

#[test]
fn integer_round_trip_test() {
    let mut buffer = [0u8; 129];
    for radix in 2..=36u8 {
        for value in [i64::MIN, -1234567, -36, -1, 0, 1, 9, 10, 35, 36, 99, 100, 1234567, i64::MAX] {
            let len = value.to_lexical_radix(radix, &mut buffer);
            assert_eq!(i64::from_lexical_radix(&buffer[..len], radix), Ok(value));
        }
        for value in [0u128, 1, u64::MAX as u128, u64::MAX as u128 + 1, u128::MAX] {
            let len = value.to_lexical_radix(radix, &mut buffer);
            assert_eq!(u128::from_lexical_radix(&buffer[..len], radix), Ok(value));
        }
        for value in [i128::MIN, -1, i128::MAX] {
            let len = value.to_lexical_radix(radix, &mut buffer);
            assert_eq!(i128::from_lexical_radix(&buffer[..len], radix), Ok(value));
        }
    }
    for value in 0..=255u8 {
        let len = value.to_lexical(&mut buffer);
        assert_eq!(u8::from_lexical(&buffer[..len]), Ok(value));
        let len = (value as i8).to_lexical(&mut buffer);
        assert_eq!(i8::from_lexical(&buffer[..len]), Ok(value as i8));
    }
}

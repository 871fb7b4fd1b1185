//! The limits and powers that are exact in a float.

use lexical::{BFloat16, ExactExponent, Float128, Float16, Float32, Float64, TablePower};

#[test]
fn test_f32_roundtrip() {
    for exp in -149i32..127 {
        let float = f32::from_bits(Float32::table_pow2(exp).to_bits());
        assert_eq!(float, f64::powi(2.0, exp) as f32);
    }
}

#[test]
fn test_f64_roundtrip() {
    for exp in -1074i32..1023 {
        let float = f64::from_bits(Float64::table_pow2(exp).to_bits());
        if exp > -1023 {
            assert_eq!(float, f64::powi(2.0, exp));
        }
    }
}

#[test]
fn table_pow2_subnormal_test() {
    assert_eq!(Float64::table_pow2(-1074).to_bits(), 1);
    assert_eq!(Float64::table_pow2(-1073).to_bits(), 2);
    assert_eq!(Float32::table_pow2(-149).to_bits(), 1);
    assert_eq!(Float32::table_pow2(0).to_bits(), 0x3F80_0000);
}

#[test]
fn table_pow_test() {
    let mut expected = 1.0f64;
    for exp in 0..=22 {
        assert_eq!(f64::from_bits(Float64::table_pow(10, exp).to_bits()), expected);
        expected *= 10.0;
    }
    let mut expected = 1.0f32;
    for exp in 0..=10 {
        assert_eq!(f32::from_bits(Float32::table_pow(10, exp).to_bits()), expected);
        expected *= 10.0;
    }
    assert_eq!(f64::from_bits(Float64::table_pow(36, 16).to_bits()), 7958661109946400884391936.0);
    assert_eq!(f64::from_bits(Float64::table_pow(3, 33).to_bits()), 5559060566555523.0);
}

#[test]
fn exponent_limit_test() {
    assert_eq!(Float32::exponent_limit(10), (-10, 10));
    assert_eq!(Float64::exponent_limit(10), (-22, 22));
    assert_eq!(Float32::exponent_limit(2), (-149, 127));
    assert_eq!(Float64::exponent_limit(2), (-1074, 1023));
    assert_eq!(Float64::exponent_limit(16), (-268, 255));
    assert_eq!(Float64::exponent_limit(36), (-16, 16));
}

#[test]
fn mantissa_limit_test() {
    assert_eq!(Float32::mantissa_limit(10), 7);
    assert_eq!(Float64::mantissa_limit(10), 15);
    assert_eq!(Float32::mantissa_limit(2), 24);
    assert_eq!(Float64::mantissa_limit(2), 53);
    assert_eq!(Float64::mantissa_limit(36), 10);
}

#[test]
fn small_and_large_format_limits_test() {
    assert_eq!(Float16::exponent_limit(10), (-4, 4));
    assert_eq!(Float16::exponent_limit(2), (-24, 15));
    assert_eq!(Float16::mantissa_limit(10), 3);
    assert_eq!(Float16::mantissa_limit(2), 11);
    assert_eq!(BFloat16::exponent_limit(10), (-3, 3));
    assert_eq!(BFloat16::exponent_limit(2), (-133, 127));
    assert_eq!(BFloat16::mantissa_limit(10), 2);
    assert_eq!(BFloat16::mantissa_limit(32), 1);
    assert_eq!(Float128::exponent_limit(10), (-48, 48));
    assert_eq!(Float128::exponent_limit(2), (-16494, 16383));
    assert_eq!(Float128::exponent_limit(8), (-5498, 5461));
    assert_eq!(Float128::mantissa_limit(10), 34);
    assert_eq!(Float128::mantissa_limit(2), 113);
}

#[test]
fn limits_are_exact_test() {
    // The limit is the last exponent with which the power is held exactly.
    for radix in 2..=36u32 {
        let limit = Float64::mantissa_limit(radix) as u32;
        assert!((radix as u128).pow(limit) <= 1 << 53);
        assert!((radix as u128).pow(limit + 1) > 1 << 53);
        let limit = Float32::mantissa_limit(radix) as u32;
        assert!((radix as u128).pow(limit) <= 1 << 24);
        assert!((radix as u128).pow(limit + 1) > 1 << 24);
        if !radix.is_power_of_two() {
            let (low, high) = Float64::exponent_limit(radix);
            assert_eq!(low, -high);
            let exact = f64::from_bits(Float64::table_pow(radix, high).to_bits());
            assert_eq!(exact, (radix as f64).powi(high));
        }
    }
}

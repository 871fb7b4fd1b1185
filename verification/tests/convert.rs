//! Extended floats: import from native floats and tuples, export to native
//! floats.

use lexical::float::{from_float, into_float};
use lexical::{ExtendedFloat, FloatLayout};

#[test]
fn convert_float_test() {
    let f: f32 = 1e-45;
    let fp = from_float(f.to_bits() as u64, FloatLayout::Single);
    assert_eq!(
        fp,
        ExtendedFloat {
            mant: 1u64,
            exp: -149
        }
    );
}

#[test]
fn test_into_float() {
    // Rounded correctly.
    let fp = ExtendedFloat {
        mant: 1967680u64,
        exp: -23,
    };
    assert_eq!(f32::from_bits(into_float(fp, FloatLayout::Single) as u32), 1.2345657);

    // Check single shifts are properly taken care of.
    let fp = ExtendedFloat {
        mant: 5178144u64,
        exp: -22,
    };
    assert_eq!(f32::from_bits(fp.into_f32().to_bits()), 1.2345657);

    // Check so are normalize floats.
    let fp = ExtendedFloat {
        mant: 11386859076597055488u64,
        exp: -63,
    };
    assert_eq!(f32::from_bits(fp.into_f32().to_bits()), 1.2345657);
}

#[test]
fn convert_tuple_test() {
    let t = (1u64, 0i32);
    let fp: ExtendedFloat = t.into();
    assert_eq!(
        fp,
        ExtendedFloat {
            mant: 1u64,
            exp: 0
        }
    );
}

#[test]
fn from_float_round_trip_test() {
    for value in [0.0f64, 1.0, 1.5, 5e-324, 2.2250738585072014e-308, 1.7976931348623157e308] {
        let fp = from_float(value.to_bits(), FloatLayout::Double);
        assert_eq!(f64::from_bits(into_float(fp, FloatLayout::Double)), value);
        assert_eq!(f64::from_bits(fp.into_f64().to_bits()), value);
    }
    // 2^53 + 1 lies halfway between two doubles and goes to the even one.
    let fp = ExtendedFloat { mant: (1u64 << 53) + 1, exp: 0 };
    assert_eq!(f64::from_bits(fp.into_f64().to_bits()), 9007199254740992.0);
    let fp = ExtendedFloat { mant: (1u64 << 53) + 3, exp: 0 };
    assert_eq!(f64::from_bits(fp.into_f64().to_bits()), 9007199254740996.0);
}

#[test]
fn into_float_limits_test() {
    // Below the subnormal range is zero, from the largest exponent on is infinity.
    let fp = ExtendedFloat { mant: 1, exp: -1075 };
    assert_eq!(into_float(fp, FloatLayout::Double), 0);
    let fp = ExtendedFloat { mant: 1 << 52, exp: 972 };
    assert_eq!(f64::from_bits(into_float(fp, FloatLayout::Double)), f64::INFINITY);
    let fp = ExtendedFloat { mant: (1 << 53) - 1, exp: 971 };
    assert_eq!(f64::from_bits(into_float(fp, FloatLayout::Double)), f64::MAX);
}

#[test]
fn normalize_test() {
    let (fp, shift) = ExtendedFloat { mant: 0, exp: 0 }.normalize();
    assert_eq!((fp, shift), (ExtendedFloat { mant: 0, exp: 0 }, 0));
    let (fp, shift) = ExtendedFloat { mant: 1, exp: 0 }.normalize();
    assert_eq!((fp, shift), (ExtendedFloat { mant: 1 << 63, exp: -63 }, 63));
    let (fp, shift) = ExtendedFloat { mant: 5178144, exp: -22 }.normalize();
    assert_eq!((fp, shift), (ExtendedFloat { mant: 11386859076597055488, exp: -63 }, 41));
    let (fp, shift) = ExtendedFloat { mant: u64::MAX, exp: 7 }.normalize();
    assert_eq!((fp, shift), (ExtendedFloat { mant: u64::MAX, exp: 7 }, 0));
}

#[test]
fn extended_mul_test() {
    // 1.5 * 1.5 = 2.25
    let a = ExtendedFloat { mant: 3 << 62, exp: -63 };
    let product = a.mul(a);
    assert_eq!(product, ExtendedFloat { mant: 9 << 60, exp: -62 });
    assert_eq!(f64::from_bits(product.into_f64().to_bits()), 2.25);
    // The lower half of the product rounds to nearest.
    let a = ExtendedFloat { mant: (1 << 63) + 1, exp: 0 };
    let b = ExtendedFloat { mant: 1 << 63, exp: 0 };
    assert_eq!(a.mul(b), ExtendedFloat { mant: (1 << 62) + 1, exp: 64 });
    let b = ExtendedFloat { mant: 1 << 62, exp: 0 };
    assert_eq!(a.mul(b), ExtendedFloat { mant: 1 << 61, exp: 64 });
}

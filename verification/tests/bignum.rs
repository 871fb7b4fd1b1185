//! Big integers and the table of bits per digit.

use lexical::bignum::{integral_binary_factor, Bigfloat, Bigint, Order};
use lexical::ExtendedFloat;

#[test]
fn integral_binary_factor_test() {
    const TABLE: [u32; 35] = [
        1, 2, 2, 3, 3, 3, 3, 4, 4, 4, 4, 4, 4, 4, 4, 5, 5, 5, 5, 5, 5, 5, 5, 5, 5, 5, 5, 5, 5,
        5, 5, 6, 6, 6, 6,
    ];
    for (idx, base) in (2..37).enumerate() {
        assert_eq!(integral_binary_factor(base), TABLE[idx]);
    }
}

#[test]
fn bigint_mul_add_small_test() {
    let mut x = Bigint::from_u64(0xFFFF_FFFF_FFFF_FFFF);
    x.mul_add_small(10, 7);
    // 18446744073709551615 * 10 + 7 = 184467440737095516157
    assert_eq!(x.limbs, vec![0xFFFF_FFFD, 0xFFFF_FFFF, 9]);
}

#[test]
fn bigint_compare_and_sub_test() {
    let mut x = Bigint::from_u64(1);
    for _ in 0..40 {
        x.mul_add_small(10, 0);
    }
    let mut y = Bigint::from_u64(1);
    for _ in 0..39 {
        y.mul_add_small(10, 0);
    }
    assert_eq!(x.compare(&y), Order::Greater);
    assert_eq!(y.compare(&x), Order::Less);
    assert_eq!(x.compare(&x.duplicate()), Order::Equal);
    // 10^40 - 10^39 = 9 * 10^39
    x.sub_assign(&y);
    let mut nine = Bigint::from_u64(9);
    for _ in 0..39 {
        nine.mul_add_small(10, 0);
    }
    assert_eq!(x.compare(&nine), Order::Equal);
    assert!(!x.is_zero());
    x.sub_assign(&nine);
    assert!(x.is_zero());
}

#[test]
fn himant_test() {
    assert_eq!(Bigint::new().himant(), (0, false));
    assert_eq!(Bigint::from_u64(1).himant(), (1 << 63, false));
    assert_eq!(Bigint::from_u64(3).himant(), (3 << 62, false));
    assert_eq!(Bigint::from_u64(u64::MAX).himant(), (u64::MAX, false));
    // 2^64 + 1: the lowest bit is shifted out.
    let mut x = Bigint::from_u64(u64::MAX);
    x.mul_add_small(1, 2);
    assert_eq!(x.himant(), (1 << 63, true));
    // 10^30 = 0xC9F2C9CD04674EDEA40000000
    let mut x = Bigint::from_mant(1);
    for _ in 0..30 {
        x.mul_add_small(10, 0);
    }
    assert_eq!(x.himant(), (0xC9F2_C9CD_0467_4EDE, true));
    // 2^100 has nothing below its top bit.
    let mut x = Bigint::from_u64(1);
    for _ in 0..100 {
        x.mul_add_small(2, 0);
    }
    assert_eq!(x.himant(), (1 << 63, false));
}

#[test]
fn bigint_add_test() {
    let mut x = Bigint::from_u64(u64::MAX);
    x.add_assign(&Bigint::from_u64(1));
    assert_eq!(x.limbs, vec![0, 0, 1]);
    let mut y = Bigint::new();
    y.add_assign(&x);
    assert_eq!(y.compare(&x), Order::Equal);
}

#[test]
fn bigfloat_test() {
    let mut x = Bigfloat::default();
    assert_eq!((x.data.limbs.iter().all(|&limb| limb == 0), x.exp), (true, 0));
    x.imul_pow2(5);
    assert_eq!(x.exp, 5);
    let y = ExtendedFloat { mant: 0x1_0000_0003, exp: -7 }.to_bigfloat();
    assert_eq!(y.exp, -7);
    assert_eq!(y.data.himant(), (0x8000_0001_8000_0000, false));
    let mut z = Bigfloat::from_u64(9);
    z.exp = -3;
    z.imul_pow2(u32::MAX / 2);
    assert_eq!(z.exp, (u32::MAX / 2) as i32 - 3);
    assert_eq!(Bigint::default().himant(), (0, false));
}

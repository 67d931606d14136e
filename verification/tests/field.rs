use constraint_engine::field::Field;
use constraint_engine::goldilocks::{Goldilocks, GOLDILOCKS_MODULUS};
use constraint_engine::scalar::Scalar;

fn scalar_order_bytes() -> [u8; 32] {
    // 2^252 + 27742317777372353535851937790883648493, least significant byte first.
    [
        0xed, 0xd3, 0xf5, 0x5c, 0x1a, 0x63, 0x12, 0x58, 0xd6, 0x9c, 0xf7, 0xa2, 0xde, 0xf9, 0xde,
        0x14, 0x00, 0x00, 0x00, 0x00, 0x00, 0x00, 0x00, 0x00, 0x00, 0x00, 0x00, 0x00, 0x00, 0x00,
        0x00, 0x10,
    ]
}

#[test]
fn goldilocks_addition_wraps_at_the_modulus() {
    let a = Goldilocks::new(0xFFFF_FFFF_0000_0000);
    let b = Goldilocks::new(5);
    assert_eq!(a.add(&b).to_u64(), 4);
}

#[test]
fn goldilocks_new_reduces() {
    assert_eq!(Goldilocks::new(GOLDILOCKS_MODULUS).to_u64(), 0);
    assert_eq!(Goldilocks::new(u64::MAX).to_u64(), 0xFFFF_FFFE);
    assert_eq!(Goldilocks::from_u64(7).to_u64(), 7);
}

#[test]
fn goldilocks_multiplication_reduces() {
    // (p - 1)^2 = 1 modulo p.
    let minus_one = Goldilocks::new(GOLDILOCKS_MODULUS - 1);
    assert_eq!(minus_one.mul(&minus_one).to_u64(), 1);
    assert_eq!(Goldilocks::new(1 << 32).mul(&Goldilocks::new(1 << 32)).to_u64(), 0xFFFF_FFFF);
}

#[test]
fn goldilocks_negation() {
    assert_eq!(Goldilocks::zero().neg().to_u64(), 0);
    assert_eq!(Goldilocks::one().neg().to_u64(), GOLDILOCKS_MODULUS - 1);
    assert_eq!(Goldilocks::new(10).neg().add(&Goldilocks::new(10)).to_u64(), 0);
}

#[test]
fn goldilocks_bits() {
    let v = Goldilocks::new(0b1010);
    assert!(!v.bit(0));
    assert!(v.bit(1));
    assert!(!v.bit(2));
    assert!(v.bit(3));
    assert!(!v.bit(63));
    assert!(!v.bit(64));
    assert!(!v.bit(1000));
    assert!(Goldilocks::new(1 << 63).bit(63));
}

#[test]
fn goldilocks_equality() {
    assert!(Goldilocks::new(3).is_equal(&Goldilocks::new(3 + GOLDILOCKS_MODULUS)));
    assert!(!Goldilocks::new(3).is_equal(&Goldilocks::new(4)));
}

#[test]
fn scalar_product_matches_small_integers() {
    let six = Scalar::from_u64(6);
    let seven = Scalar::from_u64(7);
    assert!(six.mul(&seven).is_equal(&Scalar::from_u64(42)));
    assert!(!six.mul(&seven).is_equal(&Scalar::from_u64(41)));
    assert!(!six.mul(&seven).is_equal(&six));
}

#[test]
fn scalar_sum_matches_small_integers() {
    let a = Scalar::from_u64(u64::MAX);
    let b = Scalar::from_u64(1);
    let mut expected = [0u8; 32];
    expected[8] = 1;
    assert_eq!(a.add(&b).to_bytes(), expected);
    assert!(!a.add(&b).is_equal(&a));
}

#[test]
fn scalar_from_u64_is_little_endian() {
    let bytes = Scalar::from_u64(0x0102_0304_0506_0708).to_bytes();
    assert_eq!(&bytes[..8], &[8, 7, 6, 5, 4, 3, 2, 1]);
    assert_eq!(&bytes[8..], &[0u8; 24]);
}

#[test]
fn scalar_identities() {
    let mut one = [0u8; 32];
    one[0] = 1;
    assert_eq!(Scalar::zero().to_bytes(), [0u8; 32]);
    assert_eq!(Scalar::one().to_bytes(), one);
}

#[test]
fn scalar_negation_is_order_minus_value() {
    let mut expected = scalar_order_bytes();
    expected[0] -= 1;
    assert_eq!(Scalar::one().neg().to_bytes(), expected);
    assert!(Scalar::one().neg().add(&Scalar::one()).is_equal(&Scalar::zero()));
    assert_eq!(Scalar::zero().neg().to_bytes(), [0u8; 32]);
}

#[test]
fn scalar_from_bytes_reduces_modulo_the_order() {
    assert_eq!(Scalar::from_bytes_mod_order(scalar_order_bytes()).to_bytes(), [0u8; 32]);
    let mut order_plus_two = scalar_order_bytes();
    order_plus_two[0] += 2;
    assert!(Scalar::from_bytes_mod_order(order_plus_two).is_equal(&Scalar::from_u64(2)));
    let mut small = [0u8; 32];
    small[3] = 9;
    assert_eq!(Scalar::from_bytes_mod_order(small).to_bytes(), small);
}

#[test]
fn scalar_bits() {
    let v = Scalar::from_u64(0x100 | 0b101);
    assert!(v.bit(0));
    assert!(!v.bit(1));
    assert!(v.bit(2));
    assert!(v.bit(8));
    assert!(!v.bit(9));
    assert!(!v.bit(255));
    assert!(!v.bit(256));
    // The order minus one has bit 252 set.
    assert!(Scalar::one().neg().bit(252));
    assert!(!Scalar::one().neg().bit(253));
}

fn le_bytes(low: u64, bit: usize) -> [u8; 32] {
    // low + 2^bit, least significant byte first
    let mut bytes = [0u8; 32];
    bytes[..8].copy_from_slice(&low.to_le_bytes());
    bytes[bit / 8] |= 1 << (bit % 8);
    bytes
}

#[test]
fn scalar_product_of_large_numbers() {
    let a = Scalar::from_bytes_mod_order(le_bytes(12345, 200));
    let b = Scalar::from_bytes_mod_order(le_bytes(999, 190));
    let expected: [u8; 32] = [
        71, 43, 166, 35, 149, 49, 245, 159, 155, 126, 58, 124, 226, 1, 168, 235, 108, 76, 176, 40,
        140, 150, 115, 246, 173, 153, 144, 33, 116, 133, 24, 4,
    ];
    assert_eq!(a.mul(&b).to_bytes(), expected);
}

use constraint_engine::bls_scalar::BlsScalar;
use constraint_engine::checker::{check_synthesized, SatisfiabilityResult};
use constraint_engine::circuit::synthesize_for_proof;
use constraint_engine::cubic::CubicPlusLinearCircuit;
use constraint_engine::error::ProofError;
use constraint_engine::field::Field;
use constraint_engine::range_circuit::RangeProofCircuit;

fn order_bytes() -> [u8; 32] {
    [
        1, 0, 0, 0, 255, 255, 255, 255, 254, 91, 254, 255, 2, 164, 189, 83, 5, 216, 161, 9, 8, 216,
        57, 51, 72, 125, 157, 41, 83, 167, 237, 115,
    ]
}

fn le_bytes(low: u64, bit: usize) -> [u8; 32] {
    let mut bytes = [0u8; 32];
    bytes[..8].copy_from_slice(&low.to_le_bytes());
    bytes[bit / 8] |= 1 << (bit % 8);
    bytes
}

#[test]
fn bls_scalar_identities_and_small_numbers() {
    let mut one = [0u8; 32];
    one[0] = 1;
    assert_eq!(BlsScalar::zero().to_bytes(), [0u8; 32]);
    assert_eq!(BlsScalar::one().to_bytes(), one);
    let bytes = BlsScalar::from_u64(0x0102_0304_0506_0708).to_bytes();
    assert_eq!(&bytes[..8], &[8, 7, 6, 5, 4, 3, 2, 1]);
    assert_eq!(&bytes[8..], &[0u8; 24]);
    assert!(BlsScalar::from_u64(6).mul(&BlsScalar::from_u64(7)).is_equal(&BlsScalar::from_u64(42)));
    assert!(!BlsScalar::from_u64(6).mul(&BlsScalar::from_u64(7)).is_equal(&BlsScalar::from_u64(6)));
    assert!(BlsScalar::from_u64(6).add(&BlsScalar::from_u64(7)).is_equal(&BlsScalar::from_u64(13)));
}

#[test]
fn bls_scalar_reduces_modulo_the_order() {
    assert_eq!(BlsScalar::from_le_bytes_mod_order(order_bytes()).to_bytes(), [0u8; 32]);
    let mut order_plus_two = order_bytes();
    order_plus_two[0] += 2;
    assert!(BlsScalar::from_le_bytes_mod_order(order_plus_two).is_equal(&BlsScalar::from_u64(2)));
    let mut expected = order_bytes();
    expected[0] -= 1;
    assert_eq!(BlsScalar::one().neg().to_bytes(), expected);
    assert!(BlsScalar::one().neg().add(&BlsScalar::one()).is_equal(&BlsScalar::zero()));
    assert_eq!(BlsScalar::zero().neg().to_bytes(), [0u8; 32]);
}

#[test]
fn bls_scalar_arithmetic_on_large_numbers() {
    let a = BlsScalar::from_le_bytes_mod_order(le_bytes(12345, 200));
    let b = BlsScalar::from_le_bytes_mod_order(le_bytes(999, 190));
    let product: [u8; 32] = [
        150, 121, 152, 8, 23, 135, 172, 202, 140, 7, 193, 2, 224, 233, 118, 112, 31, 42, 134, 233,
        83, 65, 83, 238, 223, 105, 177, 16, 214, 112, 118, 29,
    ];
    let sum: [u8; 32] = [
        32, 52, 0, 0, 0, 0, 0, 0, 0, 0, 0, 0, 0, 0, 0, 0, 0, 0, 0, 0, 0, 0, 0, 64, 0, 1, 0, 0, 0,
        0, 0, 0,
    ];
    assert_eq!(a.mul(&b).to_bytes(), product);
    assert_eq!(a.add(&b).to_bytes(), sum);
}

#[test]
fn bls_scalar_bits() {
    let v = BlsScalar::from_u64(0b110);
    assert!(!v.bit(0));
    assert!(v.bit(1));
    assert!(v.bit(2));
    assert!(!v.bit(3));
    assert!(!v.bit(300));
    assert!(BlsScalar::one().neg().bit(254));
    assert!(!BlsScalar::one().neg().bit(255));
}

#[test]
fn circuits_over_the_bls_scalar_field() {
    let cs = synthesize_for_proof::<BlsScalar, _>(&CubicPlusLinearCircuit {
        x: Some(BlsScalar::from_u64(3)),
    })
    .unwrap();
    assert!(cs.assignment().public_inputs[0].is_equal(&BlsScalar::from_u64(31)));
    assert_eq!(check_synthesized(&cs), SatisfiabilityResult::Satisfied);
    let cs = synthesize_for_proof::<BlsScalar, _>(&RangeProofCircuit {
        x: Some(BlsScalar::from_u64(1234567890)),
    })
    .unwrap();
    assert_eq!(cs.num_constraints(), 33);
    let r = synthesize_for_proof::<BlsScalar, _>(&RangeProofCircuit {
        x: Some(BlsScalar::from_u64(1 << 32)),
    });
    assert!(matches!(r, Err(ProofError::ConstraintUnsatisfied(32))));
}

use constraint_engine::checker::{check_synthesized, SatisfiabilityResult};
use constraint_engine::chips::GatedCubicCircuit;
use constraint_engine::circuit::synthesize_for_proof;
use constraint_engine::error::ProofError;
use constraint_engine::field::Field;
use constraint_engine::gated_range::GatedRangeCircuit;
use constraint_engine::pasta_field::PastaFp;

fn order_bytes() -> [u8; 32] {
    [
        1, 0, 0, 0, 237, 48, 45, 153, 27, 249, 76, 9, 252, 152, 70, 34, 0, 0, 0, 0, 0, 0, 0, 0, 0,
        0, 0, 0, 0, 0, 0, 64,
    ]
}

fn le_bytes(low: u64, bit: usize) -> [u8; 32] {
    let mut bytes = [0u8; 32];
    bytes[..8].copy_from_slice(&low.to_le_bytes());
    bytes[bit / 8] |= 1 << (bit % 8);
    bytes
}

#[test]
fn pasta_identities_and_small_numbers() {
    let mut one = [0u8; 32];
    one[0] = 1;
    assert_eq!(PastaFp::zero().to_bytes(), [0u8; 32]);
    assert_eq!(PastaFp::one().to_bytes(), one);
    let bytes = PastaFp::from_u64(0x0102_0304_0506_0708).to_bytes();
    assert_eq!(&bytes[..8], &[8, 7, 6, 5, 4, 3, 2, 1]);
    assert_eq!(&bytes[8..], &[0u8; 24]);
    assert!(PastaFp::from_u64(6).mul(&PastaFp::from_u64(7)).is_equal(&PastaFp::from_u64(42)));
    assert!(!PastaFp::from_u64(6).mul(&PastaFp::from_u64(7)).is_equal(&PastaFp::from_u64(7)));
    assert!(PastaFp::from_u64(6).add(&PastaFp::from_u64(7)).is_equal(&PastaFp::from_u64(13)));
    assert!(!PastaFp::from_u64(6).add(&PastaFp::from_u64(7)).is_equal(&PastaFp::from_u64(6)));
}

#[test]
fn pasta_reduces_modulo_the_order() {
    assert_eq!(PastaFp::from_le_bytes_mod_order(order_bytes()).to_bytes(), [0u8; 32]);
    let mut order_plus_two = order_bytes();
    order_plus_two[0] += 2;
    assert!(PastaFp::from_le_bytes_mod_order(order_plus_two).is_equal(&PastaFp::from_u64(2)));
    let all_ones: [u8; 32] = [
        252, 255, 255, 255, 56, 109, 120, 52, 173, 20, 25, 228, 11, 53, 44, 153, 255, 255, 255, 255,
        255, 255, 255, 255, 255, 255, 255, 255, 255, 255, 255, 63,
    ];
    assert_eq!(PastaFp::from_le_bytes_mod_order([255u8; 32]).to_bytes(), all_ones);
    let mut expected = order_bytes();
    expected[0] -= 1;
    assert_eq!(PastaFp::one().neg().to_bytes(), expected);
    assert!(PastaFp::one().neg().add(&PastaFp::one()).is_equal(&PastaFp::zero()));
    assert_eq!(PastaFp::zero().neg().to_bytes(), [0u8; 32]);
}

#[test]
fn pasta_product_of_large_numbers() {
    let a = PastaFp::from_le_bytes_mod_order(le_bytes(12345, 200));
    let b = PastaFp::from_le_bytes_mod_order(le_bytes(999, 190));
    let product: [u8; 32] = [
        249, 46, 188, 0, 194, 95, 92, 146, 224, 72, 126, 3, 221, 119, 14, 122, 18, 255, 255, 255,
        255, 18, 207, 18, 117, 215, 10, 179, 246, 3, 103, 57,
    ];
    assert_eq!(a.mul(&b).to_bytes(), product);
    assert!(PastaFp::one().neg().bit(254));
    assert!(!PastaFp::one().neg().bit(255));
    assert!(!PastaFp::from_u64(2).bit(0));
    assert!(PastaFp::from_u64(2).bit(1));
}

#[test]
fn gated_circuits_over_the_pallas_base_field() {
    let cs = synthesize_for_proof::<PastaFp, _>(&GatedCubicCircuit { x: Some(PastaFp::from_u64(3)) })
        .unwrap();
    assert!(cs.assignment().public_inputs[0].is_equal(&PastaFp::from_u64(35)));
    assert_eq!(check_synthesized(&cs), SatisfiabilityResult::Satisfied);
    let cs = synthesize_for_proof::<PastaFp, _>(&GatedRangeCircuit { input: Some(12345678) }).unwrap();
    assert_eq!(cs.num_constraints(), 33);
    let r = synthesize_for_proof::<PastaFp, _>(&GatedRangeCircuit { input: Some(1 << 40) });
    assert!(matches!(r, Err(ProofError::ConstraintUnsatisfied(32))));
}

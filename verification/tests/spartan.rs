use constraint_engine::circuit::synthesize_for_proof;
use constraint_engine::cubic::CubicPlusLinearCircuit;
use constraint_engine::error::ProofError;
use constraint_engine::field::Field;
use constraint_engine::scalar::Scalar;
use constraint_engine::spartan::{column_index, encode_scalars, export_r1cs, is_rank1_system, spartan_check};
use constraint_engine::spartan_range::{
    build_rangeproof_r1cs, confirm, produce_rangeproof_r1cs, rangeproof_r1cs, RANGE_PROOF_VALUE,
};
use constraint_engine::variable::Variable;
use libspartan::{InputsAssignment, Instance, SNARKGens, VarsAssignment, SNARK};
use merlin::Transcript;

fn scalar_bytes(x: u64) -> [u8; 32] {
    Scalar::from_u64(x).to_bytes()
}

#[test]
fn columns_follow_the_spartan_layout() {
    assert_eq!(column_index(Variable::witness(4), 32), 4);
    assert_eq!(column_index(Variable::one(), 32), 32);
    assert_eq!(column_index(Variable::public_input(0), 32), 33);
    assert_eq!(column_index(Variable::public_input(2), 32), 35);
}

#[test]
fn cubic_circuit_as_sparse_matrices() {
    let cs = synthesize_for_proof::<Scalar, _>(&CubicPlusLinearCircuit { x: Some(Scalar::from_u64(3)) }).unwrap();
    assert!(is_rank1_system(&cs));
    let m = export_r1cs(&cs).unwrap();
    assert_eq!((m.num_cons, m.num_vars, m.num_inputs), (3, 3, 1));
    let one = scalar_bytes(1);
    assert_eq!(m.a, vec![(0, 0, one), (1, 1, one), (2, 2, one), (2, 0, one), (2, 3, one)]);
    assert_eq!(m.b, vec![(0, 0, one), (1, 0, one), (2, 3, one)]);
    assert_eq!(m.c, vec![(0, 1, one), (1, 2, one), (2, 4, one)]);
    assert_eq!(m.num_non_zero_entries(), 5);
    let vars = encode_scalars(&cs.assignment().witnesses);
    let inputs = encode_scalars(&cs.assignment().public_inputs);
    assert_eq!(vars, vec![scalar_bytes(3), scalar_bytes(9), scalar_bytes(27)]);
    assert_eq!(inputs, vec![scalar_bytes(31)]);
    assert_eq!(spartan_check(&m, &vars, &inputs), Some(true));
    assert_eq!(spartan_check(&m, &vars, &vec![scalar_bytes(32)]), Some(false));
    assert_eq!(spartan_check(&m, &vars, &vec![]), None);
}

#[test]
fn spartan_proves_and_verifies_the_cubic_example() {
    let cs = synthesize_for_proof::<Scalar, _>(&CubicPlusLinearCircuit { x: Some(Scalar::from_u64(3)) }).unwrap();
    let m = export_r1cs(&cs).unwrap();
    let vars = encode_scalars(&cs.assignment().witnesses);
    let inputs = encode_scalars(&cs.assignment().public_inputs);
    let inst = Instance::new(m.num_cons, m.num_vars, m.num_inputs, &m.a, &m.b, &m.c).unwrap();
    let gens = SNARKGens::new(m.num_cons, m.num_vars, m.num_inputs, m.num_non_zero_entries());
    let (comm, decomm) = SNARK::encode(&inst, &gens);
    let assignment_vars = VarsAssignment::new(&vars).unwrap();
    let assignment_inputs = InputsAssignment::new(&inputs).unwrap();
    let mut prover_transcript = Transcript::new(b"cubic");
    let proof = SNARK::prove(
        &inst,
        &comm,
        &decomm,
        assignment_vars,
        &assignment_inputs,
        &gens,
        &mut prover_transcript,
    );
    let mut verifier_transcript = Transcript::new(b"cubic");
    assert!(proof.verify(&comm, &assignment_inputs, &mut verifier_transcript, &gens).is_ok());
    let wrong_inputs = InputsAssignment::new(&[scalar_bytes(32)]).unwrap();
    let mut verifier_transcript = Transcript::new(b"cubic");
    assert!(proof.verify(&comm, &wrong_inputs, &mut verifier_transcript, &gens).is_err());
}

#[test]
fn rangeproof_instance_for_the_benchmark_value() {
    assert_eq!(RANGE_PROOF_VALUE, 1234);
    let inst = produce_rangeproof_r1cs().unwrap();
    assert_eq!(inst.matrices.num_cons, 33);
    assert_eq!(inst.matrices.num_vars, 32);
    assert_eq!(inst.matrices.num_inputs, 1);
    assert_eq!(inst.matrices.a.len(), 64);
    assert_eq!(inst.matrices.b.len(), 65);
    assert_eq!(inst.matrices.c.len(), 1);
    assert_eq!(inst.num_non_zero_entries, 65);
    assert_eq!(inst.inputs, vec![scalar_bytes(1234)]);
    let bits: u64 = inst
        .vars
        .iter()
        .enumerate()
        .map(|(i, b)| if *b == scalar_bytes(1) { 1u64 << i } else { 0 })
        .sum();
    assert_eq!(bits, 1234);
    // Row 32 of A weighs bit i with 2^i; C points at the public input.
    assert_eq!(inst.matrices.a[32 + 10], (32, 10, scalar_bytes(1 << 10)));
    assert_eq!(inst.matrices.c[0], (32, 33, scalar_bytes(1)));
    assert_eq!(inst.matrices.b[64], (32, 32, scalar_bytes(1)));
    assert_eq!(inst.matrices.b[1], (0, 0, Scalar::one().neg().to_bytes()));
    assert_eq!(spartan_check(&inst.matrices, &inst.vars, &inst.inputs), Some(true));
}

#[test]
fn spartan_rejects_a_flipped_bit() {
    let inst = build_rangeproof_r1cs(1234567890);
    assert_eq!(spartan_check(&inst.matrices, &inst.vars, &inst.inputs), Some(true));
    let mut vars = inst.vars.clone();
    vars[3] = if vars[3] == scalar_bytes(1) { scalar_bytes(0) } else { scalar_bytes(1) };
    assert_eq!(spartan_check(&inst.matrices, &vars, &inst.inputs), Some(false));
    assert_eq!(spartan_check(&inst.matrices, &inst.vars, &vec![scalar_bytes(1234567891)]), Some(false));
    assert!(rangeproof_r1cs(u32::MAX).is_ok());
    assert!(rangeproof_r1cs(0).is_ok());
}

#[test]
fn confirm_needs_spartan_to_say_yes() {
    assert!(confirm(build_rangeproof_r1cs(7), Some(true)).is_ok());
    assert!(matches!(confirm(build_rangeproof_r1cs(7), Some(false)), Err(ProofError::VerificationFailed)));
    assert!(matches!(confirm(build_rangeproof_r1cs(7), None), Err(ProofError::VerificationFailed)));
}

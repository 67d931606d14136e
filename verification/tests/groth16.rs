use ark_bls12_381::{Bls12_381, Fr};
use ark_ff::{BigInteger, PrimeField};
use ark_groth16::{prepare_verifying_key, Groth16};
use ark_relations::r1cs::{
    ConstraintSynthesizer, ConstraintSystem as ArkSystem, ConstraintSystemRef,
    LinearCombination as ArkCombination, SynthesisError as ArkError, Variable as ArkVariable,
};
use ark_std::rand::rngs::StdRng;
use ark_std::rand::SeedableRng;
use ark_std::UniformRand;

use constraint_engine::bls_scalar::BlsScalar;
use constraint_engine::checker::{check_synthesized, SatisfiabilityResult};
use constraint_engine::circuit::{synthesize_for_proof, synthesize_for_setup, verification_outcome};
use constraint_engine::gadgets::enforce_boolean;
use constraint_engine::constraint::Constraint;
use constraint_engine::cubic::CubicPlusLinearCircuit;
use constraint_engine::error::ProofError;
use constraint_engine::field::Field;
use constraint_engine::lc::LinearCombination;
use constraint_engine::range_circuit::RangeProofCircuit;
use constraint_engine::system::{ConstraintSystem, Mode};
use constraint_engine::variable::VariableKind;

fn to_fr(x: &BlsScalar) -> Fr {
    Fr::from_le_bytes_mod_order(&x.to_bytes())
}

fn from_fr(x: &Fr) -> BlsScalar {
    let mut bytes = [0u8; 32];
    bytes.copy_from_slice(&x.into_bigint().to_bytes_le());
    BlsScalar::from_le_bytes_mod_order(bytes)
}

struct Replay<'a> {
    system: &'a ConstraintSystem<BlsScalar>,
}

fn combination(
    lc: &LinearCombination<BlsScalar>,
    inputs: &[ArkVariable],
    witnesses: &[ArkVariable],
) -> ArkCombination<Fr> {
    let mut out = ArkCombination::zero();
    for i in 0..lc.len() {
        let term = lc.term(i);
        let variable = match term.var.kind {
            VariableKind::ConstantOne => ArkVariable::One,
            VariableKind::PublicInput => inputs[term.var.index],
            VariableKind::Witness => witnesses[term.var.index],
        };
        out = out + (to_fr(&term.coeff), variable);
    }
    out
}

impl ConstraintSynthesizer<Fr> for Replay<'_> {
    fn generate_constraints(self, cs: ConstraintSystemRef<Fr>) -> Result<(), ArkError> {
        let values = self.system.assignment();
        let proving = self.system.mode() == Mode::Proving;
        let mut inputs = Vec::new();
        for i in 0..self.system.num_public_inputs() {
            let value = if proving { values.public_inputs.get(i).map(to_fr) } else { None };
            inputs.push(cs.new_input_variable(|| value.ok_or(ArkError::AssignmentMissing))?);
        }
        let mut witnesses = Vec::new();
        for i in 0..self.system.num_witnesses() {
            let value = if proving { values.witnesses.get(i).map(to_fr) } else { None };
            witnesses.push(cs.new_witness_variable(|| value.ok_or(ArkError::AssignmentMissing))?);
        }
        for i in 0..self.system.num_constraints() {
            match self.system.constraint(i) {
                Constraint::Rank1 { a, b, c } => cs.enforce_constraint(
                    combination(a, &inputs, &witnesses),
                    combination(b, &inputs, &witnesses),
                    combination(c, &inputs, &witnesses),
                )?,
                Constraint::Gated { .. } => return Err(ArkError::Unsatisfiable),
            }
        }
        Ok(())
    }
}

#[test]
fn test_cube_plus_one_groth16() {
    let mut rng = StdRng::seed_from_u64(7);

    // Create parameters for the circuit.
    let structure = synthesize_for_setup::<BlsScalar, _>(&CubicPlusLinearCircuit { x: None });
    let pk = Groth16::<Bls12_381>::generate_random_parameters_with_reduction(
        Replay { system: &structure },
        &mut rng,
    )
    .unwrap();

    // Generate a random x and compute x^3 + x + 1.
    let x = Fr::rand(&mut rng);
    let out = x * x * x + x + Fr::from(1u64);

    // Create an instance of the circuit (with the witness).
    let system =
        synthesize_for_proof::<BlsScalar, _>(&CubicPlusLinearCircuit { x: Some(from_fr(&x)) })
            .unwrap();
    assert!(system.assignment().public_inputs[0].is_equal(&from_fr(&out)));

    // Create a groth16 proof with the parameters.
    let proof = Groth16::<Bls12_381>::create_random_proof_with_reduction(
        Replay { system: &system },
        &pk,
        &mut rng,
    )
    .unwrap();

    // Prepare the verification key (for proof verification).
    let pvk = prepare_verifying_key(&pk.vk);

    // Check the proof.
    assert!(Groth16::<Bls12_381>::verify_proof(&pvk, &proof, &[out]).unwrap());
    println!("Proof verified successfully!");
}

#[test]
fn groth16_accepts_thirty_one_and_rejects_thirty_two() {
    let mut rng = StdRng::seed_from_u64(11);
    let structure = synthesize_for_setup::<BlsScalar, _>(&CubicPlusLinearCircuit { x: None });
    let pk = Groth16::<Bls12_381>::generate_random_parameters_with_reduction(
        Replay { system: &structure },
        &mut rng,
    )
    .unwrap();
    let pvk = prepare_verifying_key(&pk.vk);
    let system = synthesize_for_proof::<BlsScalar, _>(&CubicPlusLinearCircuit {
        x: Some(BlsScalar::from_u64(3)),
    })
    .unwrap();
    let proof = Groth16::<Bls12_381>::create_random_proof_with_reduction(
        Replay { system: &system },
        &pk,
        &mut rng,
    )
    .unwrap();
    let accepted = Groth16::<Bls12_381>::verify_proof(&pvk, &proof, &[Fr::from(31u64)]).ok();
    assert_eq!(accepted, Some(true));
    assert_eq!(verification_outcome(accepted), Ok(()));
    let rejected = Groth16::<Bls12_381>::verify_proof(&pvk, &proof, &[Fr::from(32u64)]).ok();
    assert_eq!(rejected, Some(false));
    assert_eq!(verification_outcome(rejected), Err(ProofError::VerificationFailed));
    // A wrong number of public inputs is an error of the backend, and no acceptance.
    let malformed = Groth16::<Bls12_381>::verify_proof(&pvk, &proof, &[]).ok();
    assert_eq!(verification_outcome(malformed), Err(ProofError::VerificationFailed));
}

#[test]
fn groth16_proves_the_range_circuit() {
    let mut rng = StdRng::seed_from_u64(13);
    let structure = synthesize_for_setup::<BlsScalar, _>(&RangeProofCircuit { x: None });
    let pk = Groth16::<Bls12_381>::generate_random_parameters_with_reduction(
        Replay { system: &structure },
        &mut rng,
    )
    .unwrap();
    let pvk = prepare_verifying_key(&pk.vk);
    let system = synthesize_for_proof::<BlsScalar, _>(&RangeProofCircuit {
        x: Some(BlsScalar::from_u64(1234567890)),
    })
    .unwrap();
    let proof = Groth16::<Bls12_381>::create_random_proof_with_reduction(
        Replay { system: &system },
        &pk,
        &mut rng,
    )
    .unwrap();
    let public: Vec<Fr> = system.assignment().public_inputs.iter().map(to_fr).collect();
    assert_eq!(public, vec![Fr::from(1234567890u64)]);
    assert!(Groth16::<Bls12_381>::verify_proof(&pvk, &proof, &public).unwrap());
    assert!(!Groth16::<Bls12_381>::verify_proof(&pvk, &proof, &[Fr::from(1234567891u64)]).unwrap());
}

fn ark_is_satisfied(system: &ConstraintSystem<BlsScalar>) -> bool {
    let cs = ArkSystem::<Fr>::new_ref();
    Replay { system }.generate_constraints(cs.clone()).unwrap();
    cs.is_satisfied().unwrap()
}

#[test]
fn checker_agrees_with_the_constraint_system_of_the_backend() {
    // Boolean gadget on 0, 1, 2 and on minus one.
    for (value, expected) in [
        (BlsScalar::zero(), true),
        (BlsScalar::one(), true),
        (BlsScalar::from_u64(2), false),
        (BlsScalar::one().neg(), false),
    ] {
        let mut cs = ConstraintSystem::<BlsScalar>::new(Mode::Proving);
        let b = cs.allocate_witness(|| Ok(value)).unwrap();
        enforce_boolean(&mut cs, b).unwrap();
        assert_eq!(check_synthesized(&cs) == SatisfiabilityResult::Satisfied, expected);
        assert_eq!(ark_is_satisfied(&cs), expected);
    }
    // Range circuit in and out of range.
    for (value, expected) in [(0u64, true), (u32::MAX as u64, true), (1 << 32, false), (u64::MAX, false)] {
        let mut cs = ConstraintSystem::<BlsScalar>::new(Mode::Proving);
        RangeProofCircuit { x: Some(BlsScalar::from_u64(value)) }
            .generate_constraints(&mut cs)
            .unwrap();
        assert_eq!(check_synthesized(&cs) == SatisfiabilityResult::Satisfied, expected);
        assert_eq!(ark_is_satisfied(&cs), expected);
    }
}

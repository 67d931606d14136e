use constraint_engine::assignment::Assignment;
use constraint_engine::checker::{check, check_synthesized, SatisfiabilityResult};
use constraint_engine::error::SynthesisError;
use constraint_engine::field::Field;
use constraint_engine::gadgets::{enforce_boolean, enforce_equal, enforce_equal_bytes};
use constraint_engine::goldilocks::{Goldilocks, GOLDILOCKS_MODULUS};
use constraint_engine::range::enforce_range;
use constraint_engine::scalar::Scalar;
use constraint_engine::system::{ConstraintSystem, Mode};
use constraint_engine::variable::Variable;

fn g(x: u64) -> Goldilocks {
    Goldilocks::new(x)
}

fn boolean_verdict<F: Field>(v: F) -> SatisfiabilityResult {
    let mut cs = ConstraintSystem::<F>::new(Mode::Proving);
    let b = cs.allocate_witness(|| Ok(v)).unwrap();
    enforce_boolean(&mut cs, b).unwrap();
    assert_eq!(cs.num_constraints(), 1);
    check_synthesized(&cs)
}

#[test]
fn boolean_gadget_accepts_zero_and_one_only() {
    assert_eq!(boolean_verdict(g(0)), SatisfiabilityResult::Satisfied);
    assert_eq!(boolean_verdict(g(1)), SatisfiabilityResult::Satisfied);
    assert_eq!(boolean_verdict(g(2)), SatisfiabilityResult::Violated(0));
    assert_eq!(boolean_verdict(g(GOLDILOCKS_MODULUS - 1)), SatisfiabilityResult::Violated(0));
    assert_eq!(boolean_verdict(g(1 << 40)), SatisfiabilityResult::Violated(0));
}

#[test]
fn boolean_gadget_over_the_scalar_field() {
    assert_eq!(boolean_verdict(Scalar::zero()), SatisfiabilityResult::Satisfied);
    assert_eq!(boolean_verdict(Scalar::one()), SatisfiabilityResult::Satisfied);
    assert_eq!(boolean_verdict(Scalar::from_u64(2)), SatisfiabilityResult::Violated(0));
    assert_eq!(boolean_verdict(Scalar::one().neg()), SatisfiabilityResult::Violated(0));
}

#[test]
fn boolean_gadget_refuses_a_foreign_variable() {
    let mut cs = ConstraintSystem::<Goldilocks>::new(Mode::Setup);
    assert_eq!(
        enforce_boolean(&mut cs, Variable::witness(0)),
        Err(SynthesisError::MalformedConstraint)
    );
    assert_eq!(cs.num_constraints(), 0);
}

#[test]
fn equal_gadget_compares_two_variables() {
    let mut cs = ConstraintSystem::<Goldilocks>::new(Mode::Proving);
    let a = cs.allocate_witness(|| Ok(g(5))).unwrap();
    let b = cs.allocate_public_input(|| Ok(g(5))).unwrap();
    let c = cs.allocate_witness(|| Ok(g(6))).unwrap();
    enforce_equal(&mut cs, a, b).unwrap();
    assert_eq!(check_synthesized(&cs), SatisfiabilityResult::Satisfied);
    enforce_equal(&mut cs, a, a).unwrap();
    assert_eq!(check_synthesized(&cs), SatisfiabilityResult::Satisfied);
    enforce_equal(&mut cs, c, b).unwrap();
    assert_eq!(check_synthesized(&cs), SatisfiabilityResult::Violated(2));
}

fn equality_verdict(computed: &[u8], expected: &[u8]) -> SatisfiabilityResult {
    let mut cs = ConstraintSystem::<Goldilocks>::new(Mode::Proving);
    let mut xs = Vec::new();
    let mut ys = Vec::new();
    for &b in computed {
        xs.push(cs.allocate_witness(|| Ok(g(b as u64))).unwrap());
    }
    for &b in expected {
        ys.push(cs.allocate_public_input(|| Ok(g(b as u64))).unwrap());
    }
    enforce_equal_bytes(&mut cs, &xs, &ys).unwrap();
    assert_eq!(cs.num_constraints(), computed.len());
    check_synthesized(&cs)
}

#[test]
fn equality_gadget_points_at_the_differing_byte() {
    let digest: Vec<u8> = (0u8..32).map(|i| i.wrapping_mul(37).wrapping_add(11)).collect();
    assert_eq!(equality_verdict(&digest, &digest), SatisfiabilityResult::Satisfied);
    for k in 0..32 {
        let mut other = digest.clone();
        other[k] ^= 0x40;
        assert_eq!(equality_verdict(&digest, &other), SatisfiabilityResult::Violated(k));
        assert_eq!(equality_verdict(&other, &digest), SatisfiabilityResult::Violated(k));
    }
}

#[test]
fn equality_gadget_reports_the_first_of_two_differences() {
    let a = [1u8, 2, 3, 4];
    let b = [1u8, 9, 3, 9];
    assert_eq!(equality_verdict(&a, &b), SatisfiabilityResult::Violated(1));
    assert_eq!(equality_verdict(&[], &[]), SatisfiabilityResult::Satisfied);
}

#[test]
fn equality_gadget_refuses_foreign_variables_and_records_nothing() {
    let mut cs = ConstraintSystem::<Goldilocks>::new(Mode::Setup);
    let a = cs.allocate_witness(|| Ok(g(0))).unwrap();
    let xs = vec![a, a];
    let ys = vec![a, Variable::witness(7)];
    assert_eq!(enforce_equal_bytes(&mut cs, &xs, &ys), Err(SynthesisError::MalformedConstraint));
    assert_eq!(cs.num_constraints(), 0);
}

fn range_system(x: u64, n: usize) -> (ConstraintSystem<Goldilocks>, Vec<Variable>) {
    let mut cs = ConstraintSystem::<Goldilocks>::new(Mode::Proving);
    let v = cs.allocate_public_input(|| Ok(g(x))).unwrap();
    let bits = enforce_range(&mut cs, v, n).unwrap();
    (cs, bits)
}

#[test]
fn range_gadget_decomposes_little_endian() {
    let (cs, bits) = range_system(0b1101, 6);
    assert_eq!(bits, (0..6).map(Variable::witness).collect::<Vec<_>>());
    assert_eq!(cs.num_witnesses(), 6);
    assert_eq!(cs.num_constraints(), 7);
    let values: Vec<u64> = cs.assignment().witnesses.iter().map(|b| b.to_u64()).collect();
    assert_eq!(values, vec![1, 0, 1, 1, 0, 0]);
    assert_eq!(check_synthesized(&cs), SatisfiabilityResult::Satisfied);
}

#[test]
fn range_gadget_accepts_exactly_the_values_below_two_to_the_n() {
    for x in 0..16u64 {
        let (cs, _) = range_system(x, 4);
        assert_eq!(check_synthesized(&cs), SatisfiabilityResult::Satisfied);
    }
    for x in [16u64, 17, 31, 255, 1 << 20, GOLDILOCKS_MODULUS - 1] {
        let (cs, _) = range_system(x, 4);
        // The four boolean constraints hold; the recombination fails.
        assert_eq!(check_synthesized(&cs), SatisfiabilityResult::Violated(4));
    }
    let (cs, _) = range_system(0, 0);
    assert_eq!(check_synthesized(&cs), SatisfiabilityResult::Satisfied);
    let (cs, _) = range_system(1, 0);
    assert_eq!(check_synthesized(&cs), SatisfiabilityResult::Violated(0));
}

#[test]
fn range_example_with_thirty_two_bits() {
    let (cs, bits) = range_system(1234567890, 32);
    assert_eq!(bits.len(), 32);
    assert_eq!(check_synthesized(&cs), SatisfiabilityResult::Satisfied);
    for k in 0..32 {
        let mut witnesses = cs.assignment().witnesses.clone();
        let flipped = 1 - witnesses[k].to_u64();
        witnesses[k] = g(flipped);
        let asg = Assignment {
            public_inputs: cs.assignment().public_inputs.clone(),
            witnesses,
        };
        // The flipped bit is still a bit, so the recombination is what fails.
        assert_eq!(check(&cs, &asg), SatisfiabilityResult::Violated(32));
    }
    // A bit that is no bit fails its own boolean constraint first.
    let mut witnesses = cs.assignment().witnesses.clone();
    witnesses[5] = g(2);
    let asg = Assignment { public_inputs: cs.assignment().public_inputs.clone(), witnesses };
    assert_eq!(check(&cs, &asg), SatisfiabilityResult::Violated(5));
}

#[test]
fn range_gadget_in_setup_mode_has_the_same_shape() {
    let mut cs = ConstraintSystem::<Goldilocks>::new(Mode::Setup);
    let v = cs.allocate_public_input(|| Ok(g(0))).unwrap();
    let bits = enforce_range(&mut cs, v, 32).unwrap();
    assert_eq!(bits.len(), 32);
    assert_eq!(cs.num_witnesses(), 32);
    assert_eq!(cs.num_constraints(), 33);
    assert_eq!(cs.assignment().witnesses.len(), 0);
}

#[test]
fn range_gadget_refuses_a_foreign_variable() {
    let mut cs = ConstraintSystem::<Goldilocks>::new(Mode::Proving);
    assert_eq!(
        enforce_range(&mut cs, Variable::public_input(0), 8),
        Err(SynthesisError::MalformedConstraint)
    );
    assert_eq!(cs.num_witnesses(), 0);
    assert_eq!(cs.num_constraints(), 0);
}

use std::cell::Cell;

use constraint_engine::checker::{check, check_exhaustive, is_complete, SatisfiabilityResult};
use constraint_engine::assignment::Assignment;
use constraint_engine::constraint::Constraint;
use constraint_engine::error::{AssignmentMissing, ProofError, SynthesisError};
use constraint_engine::expression::Expression;
use constraint_engine::field::Field;
use constraint_engine::goldilocks::Goldilocks;
use constraint_engine::lc::LinearCombination;
use constraint_engine::system::{ConstraintSystem, Mode};
use constraint_engine::variable::Variable;

fn g(x: u64) -> Goldilocks {
    Goldilocks::new(x)
}

fn lc(v: Variable) -> LinearCombination<Goldilocks> {
    LinearCombination::from_variable(v)
}

#[test]
fn fresh_system_is_empty() {
    let cs = ConstraintSystem::<Goldilocks>::new(Mode::Setup);
    assert_eq!(cs.mode(), Mode::Setup);
    assert_eq!(cs.num_witnesses(), 0);
    assert_eq!(cs.num_public_inputs(), 0);
    assert_eq!(cs.num_constraints(), 0);
    assert!(cs.has_issued(Variable::one()));
    assert!(!cs.has_issued(Variable::witness(0)));
}

#[test]
fn allocations_return_distinct_variables_in_order() {
    let mut cs = ConstraintSystem::<Goldilocks>::new(Mode::Proving);
    let a = cs.allocate_witness(|| Ok(g(1))).unwrap();
    let b = cs.allocate_public_input(|| Ok(g(2))).unwrap();
    let c = cs.allocate_witness(|| Ok(g(3))).unwrap();
    let d = cs.allocate_public_input(|| Ok(g(4))).unwrap();
    assert_eq!(a, Variable::witness(0));
    assert_eq!(b, Variable::public_input(0));
    assert_eq!(c, Variable::witness(1));
    assert_eq!(d, Variable::public_input(1));
    assert_eq!(cs.num_witnesses(), 2);
    assert_eq!(cs.num_public_inputs(), 2);
    assert_eq!(cs.value_of(c).unwrap().to_u64(), 3);
    assert_eq!(cs.value_of(b).unwrap().to_u64(), 2);
    assert_eq!(cs.value_of(Variable::one()).unwrap().to_u64(), 1);
    assert!(cs.value_of(Variable::witness(2)).is_none());
    assert_eq!(cs.assignment().witnesses.len(), 2);
    assert_eq!(cs.assignment().public_inputs.len(), 2);
}

#[test]
fn setup_mode_skips_the_value_provider() {
    let called = Cell::new(false);
    let mut cs = ConstraintSystem::<Goldilocks>::new(Mode::Setup);
    let v = cs.allocate_witness(|| {
        called.set(true);
        Err(AssignmentMissing)
    });
    assert_eq!(v, Ok(Variable::witness(0)));
    assert!(!called.get());
    let p = cs.allocate_public_input(|| {
        called.set(true);
        Err(AssignmentMissing)
    });
    assert_eq!(p, Ok(Variable::public_input(0)));
    assert!(!called.get());
    assert_eq!(cs.num_witnesses(), 1);
    assert_eq!(cs.num_public_inputs(), 1);
    assert!(cs.value_of(Variable::witness(0)).is_none());
    assert_eq!(cs.assignment().witnesses.len(), 0);
}

#[test]
fn proving_mode_runs_the_provider_once() {
    let calls = Cell::new(0u32);
    let mut cs = ConstraintSystem::<Goldilocks>::new(Mode::Proving);
    let v = cs.allocate_witness(|| {
        calls.set(calls.get() + 1);
        Ok(g(9))
    });
    assert_eq!(v, Ok(Variable::witness(0)));
    assert_eq!(calls.get(), 1);
}

#[test]
fn missing_assignment_aborts_and_changes_nothing() {
    let mut cs = ConstraintSystem::<Goldilocks>::new(Mode::Proving);
    cs.allocate_witness(|| Ok(g(1))).unwrap();
    let r = cs.allocate_witness(|| Err(AssignmentMissing));
    assert_eq!(r, Err(SynthesisError::AssignmentMissing));
    assert_eq!(cs.num_witnesses(), 1);
    let r = cs.allocate_public_input(|| Err(AssignmentMissing));
    assert_eq!(r, Err(SynthesisError::AssignmentMissing));
    assert_eq!(cs.num_public_inputs(), 0);
    assert_eq!(
        ProofError::from_synthesis(SynthesisError::AssignmentMissing),
        ProofError::AssignmentMissing
    );
    assert_eq!(
        ProofError::from_synthesis(SynthesisError::MalformedConstraint),
        ProofError::MalformedConstraint
    );
}

#[test]
fn malformed_constraint_is_refused() {
    let mut cs = ConstraintSystem::<Goldilocks>::new(Mode::Setup);
    let a = cs.allocate_witness(|| Ok(g(1))).unwrap();
    // A forward reference to a witness that is not allocated yet.
    let r = cs.enforce_rank1(lc(a), lc(Variable::witness(1)), lc(a));
    assert_eq!(r, Err(SynthesisError::MalformedConstraint));
    assert_eq!(cs.num_constraints(), 0);
    // A reference to a public input of another system.
    let r = cs.enforce_gated(true, Expression::var(Variable::public_input(0)));
    assert_eq!(r, Err(SynthesisError::MalformedConstraint));
    assert_eq!(cs.num_constraints(), 0);
    let r = cs.enforce_rank1(lc(a), lc(a), lc(Variable::one()));
    assert_eq!(r, Ok(()));
    assert_eq!(cs.num_constraints(), 1);
}

#[test]
fn enforce_never_fails_in_setup_mode_on_issued_variables() {
    let mut cs = ConstraintSystem::<Goldilocks>::new(Mode::Setup);
    let a = cs.allocate_witness(|| Err(AssignmentMissing)).unwrap();
    let b = cs.allocate_public_input(|| Err(AssignmentMissing)).unwrap();
    assert_eq!(cs.enforce_rank1(lc(a), lc(b), lc(a).add(&lc(b))), Ok(()));
    assert_eq!(cs.enforce_gated(false, Expression::var(a).times(Expression::var(b))), Ok(()));
    assert_eq!(cs.num_constraints(), 2);
    assert!(matches!(cs.constraint(0), Constraint::Rank1 { .. }));
    assert!(matches!(cs.constraint(1), Constraint::Gated { selector: false, .. }));
}

#[test]
fn checker_reports_the_first_violation() {
    let mut cs = ConstraintSystem::<Goldilocks>::new(Mode::Proving);
    let a = cs.allocate_witness(|| Ok(g(3))).unwrap();
    let b = cs.allocate_witness(|| Ok(g(4))).unwrap();
    let c = cs.allocate_public_input(|| Ok(g(12))).unwrap();
    cs.enforce_rank1(lc(a), lc(b), lc(c)).unwrap(); // 3 * 4 = 12 holds
    cs.enforce_rank1(lc(a), lc(a), lc(c)).unwrap(); // 3 * 3 = 12 fails
    cs.enforce_rank1(lc(b), lc(b), lc(c)).unwrap(); // 4 * 4 = 12 fails
    cs.enforce_rank1(lc(b), lc(a), lc(c)).unwrap(); // 4 * 3 = 12 holds
    let asg = Assignment {
        public_inputs: cs.assignment().public_inputs.clone(),
        witnesses: cs.assignment().witnesses.clone(),
    };
    assert!(is_complete(&cs, &asg));
    assert_eq!(check(&cs, &asg), SatisfiabilityResult::Violated(1));
    assert_eq!(check_exhaustive(&cs, &asg), vec![1, 2]);
    let good = Assignment { public_inputs: vec![g(16)], witnesses: vec![g(4), g(4)] };
    assert_eq!(check(&cs, &good), SatisfiabilityResult::Satisfied);
    assert_eq!(check_exhaustive(&cs, &good), Vec::<usize>::new());
    let short = Assignment { public_inputs: vec![], witnesses: vec![g(4), g(4)] };
    assert!(!is_complete(&cs, &short));
}

#[test]
fn checker_leaves_system_and_assignment_alone() {
    let mut cs = ConstraintSystem::<Goldilocks>::new(Mode::Proving);
    let a = cs.allocate_witness(|| Ok(g(3))).unwrap();
    cs.enforce_rank1(lc(a), lc(a), lc(a)).unwrap();
    let asg = Assignment { public_inputs: vec![], witnesses: vec![g(3)] };
    let first = check(&cs, &asg);
    let second = check(&cs, &asg);
    assert_eq!(first, second);
    assert_eq!(first, SatisfiabilityResult::Violated(0));
    assert_eq!(cs.num_constraints(), 1);
    assert_eq!(asg.witnesses[0].to_u64(), 3);
}

#[test]
fn gated_constraint_is_ignored_when_the_selector_is_off() {
    let mut cs = ConstraintSystem::<Goldilocks>::new(Mode::Proving);
    let a = cs.allocate_witness(|| Ok(g(3))).unwrap();
    // a - 4 = 0 does not hold.
    cs.enforce_gated(false, Expression::var(a).minus(Expression::constant(g(4)))).unwrap();
    let asg = Assignment { public_inputs: vec![], witnesses: vec![g(3)] };
    assert_eq!(check(&cs, &asg), SatisfiabilityResult::Satisfied);
    cs.enforce_gated(true, Expression::var(a).minus(Expression::constant(g(4)))).unwrap();
    assert_eq!(check(&cs, &asg), SatisfiabilityResult::Violated(1));
    let fixed = Assignment { public_inputs: vec![], witnesses: vec![g(4)] };
    assert_eq!(check(&cs, &fixed), SatisfiabilityResult::Satisfied);
}

#[test]
fn expression_evaluates_polynomials() {
    // (w0 + 2) * w1 - p0
    let e = Expression::var(Variable::witness(0))
        .plus(Expression::constant(g(2)))
        .times(Expression::var(Variable::witness(1)))
        .minus(Expression::var(Variable::public_input(0)));
    let asg = Assignment { public_inputs: vec![g(5)], witnesses: vec![g(3), g(7)] };
    assert!(e.closed_in(1, 2));
    assert!(!e.closed_in(0, 2));
    assert_eq!(e.evaluate(&asg).to_u64(), 30);
    assert_eq!(e.duplicate().evaluate(&asg).to_u64(), 30);
    assert_eq!(Expression::var(Variable::witness(0)).negated().evaluate(&asg).to_u64(),
        Goldilocks::new(3).neg().to_u64());
}

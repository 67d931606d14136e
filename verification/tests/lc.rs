use constraint_engine::assignment::Assignment;
use constraint_engine::field::Field;
use constraint_engine::goldilocks::{Goldilocks, GOLDILOCKS_MODULUS};
use constraint_engine::lc::LinearCombination;
use constraint_engine::variable::{Variable, VariableKind};

fn g(x: u64) -> Goldilocks {
    Goldilocks::new(x)
}

fn terms(lc: &LinearCombination<Goldilocks>) -> Vec<(Variable, u64)> {
    (0..lc.len()).map(|i| (lc.term(i).var, lc.term(i).coeff.to_u64())).collect()
}

#[test]
fn variables_compare_by_kind_and_index() {
    assert_eq!(Variable::witness(2), Variable { kind: VariableKind::Witness, index: 2 });
    assert_ne!(Variable::witness(2), Variable::public_input(2));
    assert_ne!(Variable::witness(2), Variable::witness(3));
    assert_eq!(Variable::one(), Variable { kind: VariableKind::ConstantOne, index: 0 });
    assert!(Variable::one().is_allocated_in(0, 0));
    assert!(!Variable { kind: VariableKind::ConstantOne, index: 1 }.is_allocated_in(5, 5));
    assert!(Variable::witness(1).is_allocated_in(0, 2));
    assert!(!Variable::witness(2).is_allocated_in(9, 2));
    assert!(!Variable::public_input(0).is_allocated_in(0, 2));
}

#[test]
fn from_variable_has_coefficient_one() {
    let lc = LinearCombination::<Goldilocks>::from_variable(Variable::witness(4));
    assert_eq!(terms(&lc), vec![(Variable::witness(4), 1)]);
    assert_eq!(LinearCombination::<Goldilocks>::zero().len(), 0);
}

#[test]
fn add_merges_shared_variables() {
    let a = LinearCombination::from_variable(Variable::witness(0))
        .add_term(Variable::witness(1), g(5));
    let b = LinearCombination::from_variable(Variable::witness(1))
        .add_term(Variable::public_input(0), g(7));
    let sum = a.add(&b);
    assert_eq!(
        terms(&sum),
        vec![(Variable::witness(0), 1), (Variable::witness(1), 6), (Variable::public_input(0), 7)]
    );
}

#[test]
fn add_keeps_a_coefficient_that_becomes_zero() {
    let a = LinearCombination::from_variable(Variable::witness(0));
    let b = LinearCombination::zero().add_term(Variable::witness(0), g(GOLDILOCKS_MODULUS - 1));
    let sum = a.add(&b);
    assert_eq!(terms(&sum), vec![(Variable::witness(0), 0)]);
}

#[test]
fn scale_multiplies_every_coefficient() {
    let a = LinearCombination::from_variable(Variable::witness(0))
        .add_term(Variable::witness(1), g(5));
    assert_eq!(
        terms(&a.scale(&g(3))),
        vec![(Variable::witness(0), 3), (Variable::witness(1), 15)]
    );
}

#[test]
fn add_constant_uses_the_sentinel() {
    let a = LinearCombination::from_variable(Variable::witness(0)).add_constant(g(9));
    assert_eq!(terms(&a), vec![(Variable::witness(0), 1), (Variable::one(), 9)]);
    let b = a.add_constant(g(1));
    assert_eq!(terms(&b), vec![(Variable::witness(0), 1), (Variable::one(), 10)]);
}

#[test]
fn sub_negates_the_coefficients() {
    let one = LinearCombination::<Goldilocks>::from_variable(Variable::one());
    let b = LinearCombination::from_variable(Variable::witness(0));
    assert_eq!(
        terms(&one.sub(&b)),
        vec![(Variable::one(), 1), (Variable::witness(0), GOLDILOCKS_MODULUS - 1)]
    );
}

#[test]
fn evaluate_takes_the_weighted_sum() {
    // 2 * w0 + 3 * p0 + 4
    let lc = LinearCombination::zero()
        .add_term(Variable::witness(0), g(2))
        .add_term(Variable::public_input(0), g(3))
        .add_constant(g(4));
    let asg = Assignment { public_inputs: vec![g(10)], witnesses: vec![g(100)] };
    assert!(lc.covered_by(&asg));
    assert_eq!(lc.evaluate(&asg).to_u64(), 234);
    let short = Assignment { public_inputs: vec![], witnesses: vec![g(100)] };
    assert!(!lc.covered_by(&short));
}

#[test]
fn evaluation_respects_sum_and_scale() {
    let a = LinearCombination::zero()
        .add_term(Variable::witness(0), g(2))
        .add_term(Variable::witness(1), g(GOLDILOCKS_MODULUS - 3));
    let b = LinearCombination::zero()
        .add_term(Variable::witness(1), g(11))
        .add_constant(g(5));
    let asg = Assignment { public_inputs: vec![], witnesses: vec![g(7), g(13)] };
    let lhs = a.add(&b).evaluate(&asg);
    let rhs = a.evaluate(&asg).add(&b.evaluate(&asg));
    assert!(lhs.is_equal(&rhs));
    assert_eq!(lhs.to_u64(), 2 * 7 + 8 * 13 + 5);
    let scaled = a.scale(&g(6)).evaluate(&asg);
    assert!(scaled.is_equal(&a.evaluate(&asg).mul(&g(6))));
}

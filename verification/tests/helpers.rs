use constraint_engine::assignment::Assignment;
use constraint_engine::bytes::{byte_bit, le_bytes_bit, le_bytes_equal};
use constraint_engine::checker::{check_synthesized, SatisfiabilityResult};
use constraint_engine::constraint::Constraint;
use constraint_engine::error::SynthesisError;
use constraint_engine::gadgets::all_issued_in;
use constraint_engine::gated_range::bit_gate;
use constraint_engine::goldilocks::Goldilocks;
use constraint_engine::lc::LinearCombination;
use constraint_engine::system::{ConstraintSystem, Mode};
use constraint_engine::variable::Variable;

#[test]
fn bits_of_a_byte() {
    assert!(byte_bit(0b1000_0001, 0));
    assert!(!byte_bit(0b1000_0001, 1));
    assert!(byte_bit(0b1000_0001, 7));
    assert!(!byte_bit(0, 3));
}

#[test]
fn encodings_compare_and_give_bits() {
    let mut a = [0u8; 32];
    a[0] = 5;
    a[31] = 0x80;
    let mut b = a;
    assert!(le_bytes_equal(&a, &b));
    b[17] = 1;
    assert!(!le_bytes_equal(&a, &b));
    assert!(le_bytes_bit(&a, 0));
    assert!(!le_bytes_bit(&a, 1));
    assert!(le_bytes_bit(&a, 2));
    assert!(le_bytes_bit(&a, 255));
    assert!(!le_bytes_bit(&a, 254));
    assert!(!le_bytes_bit(&a, 256));
    assert!(le_bytes_bit(&b, 136));
}

#[test]
fn assignment_knows_what_it_covers() {
    let asg = Assignment {
        public_inputs: vec![Goldilocks::new(1)],
        witnesses: vec![Goldilocks::new(2), Goldilocks::new(3)],
    };
    assert!(asg.covers(Variable::one()));
    assert!(asg.covers(Variable::public_input(0)));
    assert!(!asg.covers(Variable::public_input(1)));
    assert!(asg.covers(Variable::witness(1)));
    assert!(!asg.covers(Variable::witness(2)));
    assert_eq!(asg.value_of(Variable::witness(1)).to_u64(), 3);
    assert_eq!(asg.value_of(Variable::one()).to_u64(), 1);
}

#[test]
fn enforce_takes_any_constraint() {
    let mut cs = ConstraintSystem::<Goldilocks>::new(Mode::Proving);
    let b = cs.allocate_witness(|| Ok(Goldilocks::new(1))).unwrap();
    assert!(all_issued_in(&cs, &vec![b, Variable::one()]));
    assert!(!all_issued_in(&cs, &vec![b, Variable::witness(1)]));
    assert_eq!(cs.enforce(Constraint::Gated { selector: true, expr: bit_gate(b) }), Ok(()));
    assert_eq!(
        cs.enforce(Constraint::Rank1 {
            a: LinearCombination::from_variable(b),
            b: LinearCombination::from_variable(b),
            c: LinearCombination::from_variable(b),
        }),
        Ok(())
    );
    assert_eq!(
        cs.enforce(Constraint::Gated { selector: false, expr: bit_gate(Variable::witness(3)) }),
        Err(SynthesisError::MalformedConstraint)
    );
    assert_eq!(cs.num_constraints(), 2);
    assert_eq!(check_synthesized(&cs), SatisfiabilityResult::Satisfied);
    let mut cs = ConstraintSystem::<Goldilocks>::new(Mode::Proving);
    let b = cs.allocate_witness(|| Ok(Goldilocks::new(7))).unwrap();
    cs.enforce(Constraint::Gated { selector: true, expr: bit_gate(b) }).unwrap();
    assert_eq!(check_synthesized(&cs), SatisfiabilityResult::Violated(0));
}

//! The satisfiability checker: does an assignment fulfil every constraint?

use vstd::prelude::*;
use crate::assignment::{Assignment, AssignmentModel};
use crate::constraint::{constraint_closed, constraint_holds, ConstraintModel};
use crate::field::Field;
use crate::system::{ConstraintSystem, Mode, SystemModel};

verus! {

/// The checker's verdict.
#[derive(Clone, Copy, Debug, PartialEq, Eq, Structural)]
pub enum SatisfiabilityResult {
    /// Every constraint holds.
    Satisfied,
    /// The constraint with this index is the first that does not hold.
    Violated(usize),
}

/// The assignment has one entry for each variable that the system issued.
pub open spec fn complete_for(asg: AssignmentModel, m: SystemModel) -> bool {
    &&& asg.public_inputs.len() == m.num_public_inputs
    &&& asg.witnesses.len() == m.num_witnesses
}

/// Every constraint of the sequence holds.
pub open spec fn all_hold(cs: Seq<ConstraintModel>, asg: AssignmentModel, p: nat) -> bool {
    forall|i: int| 0 <= i < cs.len() ==> constraint_holds(#[trigger] cs[i], asg, p)
}

/// Constraint `i` fails and every earlier one holds.
pub open spec fn first_violation_at(
    cs: Seq<ConstraintModel>,
    asg: AssignmentModel,
    p: nat,
    i: int,
) -> bool {
    &&& 0 <= i < cs.len()
    &&& !constraint_holds(cs[i], asg, p)
    &&& forall|j: int| 0 <= j < i ==> constraint_holds(#[trigger] cs[j], asg, p)
}

/// `r` is the verdict on the constraints `cs` under `asg`.
pub open spec fn is_verdict(
    cs: Seq<ConstraintModel>,
    asg: AssignmentModel,
    p: nat,
    r: SatisfiabilityResult,
) -> bool {
    match r {
        SatisfiabilityResult::Satisfied => all_hold(cs, asg, p),
        SatisfiabilityResult::Violated(i) => first_violation_at(cs, asg, p, i as int),
    }
}

/// There is one verdict only.
pub proof fn lemma_verdict_unique(
    cs: Seq<ConstraintModel>,
    asg: AssignmentModel,
    p: nat,
    r1: SatisfiabilityResult,
    r2: SatisfiabilityResult,
)
    requires
        is_verdict(cs, asg, p, r1),
        is_verdict(cs, asg, p, r2),
    ensures
        r1 == r2,
{
    match (r1, r2) {
        (SatisfiabilityResult::Violated(i), SatisfiabilityResult::Violated(j)) => {
            if i < j {
                assert(constraint_holds(cs[i as int], asg, p));
            } else if j < i {
                assert(constraint_holds(cs[j as int], asg, p));
            }
        },
        (SatisfiabilityResult::Violated(i), SatisfiabilityResult::Satisfied) => {
            assert(constraint_holds(cs[i as int], asg, p));
        },
        (SatisfiabilityResult::Satisfied, SatisfiabilityResult::Violated(j)) => {
            assert(constraint_holds(cs[j as int], asg, p));
        },
        _ => {},
    }
}

/// Whether the assignment has one entry for each variable of the system.
pub fn is_complete<F: Field>(cs: &ConstraintSystem<F>, asg: &Assignment<F>) -> (b: bool)
    ensures
        b == complete_for(asg@, cs@),
{
    asg.public_inputs.len() == cs.num_public_inputs() && asg.witnesses.len()
        == cs.num_witnesses()
}

/// Evaluates the constraints in order and stops at the first that fails.
/// Neither the system nor the assignment is changed.
pub fn check<F: Field>(cs: &ConstraintSystem<F>, asg: &Assignment<F>) -> (r: SatisfiabilityResult)
    requires
        cs@.wf(),
        complete_for(asg@, cs@),
    ensures
        is_verdict(cs@.constraints, asg@, F::modulus(), r),
{
    let n = cs.num_constraints();
    let mut i: usize = 0;
    while i < n
        invariant
            i <= n,
            n == cs@.constraints.len(),
            cs@.wf(),
            complete_for(asg@, cs@),
            forall|j: int|
                0 <= j < i ==> constraint_holds(#[trigger] cs@.constraints[j], asg@, F::modulus()),
        decreases n - i,
    {
        let c = cs.constraint(i);
        assert(constraint_closed(
            cs@.constraints[i as int],
            cs@.num_public_inputs,
            cs@.num_witnesses,
        ));
        if !c.holds(asg) {
            return SatisfiabilityResult::Violated(i);
        }
        i += 1;
    }
    SatisfiabilityResult::Satisfied
}

/// Evaluates every constraint and lists, in ascending order, the indices of
/// all that fail.
pub fn check_exhaustive<F: Field>(cs: &ConstraintSystem<F>, asg: &Assignment<F>) -> (failed: Vec<
    usize,
>)
    requires
        cs@.wf(),
        complete_for(asg@, cs@),
    ensures
        forall|k: int, l: int| 0 <= k < l < failed@.len() ==> failed@[k] < failed@[l],
        forall|k: int|
            0 <= k < failed@.len() ==> (#[trigger] failed@[k]) < cs@.constraints.len()
                && !constraint_holds(cs@.constraints[failed@[k] as int], asg@, F::modulus()),
        forall|i: int|
            0 <= i < cs@.constraints.len() && !constraint_holds(
                #[trigger] cs@.constraints[i],
                asg@,
                F::modulus(),
            ) ==> exists|k: int| 0 <= k < failed@.len() && failed@[k] == i,
{
    let n = cs.num_constraints();
    let mut failed: Vec<usize> = Vec::new();
    let mut i: usize = 0;
    while i < n
        invariant
            i <= n,
            n == cs@.constraints.len(),
            cs@.wf(),
            complete_for(asg@, cs@),
            forall|k: int, l: int| 0 <= k < l < failed@.len() ==> failed@[k] < failed@[l],
            forall|k: int|
                0 <= k < failed@.len() ==> (#[trigger] failed@[k]) < i && !constraint_holds(
                    cs@.constraints[failed@[k] as int],
                    asg@,
                    F::modulus(),
                ),
            forall|j: int|
                0 <= j < i && !constraint_holds(#[trigger] cs@.constraints[j], asg@, F::modulus())
                    ==> exists|k: int| 0 <= k < failed@.len() && failed@[k] == j,
        decreases n - i,
    {
        let c = cs.constraint(i);
        assert(constraint_closed(
            cs@.constraints[i as int],
            cs@.num_public_inputs,
            cs@.num_witnesses,
        ));
        let ghost before = failed@;
        if !c.holds(asg) {
            failed.push(i);
            assert(failed@[before.len() as int] == i);
        }
        assert forall|j: int|
            0 <= j < i + 1 && !constraint_holds(
                #[trigger] cs@.constraints[j],
                asg@,
                F::modulus(),
            ) implies exists|k: int| 0 <= k < failed@.len() && failed@[k] == j by {
            if j < i {
                let k = choose|k: int| 0 <= k < before.len() && before[k] == j;
                assert(failed@[k] == j);
            } else {
                assert(failed@[before.len() as int] == j);
            }
        }
        i += 1;
    }
    failed
}

/// The verdict on the values that a system in proving mode collected
/// during its own synthesis.
pub fn check_synthesized<F: Field>(cs: &ConstraintSystem<F>) -> (r: SatisfiabilityResult)
    requires
        cs@.wf(),
        cs@.mode == Mode::Proving,
    ensures
        is_verdict(cs@.constraints, cs@.values, F::modulus(), r),
{
    check(cs, cs.assignment())
}

} // verus!

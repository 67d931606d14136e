//! Gadgets: reusable compositions of variables and constraints.

use vstd::prelude::*;
use crate::constraint::{constraint_closed, ConstraintModel};
use crate::error::SynthesisError;
use crate::field::Field;
use crate::lc::{difference_of, lemma_closed_difference_of, LinearCombination};
use crate::system::{enforce_outcome, ConstraintSystem, SystemModel};
use crate::variable::{Variable, VariableKind};

verus! {

/// The sentinel variable.
pub open spec fn the_one() -> Variable {
    Variable { kind: VariableKind::ConstantOne, index: 0 }
}

/// The combination `1 * v`.
pub open spec fn just(v: Variable) -> Seq<(Variable, nat)> {
    seq![(v, 1nat)]
}

/// The constraint `b * (1 - b) = 0`.
pub open spec fn boolean_constraint(b: Variable, p: nat) -> ConstraintModel {
    ConstraintModel::Rank1 {
        a: just(b),
        b: difference_of(just(the_one()), just(b), p),
        c: Seq::empty(),
    }
}

/// The constraint `(x - y) * 1 = 0`.
pub open spec fn equality_constraint(x: Variable, y: Variable, p: nat) -> ConstraintModel {
    ConstraintModel::Rank1 {
        a: difference_of(just(x), just(y), p),
        b: just(the_one()),
        c: Seq::empty(),
    }
}

/// One equality constraint for each position of two sequences of equal
/// length.
pub open spec fn equality_constraints(xs: Seq<Variable>, ys: Seq<Variable>, p: nat) -> Seq<
    ConstraintModel,
> {
    Seq::new(xs.len(), |i: int| equality_constraint(xs[i], ys[i], p))
}

/// Every variable of the sequence was issued by the system.
pub open spec fn all_issued(m: SystemModel, vs: Seq<Variable>) -> bool {
    forall|i: int| 0 <= i < vs.len() ==> m.issued(#[trigger] vs[i])
}

/// The boolean constraint mentions `b` and the sentinel only.
pub proof fn lemma_boolean_constraint_closed(b: Variable, p: nat, num_public: nat, num_witness: nat)
    ensures
        constraint_closed(boolean_constraint(b, p), num_public, num_witness) <==> b.allocated_in(
            num_public,
            num_witness,
        ),
{
    lemma_closed_difference_of(just(the_one()), just(b), p, num_public, num_witness);
    assert(just(b)[0].0 == b);
    assert(just(the_one())[0].0 == the_one());
}

/// The equality constraint mentions `x`, `y` and the sentinel only.
pub proof fn lemma_equality_constraint_closed(
    x: Variable,
    y: Variable,
    p: nat,
    num_public: nat,
    num_witness: nat,
)
    ensures
        constraint_closed(equality_constraint(x, y, p), num_public, num_witness) <==> (
        x.allocated_in(num_public, num_witness) && y.allocated_in(num_public, num_witness)),
{
    lemma_closed_difference_of(just(x), just(y), p, num_public, num_witness);
    assert(just(x)[0].0 == x);
    assert(just(y)[0].0 == y);
    assert(just(the_one())[0].0 == the_one());
}

/// Constrains `b` to be a bit: one rank-1 constraint `b * (1 - b) = 0`.
pub fn enforce_boolean<F: Field>(cs: &mut ConstraintSystem<F>, b: Variable) -> (r: Result<
    (),
    SynthesisError,
>)
    requires
        old(cs)@.wf(),
    ensures
        final(cs)@.wf(),
        enforce_outcome(old(cs)@, boolean_constraint(b, F::modulus()), final(cs)@, r),
        r is Ok <==> old(cs)@.issued(b),
{
    proof {
        lemma_boolean_constraint_closed(
            b,
            F::modulus(),
            cs@.num_public_inputs,
            cs@.num_witnesses,
        );
    }
    let a = LinearCombination::from_variable(b);
    let one_minus_b = LinearCombination::from_variable(Variable::one()).sub(
        &LinearCombination::from_variable(b),
    );
    cs.enforce_rank1(a, one_minus_b, LinearCombination::zero())
}

/// Constrains `x` and `y` to be equal: one rank-1 constraint
/// `(x - y) * 1 = 0`.
pub fn enforce_equal<F: Field>(cs: &mut ConstraintSystem<F>, x: Variable, y: Variable) -> (r:
    Result<(), SynthesisError>)
    requires
        old(cs)@.wf(),
    ensures
        final(cs)@.wf(),
        enforce_outcome(old(cs)@, equality_constraint(x, y, F::modulus()), final(cs)@, r),
        r is Ok <==> (old(cs)@.issued(x) && old(cs)@.issued(y)),
{
    proof {
        lemma_equality_constraint_closed(
            x,
            y,
            F::modulus(),
            cs@.num_public_inputs,
            cs@.num_witnesses,
        );
    }
    let diff = LinearCombination::from_variable(x).sub(&LinearCombination::from_variable(y));
    cs.enforce_rank1(diff, LinearCombination::from_variable(Variable::one()), LinearCombination::zero())
}

/// Executable form of `all_issued`.
pub fn all_issued_in<F: Field>(cs: &ConstraintSystem<F>, vs: &Vec<Variable>) -> (b: bool)
    ensures
        b == all_issued(cs@, vs@),
{
    let mut i: usize = 0;
    while i < vs.len()
        invariant
            i <= vs.len(),
            forall|j: int| 0 <= j < i ==> cs@.issued(#[trigger] vs@[j]),
        decreases vs.len() - i,
    {
        if !cs.has_issued(vs[i]) {
            return false;
        }
        i += 1;
    }
    true
}

/// Constrains two sequences of byte-valued variables to agree position by
/// position, with one constraint for each position in order. Where a
/// variable of either sequence was not issued by `cs`, nothing is recorded.
pub fn enforce_equal_bytes<F: Field>(
    cs: &mut ConstraintSystem<F>,
    computed: &Vec<Variable>,
    expected: &Vec<Variable>,
) -> (r: Result<(), SynthesisError>)
    requires
        old(cs)@.wf(),
        computed@.len() == expected@.len(),
    ensures
        final(cs)@.wf(),
        all_issued(old(cs)@, computed@) && all_issued(old(cs)@, expected@) ==> r == Ok::<
            (),
            SynthesisError,
        >(()) && final(cs)@ == (SystemModel {
            constraints: old(cs)@.constraints + equality_constraints(
                computed@,
                expected@,
                F::modulus(),
            ),
            ..old(cs)@
        }),
        !(all_issued(old(cs)@, computed@) && all_issued(old(cs)@, expected@)) ==> r == Err::<
            (),
            SynthesisError,
        >(SynthesisError::MalformedConstraint) && final(cs)@ == old(cs)@,
{
    if !all_issued_in(cs, computed) || !all_issued_in(cs, expected) {
        return Err(SynthesisError::MalformedConstraint);
    }
    let n = computed.len();
    let mut i: usize = 0;
    assert(equality_constraints(computed@, expected@, F::modulus()).take(0) =~= Seq::empty());
    assert(cs@.constraints + Seq::<ConstraintModel>::empty() =~= cs@.constraints);
    while i < n
        invariant
            i <= n,
            n == computed@.len(),
            n == expected@.len(),
            cs@.wf(),
            all_issued(old(cs)@, computed@),
            all_issued(old(cs)@, expected@),
            cs@ == (SystemModel {
                constraints: old(cs)@.constraints + equality_constraints(
                    computed@,
                    expected@,
                    F::modulus(),
                ).take(i as int),
                ..old(cs)@
            }),
        decreases n - i,
    {
        let ghost before = cs@;
        let x = computed[i];
        let y = expected[i];
        assert(old(cs)@.issued(computed@[i as int]));
        assert(old(cs)@.issued(expected@[i as int]));
        let r = enforce_equal(cs, x, y);
        proof {
            let all = equality_constraints(computed@, expected@, F::modulus());
            assert(all.take(i as int + 1) =~= all.take(i as int).push(all[i as int]));
            assert(before.constraints.push(all[i as int]) =~= old(cs)@.constraints + all.take(
                i as int + 1,
            ));
        }
        i += 1;
    }
    proof {
        let all = equality_constraints(computed@, expected@, F::modulus());
        assert(all.take(n as int) =~= all);
    }
    Ok(())
}

} // verus!

//! What the cubic circuits guarantee.

use vstd::prelude::*;
use vstd::arithmetic::div_mod::{lemma_mod_bound, lemma_small_mod};
use crate::assignment::AssignmentModel;
use crate::checker::{all_hold, is_verdict, SatisfiabilityResult};
use crate::constraint::{constraint_holds, ConstraintModel};
use crate::cubic::{cube_mod, cubic_plus_linear, cubic_plus_linear_synthesized};
use crate::field::{add_mod, mul_mod};
use crate::gadgets::{just, the_one};
use crate::laws::lemma_holds_agrees;
use crate::lc::{lc_eval, with_term};
use crate::lc_laws::{lemma_eval_single, lemma_eval_with_term};
use crate::system::{Mode, SystemModel};
use crate::variable::{Variable, VariableKind};

verus! {

/// The three constraints of `y = x^3 + x + 1` over the variables `x`,
/// `x2`, `x3` and `y`.
pub open spec fn cubic_plus_linear_constraints(
    x: Variable,
    x2: Variable,
    x3: Variable,
    y: Variable,
    p: nat,
) -> Seq<ConstraintModel> {
    seq![
        ConstraintModel::Rank1 { a: just(x), b: just(x), c: just(x2) },
        ConstraintModel::Rank1 { a: just(x2), b: just(x), c: just(x3) },
        ConstraintModel::Rank1 {
            a: with_term(with_term(just(x3), x, 1, p), the_one(), 1, p),
            b: just(the_one()),
            c: just(y),
        },
    ]
}

/// Multiplying a residue by one leaves it as it is.
proof fn lemma_times_one(v: nat, p: nat)
    requires
        v < p,
    ensures
        mul_mod(v, 1, p) == v,
        mul_mod(1, v, p) == v,
{
    assert(v * 1 == v && 1 * v == v) by (nonlinear_arith);
    lemma_small_mod(v, p);
}

/// What the three constraints mean. Under any assignment of residues they
/// hold exactly where `x2` is worth `x^2`, `x3` is worth `x^3` and `y` is
/// worth `x^3 + x + 1`.
pub proof fn lemma_cubic_plus_linear_sound(
    x: Variable,
    x2: Variable,
    x3: Variable,
    y: Variable,
    asg: AssignmentModel,
    p: nat,
)
    requires
        p > 1,
        asg.value_of(x) < p,
        asg.value_of(x2) < p,
        asg.value_of(x3) < p,
        asg.value_of(y) < p,
    ensures
        all_hold(cubic_plus_linear_constraints(x, x2, x3, y, p), asg, p) <==> (asg.value_of(x2)
            == mul_mod(asg.value_of(x), asg.value_of(x), p) && asg.value_of(x3) == cube_mod(
            asg.value_of(x),
            p,
        ) && asg.value_of(y) == cubic_plus_linear(asg.value_of(x), p)),
{
    let cs = cubic_plus_linear_constraints(x, x2, x3, y, p);
    let vx = asg.value_of(x);
    let vx2 = asg.value_of(x2);
    let vx3 = asg.value_of(x3);
    lemma_eval_single(x, asg, p);
    lemma_eval_single(x2, asg, p);
    lemma_eval_single(x3, asg, p);
    lemma_eval_single(y, asg, p);
    lemma_eval_single(the_one(), asg, p);
    lemma_eval_with_term(just(x3), x, 1, asg, p);
    lemma_eval_with_term(with_term(just(x3), x, 1, p), the_one(), 1, asg, p);
    lemma_times_one(vx, p);
    lemma_times_one(1, p);
    let sum = add_mod(add_mod(vx3, vx, p), 1, p);
    assert(lc_eval(with_term(with_term(just(x3), x, 1, p), the_one(), 1, p), asg, p) == sum);
    lemma_mod_bound((add_mod(vx3, vx, p) + 1) as int, p as int);
    lemma_times_one(sum, p);
    assert(constraint_holds(cs[0], asg, p) <==> mul_mod(vx, vx, p) == vx2);
    assert(constraint_holds(cs[1], asg, p) <==> mul_mod(vx2, vx, p) == vx3);
    assert(constraint_holds(cs[2], asg, p) <==> sum == asg.value_of(y));
    if all_hold(cs, asg, p) {
        assert(constraint_holds(cs[0], asg, p));
        assert(constraint_holds(cs[1], asg, p));
        assert(constraint_holds(cs[2], asg, p));
    }
}

/// The cubic example is complete: the system that the synthesis of
/// `y = x^3 + x + 1` leaves in proving mode is satisfied by the values it
/// collected, provided the system before was.
pub proof fn lemma_cubic_plus_linear_satisfied(m: SystemModel, x: nat, p: nat)
    requires
        p > 1,
        x < p,
        m.wf(),
        m.mode == Mode::Proving,
        m.values.reduced(p),
        m.num_witnesses + 3 <= usize::MAX,
        m.num_public_inputs + 1 <= usize::MAX,
        all_hold(m.constraints, m.values, p),
    ensures
        is_verdict(
            cubic_plus_linear_synthesized(m, x, p).constraints,
            cubic_plus_linear_synthesized(m, x, p).values,
            p,
            SatisfiabilityResult::Satisfied,
        ),
        cubic_plus_linear_synthesized(m, x, p).values.public_inputs == m.values.public_inputs.push(
            cubic_plus_linear(x, p),
        ),
{
    let after = cubic_plus_linear_synthesized(m, x, p);
    let vx = Variable { kind: VariableKind::Witness, index: m.num_witnesses as usize };
    let vx2 = Variable { kind: VariableKind::Witness, index: (m.num_witnesses + 1) as usize };
    let vx3 = Variable { kind: VariableKind::Witness, index: (m.num_witnesses + 2) as usize };
    let vy = Variable { kind: VariableKind::PublicInput, index: m.num_public_inputs as usize };
    let added = cubic_plus_linear_constraints(vx, vx2, vx3, vy, p);
    assert(after.constraints =~= m.constraints + added);
    lemma_mod_bound((x * x) as int, p as int);
    lemma_mod_bound((mul_mod(x, x, p) * x) as int, p as int);
    lemma_mod_bound((add_mod(cube_mod(x, p), x, p) + 1) as int, p as int);
    assert(after.values.value_of(vx) == x);
    assert(after.values.value_of(vx2) == mul_mod(x, x, p));
    assert(after.values.value_of(vx3) == cube_mod(x, p));
    assert(after.values.value_of(vy) == cubic_plus_linear(x, p));
    lemma_cubic_plus_linear_sound(vx, vx2, vx3, vy, after.values, p);
    assert forall|j: int| 0 <= j < after.constraints.len() implies constraint_holds(
        #[trigger] after.constraints[j],
        after.values,
        p,
    ) by {
        if j < m.constraints.len() {
            assert(after.constraints[j] == m.constraints[j]);
            lemma_holds_agrees(
                m.constraints[j],
                m.values,
                after.values,
                m.num_public_inputs,
                m.num_witnesses,
                p,
            );
        } else {
            assert(after.constraints[j] == added[j - m.constraints.len()]);
        }
    }
}

/// The two constraints of `y = x^3` hold exactly where `x2` is worth `x^2`
/// and `y` is worth `x^3`.
pub proof fn lemma_cubic_sound(x: Variable, x2: Variable, y: Variable, asg: AssignmentModel, p: nat)
    requires
        p > 1,
        asg.value_of(x) < p,
        asg.value_of(x2) < p,
        asg.value_of(y) < p,
    ensures
        (constraint_holds(
            ConstraintModel::Rank1 { a: just(x), b: just(x), c: just(x2) },
            asg,
            p,
        ) && constraint_holds(
            ConstraintModel::Rank1 { a: just(x2), b: just(x), c: just(y) },
            asg,
            p,
        )) <==> (asg.value_of(x2) == mul_mod(asg.value_of(x), asg.value_of(x), p) && asg.value_of(
            y,
        ) == cube_mod(asg.value_of(x), p)),
{
    lemma_eval_single(x, asg, p);
    lemma_eval_single(x2, asg, p);
    lemma_eval_single(y, asg, p);
}

} // verus!

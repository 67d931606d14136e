//! What the gadgets guarantee, stated over the checker's verdict.

use vstd::prelude::*;
use vstd::arithmetic::div_mod::{lemma_mod_bound, lemma_small_mod};
use crate::assignment::AssignmentModel;
use crate::checker::{all_hold, first_violation_at, is_verdict, SatisfiabilityResult};
use crate::constraint::{constraint_closed, constraint_holds, ConstraintModel};
use crate::expression::lemma_expr_eval_agrees;
use crate::field::{add_mod, is_prime, mul_mod, neg_mod};
use crate::gadgets::{boolean_constraint, equality_constraint, equality_constraints, just, the_one};
use crate::lc::{difference_of, lc_eval};
use crate::lc_laws::{lemma_eval_agrees, lemma_eval_difference, lemma_eval_single};
use crate::modular::lemma_no_zero_divisors;
use crate::variable::Variable;

verus! {

/// Whether a constraint holds depends only on the variables it mentions.
pub proof fn lemma_holds_agrees(
    c: ConstraintModel,
    asg: AssignmentModel,
    other: AssignmentModel,
    num_public: nat,
    num_witness: nat,
    p: nat,
)
    requires
        constraint_closed(c, num_public, num_witness),
        asg.agrees_with(other, num_public, num_witness),
    ensures
        constraint_holds(c, asg, p) == constraint_holds(c, other, p),
{
    match c {
        ConstraintModel::Rank1 { a, b, c } => {
            lemma_eval_agrees(a, asg, other, num_public, num_witness, p);
            lemma_eval_agrees(b, asg, other, num_public, num_witness, p);
            lemma_eval_agrees(c, asg, other, num_public, num_witness, p);
        },
        ConstraintModel::Gated { selector, expr } => {
            lemma_expr_eval_agrees(expr, asg, other, num_public, num_witness, p);
        },
    }
}

/// The value of `1 - b` is zero exactly where `b` is worth one.
proof fn lemma_one_minus(v: nat, p: nat)
    requires
        p > 1,
        v < p,
    ensures
        add_mod(1, neg_mod(v, p), p) < p,
        add_mod(1, neg_mod(v, p), p) == 0 <==> v == 1,
{
    lemma_small_mod(v, p);
    if v == 0 {
        lemma_small_mod(0, p);
        vstd::arithmetic::div_mod::lemma_mod_self_0(p as int);
        lemma_small_mod(1, p);
    } else {
        lemma_small_mod((p - v) as nat, p);
        if v == 1 {
            vstd::arithmetic::div_mod::lemma_mod_self_0(p as int);
        } else {
            lemma_small_mod((1 + p - v) as nat, p);
        }
    }
}

/// The boolean constraint holds for a variable worth zero or one, in any
/// field.
pub proof fn lemma_boolean_holds_for_bit(b: Variable, asg: AssignmentModel, p: nat)
    requires
        p > 1,
        asg.value_of(b) == 0 || asg.value_of(b) == 1,
    ensures
        constraint_holds(boolean_constraint(b, p), asg, p),
{
    let v = asg.value_of(b);
    lemma_eval_single(b, asg, p);
    lemma_eval_single(the_one(), asg, p);
    lemma_eval_difference(just(the_one()), just(b), asg, p);
    let w = add_mod(1, neg_mod(v, p), p);
    lemma_one_minus(v, p);
    lemma_small_mod(0, p);
    assert(v * w == 0) by (nonlinear_arith)
        requires
            v == 0 || w == 0,
    ;
}

/// Boolean soundness. In a prime field the boolean constraint on `b` holds
/// exactly where `b` is worth zero or one: on a system that holds this one
/// constraint the checker answers `Satisfied` for these two values and
/// `Violated(0)` for every other.
pub proof fn lemma_boolean_soundness(b: Variable, asg: AssignmentModel, p: nat)
    requires
        is_prime(p),
        asg.value_of(b) < p,
    ensures
        constraint_holds(boolean_constraint(b, p), asg, p) <==> (asg.value_of(b) == 0
            || asg.value_of(b) == 1),
        (asg.value_of(b) == 0 || asg.value_of(b) == 1) ==> is_verdict(
            seq![boolean_constraint(b, p)],
            asg,
            p,
            SatisfiabilityResult::Satisfied,
        ),
        !(asg.value_of(b) == 0 || asg.value_of(b) == 1) ==> is_verdict(
            seq![boolean_constraint(b, p)],
            asg,
            p,
            SatisfiabilityResult::Violated(0),
        ),
{
    let v = asg.value_of(b);
    lemma_eval_single(b, asg, p);
    lemma_eval_single(the_one(), asg, p);
    lemma_eval_difference(just(the_one()), just(b), asg, p);
    let w = add_mod(1, neg_mod(v, p), p);
    assert(lc_eval(difference_of(just(the_one()), just(b), p), asg, p) == w);
    lemma_one_minus(v, p);
    lemma_no_zero_divisors(p, v, w);
}

/// The equality constraint on `x` and `y` holds exactly where the two have
/// the same value.
pub proof fn lemma_equality_constraint_sound(x: Variable, y: Variable, asg: AssignmentModel, p: nat)
    requires
        p > 1,
        asg.value_of(x) < p,
        asg.value_of(y) < p,
    ensures
        constraint_holds(equality_constraint(x, y, p), asg, p) <==> asg.value_of(x)
            == asg.value_of(y),
{
    let vx = asg.value_of(x);
    let vy = asg.value_of(y);
    lemma_eval_single(x, asg, p);
    lemma_eval_single(y, asg, p);
    lemma_eval_single(the_one(), asg, p);
    lemma_eval_difference(just(x), just(y), asg, p);
    let d = add_mod(vx, neg_mod(vy, p), p);
    assert(lc_eval(difference_of(just(x), just(y), p), asg, p) == d);
    lemma_mod_bound((vx + neg_mod(vy, p)) as int, p as int);
    assert(d * 1 == d) by (nonlinear_arith);
    lemma_small_mod(d, p);
    assert(mul_mod(d, 1, p) == d);
    // d == 0 exactly where vx == vy.
    lemma_small_mod(vy, p);
    if vy == 0 {
        lemma_small_mod(0, p);
        vstd::arithmetic::div_mod::lemma_mod_self_0(p as int);
        lemma_small_mod(vx, p);
    } else {
        lemma_small_mod((p - vy) as nat, p);
        if vx == vy {
            vstd::arithmetic::div_mod::lemma_mod_self_0(p as int);
        } else if vx < vy {
            lemma_small_mod((vx + p - vy) as nat, p);
        } else {
            lemma_small_mod((vx - vy) as nat, p);
            vstd::arithmetic::div_mod::lemma_mod_add_multiples_vanish(vx - vy, p as int);
        }
    }
}

/// The equality gadget on sequences whose first difference is at position
/// `k`. Where the constraints `before` all hold and the values of `xs` and
/// `ys` agree before position `k` and differ there, the checker answers
/// `Violated` with the index of the constraint for position `k`.
pub proof fn lemma_equality_gadget_first_difference(
    before: Seq<ConstraintModel>,
    xs: Seq<Variable>,
    ys: Seq<Variable>,
    asg: AssignmentModel,
    p: nat,
    k: int,
)
    requires
        p > 1,
        xs.len() == ys.len(),
        0 <= k < xs.len(),
        before.len() + k <= usize::MAX,
        all_hold(before, asg, p),
        forall|i: int| 0 <= i <= k ==> asg.value_of(#[trigger] xs[i]) < p,
        forall|i: int| 0 <= i <= k ==> asg.value_of(#[trigger] ys[i]) < p,
        forall|i: int| 0 <= i < k ==> asg.value_of(#[trigger] xs[i]) == asg.value_of(ys[i]),
        asg.value_of(xs[k]) != asg.value_of(ys[k]),
    ensures
        is_verdict(
            before + equality_constraints(xs, ys, p),
            asg,
            p,
            SatisfiabilityResult::Violated((before.len() + k) as usize),
        ),
{
    let all = before + equality_constraints(xs, ys, p);
    let at = before.len() + k;
    assert(all[at] == equality_constraint(xs[k], ys[k], p));
    assert(asg.value_of(ys[k]) < p);
    lemma_equality_constraint_sound(xs[k], ys[k], asg, p);
    assert forall|j: int| 0 <= j < at implies constraint_holds(#[trigger] all[j], asg, p) by {
        if j < before.len() {
            assert(all[j] == before[j]);
        } else {
            let i = j - before.len();
            assert(all[j] == equality_constraint(xs[i], ys[i], p));
            assert(asg.value_of(xs[i]) == asg.value_of(ys[i]));
            assert(asg.value_of(ys[i]) < p);
            lemma_equality_constraint_sound(xs[i], ys[i], asg, p);
        }
    }
    assert(first_violation_at(all, asg, p, at));
}

/// The equality gadget on sequences that differ in one position. Where the
/// constraints `before` all hold and the values of `xs` and `ys` agree
/// everywhere but at position `k`, the checker answers `Violated` with the
/// index of the constraint for position `k`.
pub proof fn lemma_equality_gadget_single_difference(
    before: Seq<ConstraintModel>,
    xs: Seq<Variable>,
    ys: Seq<Variable>,
    asg: AssignmentModel,
    p: nat,
    k: int,
)
    requires
        p > 1,
        xs.len() == ys.len(),
        0 <= k < xs.len(),
        before.len() + k <= usize::MAX,
        all_hold(before, asg, p),
        forall|i: int| 0 <= i < xs.len() ==> asg.value_of(#[trigger] xs[i]) < p,
        forall|i: int| 0 <= i < ys.len() ==> asg.value_of(#[trigger] ys[i]) < p,
        forall|i: int|
            0 <= i < xs.len() && i != k ==> asg.value_of(#[trigger] xs[i]) == asg.value_of(ys[i]),
        asg.value_of(xs[k]) != asg.value_of(ys[k]),
    ensures
        is_verdict(
            before + equality_constraints(xs, ys, p),
            asg,
            p,
            SatisfiabilityResult::Violated((before.len() + k) as usize),
        ),
{
    lemma_equality_gadget_first_difference(before, xs, ys, asg, p, k);
}

/// The equality gadget on sequences with equal values keeps a satisfied
/// system satisfied.
pub proof fn lemma_equality_gadget_satisfied(
    before: Seq<ConstraintModel>,
    xs: Seq<Variable>,
    ys: Seq<Variable>,
    asg: AssignmentModel,
    p: nat,
)
    requires
        p > 1,
        xs.len() == ys.len(),
        all_hold(before, asg, p),
        forall|i: int| 0 <= i < xs.len() ==> asg.value_of(#[trigger] xs[i]) < p,
        forall|i: int|
            0 <= i < xs.len() ==> asg.value_of(#[trigger] xs[i]) == asg.value_of(ys[i]),
    ensures
        all_hold(before + equality_constraints(xs, ys, p), asg, p),
{
    let all = before + equality_constraints(xs, ys, p);
    assert forall|j: int| 0 <= j < all.len() implies constraint_holds(#[trigger] all[j], asg, p) by {
        if j < before.len() {
            assert(all[j] == before[j]);
        } else {
            let i = j - before.len();
            assert(all[j] == equality_constraint(xs[i], ys[i], p));
            assert(asg.value_of(xs[i]) == asg.value_of(ys[i]));
            lemma_equality_constraint_sound(xs[i], ys[i], asg, p);
        }
    }
}

} // verus!

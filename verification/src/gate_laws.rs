//! What the gates of the gated constraint system mean.

use vstd::prelude::*;
use vstd::arithmetic::div_mod::{lemma_mod_add_multiples_vanish, lemma_mod_self_0, lemma_small_mod};
use crate::assignment::AssignmentModel;
use crate::chips::{
    active, add_gate_model, constant_gate_model, copy_gate_model, mul_gate_model,
};
use crate::constraint::{constraint_holds, ConstraintModel};
use crate::expression::{expr_eval, lc_as_expr, rank1_as_expr};
use crate::field::{add_mod, is_prime, mul_mod, neg_mod};
use crate::checker::{all_hold, is_verdict, SatisfiabilityResult};
use crate::gated_range::{
    bit_gate_model, gated_range_synthesized, range_gate_model, recombination_model,
};
use crate::range::{bit_residue, bit_values, bit_variable};
use crate::range_circuit::RANGE_PROOF_BITS;
use crate::range_laws::bits_sum;
use crate::system::{Mode, SystemModel};
use vstd::arithmetic::power2::pow2;
use crate::lc::lc_eval;
use crate::lc_laws::lemma_eval_is_total;
use crate::modular::lemma_no_zero_divisors;
use crate::variable::Variable;

verus! {

/// A difference of residues is zero exactly where the two are equal.
pub proof fn lemma_difference_zero(s: nat, t: nat, p: nat)
    requires
        p > 0,
        s < p,
        t < p,
    ensures
        add_mod(s, neg_mod(t, p), p) < p,
        add_mod(s, neg_mod(t, p), p) == 0 <==> s == t,
{
    lemma_small_mod(t, p);
    lemma_small_mod(s, p);
    if t == 0 {
        lemma_small_mod(0, p);
        lemma_mod_self_0(p as int);
    } else {
        lemma_small_mod((p - t) as nat, p);
        if s == t {
            lemma_mod_self_0(p as int);
        } else if s < t {
            lemma_small_mod((s + p - t) as nat, p);
        } else {
            lemma_small_mod((s - t) as nat, p);
            lemma_mod_add_multiples_vanish(s - t, p as int);
        }
    }
}

/// The addition gate holds exactly where `out` is worth `lhs + rhs`.
pub proof fn lemma_add_gate_sound(
    lhs: Variable,
    rhs: Variable,
    out: Variable,
    asg: AssignmentModel,
    p: nat,
)
    requires
        p > 0,
        asg.value_of(out) < p,
    ensures
        constraint_holds(active(add_gate_model(lhs, rhs, out)), asg, p) <==> asg.value_of(out)
            == add_mod(asg.value_of(lhs), asg.value_of(rhs), p),
{
    reveal_with_fuel(expr_eval, 4);
    let s = add_mod(asg.value_of(lhs), asg.value_of(rhs), p);
    vstd::arithmetic::div_mod::lemma_mod_bound((asg.value_of(lhs) + asg.value_of(rhs)) as int, p as int);
    lemma_difference_zero(s, asg.value_of(out), p);
}

/// The multiplication gate holds exactly where `out` is worth `lhs * rhs`.
pub proof fn lemma_mul_gate_sound(
    lhs: Variable,
    rhs: Variable,
    out: Variable,
    asg: AssignmentModel,
    p: nat,
)
    requires
        p > 0,
        asg.value_of(out) < p,
    ensures
        constraint_holds(active(mul_gate_model(lhs, rhs, out)), asg, p) <==> asg.value_of(out)
            == mul_mod(asg.value_of(lhs), asg.value_of(rhs), p),
{
    reveal_with_fuel(expr_eval, 4);
    let s = mul_mod(asg.value_of(lhs), asg.value_of(rhs), p);
    vstd::arithmetic::div_mod::lemma_mod_bound((asg.value_of(lhs) * asg.value_of(rhs)) as int, p as int);
    lemma_difference_zero(s, asg.value_of(out), p);
}

/// The constant gate holds exactly where the cell is worth the constant.
pub proof fn lemma_constant_gate_sound(cell: Variable, k: nat, asg: AssignmentModel, p: nat)
    requires
        p > 0,
        k < p,
        asg.value_of(cell) < p,
    ensures
        constraint_holds(active(constant_gate_model(cell, k)), asg, p) <==> asg.value_of(cell)
            == k,
{
    reveal_with_fuel(expr_eval, 4);
    lemma_difference_zero(asg.value_of(cell), k, p);
}

/// The copy gate holds exactly where the cell and the public input have the
/// same value.
pub proof fn lemma_copy_gate_sound(cell: Variable, instance: Variable, asg: AssignmentModel, p: nat)
    requires
        p > 0,
        asg.value_of(cell) < p,
        asg.value_of(instance) < p,
    ensures
        constraint_holds(active(copy_gate_model(cell, instance)), asg, p) <==> asg.value_of(cell)
            == asg.value_of(instance),
{
    reveal_with_fuel(expr_eval, 4);
    lemma_difference_zero(asg.value_of(cell), asg.value_of(instance), p);
}

/// In a prime field the bit gate `b * (b - 1)` holds exactly where `b` is
/// worth zero or one.
pub proof fn lemma_bit_gate_sound(b: Variable, asg: AssignmentModel, p: nat)
    requires
        is_prime(p),
        asg.value_of(b) < p,
    ensures
        constraint_holds(active(bit_gate_model(b)), asg, p) <==> (asg.value_of(b) == 0
            || asg.value_of(b) == 1),
{
    reveal_with_fuel(expr_eval, 5);
    let v = asg.value_of(b);
    lemma_difference_zero(v, 1, p);
    lemma_no_zero_divisors(p, v, add_mod(v, neg_mod(1, p), p));
}

/// A linear combination and its polynomial have the same value.
pub proof fn lemma_lc_as_expr_eval(s: Seq<(Variable, nat)>, asg: AssignmentModel, p: nat)
    ensures
        expr_eval(lc_as_expr(s), asg, p) == lc_eval(s, asg, p),
    decreases s.len(),
{
    reveal_with_fuel(expr_eval, 3);
    if s.len() > 0 {
        lemma_lc_as_expr_eval(s.drop_last(), asg, p);
    }
}

/// A rank-1 constraint is the gated constraint on `a * b - c` with the
/// selector active: the two hold under the same assignments.
pub proof fn lemma_rank1_is_a_gate(
    a: Seq<(Variable, nat)>,
    b: Seq<(Variable, nat)>,
    c: Seq<(Variable, nat)>,
    asg: AssignmentModel,
    p: nat,
)
    requires
        p > 0,
    ensures
        constraint_holds(active(rank1_as_expr(a, b, c)), asg, p) <==> constraint_holds(
            ConstraintModel::Rank1 { a, b, c },
            asg,
            p,
        ),
{
    reveal_with_fuel(expr_eval, 3);
    lemma_lc_as_expr_eval(a, asg, p);
    lemma_lc_as_expr_eval(b, asg, p);
    lemma_lc_as_expr_eval(c, asg, p);
    lemma_eval_is_total(c, asg, p);
    let ab = mul_mod(lc_eval(a, asg, p), lc_eval(b, asg, p), p);
    vstd::arithmetic::div_mod::lemma_mod_bound((lc_eval(a, asg, p) * lc_eval(b, asg, p)) as int, p as int);
    lemma_difference_zero(ab, lc_eval(c, asg, p), p);
}

/// The bit gate holds for a cell worth zero or one, in any field.
pub proof fn lemma_bit_gate_holds_for_bit(b: Variable, asg: AssignmentModel, p: nat)
    requires
        p > 1,
        asg.value_of(b) == 0 || asg.value_of(b) == 1,
    ensures
        constraint_holds(active(bit_gate_model(b)), asg, p),
{
    reveal_with_fuel(expr_eval, 5);
    let v = asg.value_of(b);
    lemma_difference_zero(v, 1, p);
    let w = add_mod(v, neg_mod(1, p), p);
    lemma_small_mod(0, p);
    assert(v * w == 0) by (nonlinear_arith)
        requires
            v == 0 || w == 0,
    ;
}

/// Under an assignment that gives bit `i` of `v` to the `i`-th bit cell, the
/// recombination polynomial is worth the low bits of `v`, reduced.
pub proof fn lemma_recombination_eval(first: nat, k: nat, v: nat, asg: AssignmentModel, p: nat)
    requires
        p > 0,
        forall|i: int|
            0 <= i < k ==> asg.value_of(#[trigger] bit_variable(first, i)) == bit_residue(
                v,
                i as nat,
            ),
    ensures
        expr_eval(recombination_model(first, k, p), asg, p) == bits_sum(v, k) % p,
    decreases k,
{
    reveal_with_fuel(expr_eval, 3);
    if k == 0 {
        lemma_small_mod(0, p);
    } else {
        let j = (k - 1) as nat;
        lemma_recombination_eval(first, j, v, asg, p);
        let b = bit_residue(v, j);
        assert(asg.value_of(bit_variable(first, j as int)) == b);
        let pi = p as int;
        let prev = bits_sum(v, j) as int;
        vstd::arithmetic::div_mod::lemma_mul_mod_noop_general(b as int, pow2(j) as int, pi);
        vstd::arithmetic::div_mod::lemma_add_mod_noop(prev, (b * pow2(j)) as int, pi);
    }
}

/// The cells of the gated range proof: the input cell is worth the input,
/// the bit cells are worth its low bits, and every earlier variable keeps
/// its value.
proof fn lemma_gated_range_values(m: SystemModel, input: nat, p: nat)
    requires
        p > 0,
        m.wf(),
        m.mode == Mode::Proving,
        m.num_witnesses + 1 + RANGE_PROOF_BITS <= usize::MAX,
    ensures
        gated_range_synthesized(m, input, p).constraints.len() == m.constraints.len()
            + RANGE_PROOF_BITS + 1,
        m.values.agrees_with(
            gated_range_synthesized(m, input, p).values,
            m.num_public_inputs,
            m.num_witnesses,
        ),
        gated_range_synthesized(m, input, p).values.value_of(m.next_witness()) == input % p,
        forall|i: int|
            0 <= i < RANGE_PROOF_BITS ==> gated_range_synthesized(m, input, p).values.value_of(
                #[trigger] bit_variable(m.num_witnesses + 1, i),
            ) == bit_residue(input, i as nat),
{
    let after = gated_range_synthesized(m, input, p).values;
    let bits = bit_values(input, RANGE_PROOF_BITS as nat);
    assert(after.witnesses == m.values.witnesses.push(input % p) + bits);
    assert(after.witnesses[m.num_witnesses as int] == input % p);
    assert forall|i: int| 0 <= i < RANGE_PROOF_BITS implies after.value_of(
        #[trigger] bit_variable(m.num_witnesses + 1, i),
    ) == bit_residue(input, i as nat) by {
        assert(after.witnesses[m.num_witnesses + 1 + i] == bits[i]);
    }
}

/// Every gate of the gated range proof before the recombination holds:
/// the earlier constraints because no earlier variable changed, the bit
/// gates because the bits are worth zero or one.
proof fn lemma_gated_range_prefix(m: SystemModel, input: nat, p: nat, j: int)
    requires
        p > 1,
        m.wf(),
        m.mode == Mode::Proving,
        m.num_witnesses + 1 + RANGE_PROOF_BITS <= usize::MAX,
        all_hold(m.constraints, m.values, p),
        0 <= j < m.constraints.len() + RANGE_PROOF_BITS,
    ensures
        constraint_holds(
            gated_range_synthesized(m, input, p).constraints[j],
            gated_range_synthesized(m, input, p).values,
            p,
        ),
{
    let after = gated_range_synthesized(m, input, p);
    lemma_gated_range_values(m, input, p);
    if j < m.constraints.len() {
        assert(after.constraints[j] == m.constraints[j]);
        crate::laws::lemma_holds_agrees(
            m.constraints[j],
            m.values,
            after.values,
            m.num_public_inputs,
            m.num_witnesses,
            p,
        );
    } else {
        let i = j - m.constraints.len();
        let b = bit_variable(m.num_witnesses + 1, i);
        assert(after.constraints[j] == active(bit_gate_model(b)));
        lemma_bit_gate_holds_for_bit(b, after.values, p);
    }
}

/// The recombination gate of the gated range proof holds exactly where the
/// input, reduced, equals what its low 32 bits spell, reduced.
proof fn lemma_gated_range_recombination(m: SystemModel, input: nat, p: nat)
    requires
        p > 1,
        m.wf(),
        m.mode == Mode::Proving,
        m.num_witnesses + 1 + RANGE_PROOF_BITS <= usize::MAX,
    ensures
        constraint_holds(
            gated_range_synthesized(m, input, p).constraints[m.constraints.len()
                + RANGE_PROOF_BITS],
            gated_range_synthesized(m, input, p).values,
            p,
        ) <==> input % p == (input % pow2(RANGE_PROOF_BITS as nat)) % p,
{
    reveal_with_fuel(expr_eval, 3);
    let after = gated_range_synthesized(m, input, p);
    let n = RANGE_PROOF_BITS as nat;
    let first = m.num_witnesses + 1;
    lemma_gated_range_values(m, input, p);
    lemma_recombination_eval(first, n, input, after.values, p);
    crate::range_laws::lemma_bits_sum(input, n);
    assert(after.constraints[m.constraints.len() + RANGE_PROOF_BITS] == active(
        range_gate_model(m.next_witness(), first, n, p),
    ));
    vstd::arithmetic::div_mod::lemma_mod_bound(input as int, p as int);
    vstd::arithmetic::div_mod::lemma_mod_bound((input % pow2(n)) as int, p as int);
    lemma_difference_zero(input % p, (input % pow2(n)) % p, p);
}

/// Gated range round trip, in range. Where the input lies below `2^32` and
/// the system before was satisfied, the checker answers `Satisfied`.
pub proof fn lemma_gated_range_round_trip(m: SystemModel, input: nat, p: nat)
    requires
        p > 1,
        m.wf(),
        m.mode == Mode::Proving,
        m.num_witnesses + 1 + RANGE_PROOF_BITS <= usize::MAX,
        all_hold(m.constraints, m.values, p),
        input < pow2(RANGE_PROOF_BITS as nat),
    ensures
        is_verdict(
            gated_range_synthesized(m, input, p).constraints,
            gated_range_synthesized(m, input, p).values,
            p,
            SatisfiabilityResult::Satisfied,
        ),
{
    let after = gated_range_synthesized(m, input, p);
    lemma_gated_range_values(m, input, p);
    lemma_gated_range_recombination(m, input, p);
    lemma_small_mod(input, pow2(RANGE_PROOF_BITS as nat));
    assert forall|j: int| 0 <= j < after.constraints.len() implies constraint_holds(
        #[trigger] after.constraints[j],
        after.values,
        p,
    ) by {
        if j < m.constraints.len() + RANGE_PROOF_BITS {
            lemma_gated_range_prefix(m, input, p, j);
        }
    }
}

/// Gated range round trip, out of range. Where the input is `2^32` or more
/// and lies below the modulus, and the system before was satisfied, the
/// checker answers `Violated` with the index of the recombination gate.
pub proof fn lemma_gated_range_rejects_out_of_range(m: SystemModel, input: nat, p: nat)
    requires
        p > 1,
        m.wf(),
        m.mode == Mode::Proving,
        m.num_witnesses + 1 + RANGE_PROOF_BITS <= usize::MAX,
        m.constraints.len() + RANGE_PROOF_BITS <= usize::MAX,
        all_hold(m.constraints, m.values, p),
        pow2(RANGE_PROOF_BITS as nat) <= input < p,
    ensures
        is_verdict(
            gated_range_synthesized(m, input, p).constraints,
            gated_range_synthesized(m, input, p).values,
            p,
            SatisfiabilityResult::Violated((m.constraints.len() + RANGE_PROOF_BITS) as usize),
        ),
{
    let after = gated_range_synthesized(m, input, p);
    let n = RANGE_PROOF_BITS as nat;
    let at = m.constraints.len() + RANGE_PROOF_BITS;
    lemma_gated_range_values(m, input, p);
    lemma_gated_range_recombination(m, input, p);
    vstd::arithmetic::power2::lemma_pow2_pos(n);
    vstd::arithmetic::div_mod::lemma_mod_bound(input as int, pow2(n) as int);
    lemma_small_mod(input, p);
    lemma_small_mod(input % pow2(n), p);
    assert forall|j: int| 0 <= j < at implies constraint_holds(
        #[trigger] after.constraints[j],
        after.values,
        p,
    ) by {
        lemma_gated_range_prefix(m, input, p, j);
    }
    assert(crate::checker::first_violation_at(after.constraints, after.values, p, at as int));
}

} // verus!

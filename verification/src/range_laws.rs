//! What the range gadget guarantees.

use vstd::prelude::*;
use vstd::arithmetic::div_mod::{
    lemma_add_mod_noop, lemma_mod_bound, lemma_mod_breakdown, lemma_mul_mod_noop_general,
    lemma_small_mod,
};
use vstd::arithmetic::power2::{lemma2_to64, lemma_pow2_pos, lemma_pow2_unfold, pow2};
use crate::assignment::AssignmentModel;
use crate::checker::{all_hold, first_violation_at, is_verdict, SatisfiabilityResult};
use crate::constraint::{constraint_closed, constraint_holds, lemma_constraint_closed_monotone};
use crate::field::mul_mod;
use crate::gadgets::{boolean_constraint, just, lemma_boolean_constraint_closed, the_one};
use crate::laws::{lemma_boolean_holds_for_bit, lemma_holds_agrees};
use crate::lc::lc_eval;
use crate::lc_laws::lemma_eval_single;
use crate::range::{
    bit_constraints,
    bit_residue,
    bit_values,
    bit_variable,
    pow2_mod,
    range_enforced,
    recombination_constraint,
    weighted_bits,
};
use crate::system::{Mode, SystemModel};
use crate::variable::Variable;

verus! {

/// The number that the low `k` bits of `v` spell.
pub open spec fn bits_sum(v: nat, k: nat) -> nat
    decreases k,
{
    if k == 0 {
        0
    } else {
        bits_sum(v, (k - 1) as nat) + bit_residue(v, (k - 1) as nat) * pow2((k - 1) as nat)
    }
}

/// The low `k` bits of `v` spell `v` modulo `2^k`.
pub proof fn lemma_bits_sum(v: nat, k: nat)
    ensures
        bits_sum(v, k) == v % pow2(k),
    decreases k,
{
    if k == 0 {
        lemma2_to64();
    } else {
        let j = (k - 1) as nat;
        lemma_bits_sum(v, j);
        lemma_pow2_pos(j);
        lemma_pow2_unfold(k);
        lemma_mod_breakdown(v as int, pow2(j) as int, 2);
        let q = (v / pow2(j)) % 2;
        assert(q == 0 || q == 1);
        assert(bit_residue(v, j) == q);
        assert(pow2(j) * 2 == pow2(k)) by (nonlinear_arith)
            requires
                pow2(k) == 2 * pow2(j),
        ;
        assert(q * pow2(j) == pow2(j) * q) by (nonlinear_arith);
    }
}

/// Under an assignment that gives bit `i` of `v` to the `i`-th bit variable,
/// the weighted bits are worth the low bits of `v`, reduced.
pub proof fn lemma_weighted_bits_eval(first: nat, k: nat, v: nat, asg: AssignmentModel, p: nat)
    requires
        p > 0,
        first + k <= usize::MAX,
        forall|i: int|
            0 <= i < k ==> asg.value_of(#[trigger] bit_variable(first, i)) == bit_residue(
                v,
                i as nat,
            ),
    ensures
        lc_eval(weighted_bits(first, k, p), asg, p) == bits_sum(v, k) % p,
    decreases k,
{
    let s = weighted_bits(first, k, p);
    if k == 0 {
        lemma_small_mod(0, p);
    } else {
        let j = (k - 1) as nat;
        lemma_weighted_bits_eval(first, j, v, asg, p);
        assert(s.drop_last() =~= weighted_bits(first, j, p));
        assert(s.last() == (bit_variable(first, j as int), pow2_mod(j, p)));
        let b = bit_residue(v, j);
        assert(asg.value_of(bit_variable(first, j as int)) == b);
        let pi = p as int;
        let prev = bits_sum(v, j) as int;
        // ((prev % p) + ((2^j % p) * b) % p) % p == (prev + b * 2^j) % p
        lemma_mul_mod_noop_general(pow2(j) as int, b as int, pi);
        lemma_add_mod_noop(prev, (pow2(j) * b) as int, pi);
        assert(pow2(j) * b == b * pow2(j)) by (nonlinear_arith);
    }
}

/// The values after the range gadget: the bit variables hold the low bits of
/// the value of `x`, and every earlier variable keeps its value.
proof fn lemma_values_after_range(m: SystemModel, x: Variable, n: nat, p: nat)
    requires
        m.wf(),
        m.mode == Mode::Proving,
        m.num_witnesses + n <= usize::MAX,
    ensures
        m.values.agrees_with(
            range_enforced(m, x, n, p).values,
            m.num_public_inputs,
            m.num_witnesses,
        ),
        forall|i: int|
            0 <= i < n ==> range_enforced(m, x, n, p).values.value_of(
                #[trigger] bit_variable(m.num_witnesses, i),
            ) == bit_residue(m.values.value_of(x), i as nat),
{
    let after = range_enforced(m, x, n, p).values;
    let bits = bit_values(m.values.value_of(x), n);
    assert(after.witnesses == m.values.witnesses + bits);
    assert forall|i: int| 0 <= i < n implies after.value_of(
        #[trigger] bit_variable(m.num_witnesses, i),
    ) == bit_residue(m.values.value_of(x), i as nat) by {
        assert(after.witnesses[m.num_witnesses + i] == bits[i]);
    }
}

/// Range round trip, in range. Where the value of `x` lies below `2^n` and
/// the system was satisfied by its own values, the system that the range
/// gadget leaves is satisfied by its own values too: the checker answers
/// `Satisfied`.
pub proof fn lemma_range_round_trip(m: SystemModel, x: Variable, n: nat, p: nat)
    requires
        p > 1,
        m.wf(),
        m.mode == Mode::Proving,
        m.issued(x),
        m.values.reduced(p),
        m.num_witnesses + n <= usize::MAX,
        m.values.value_of(x) < pow2(n),
        all_hold(m.constraints, m.values, p),
    ensures
        is_verdict(
            range_enforced(m, x, n, p).constraints,
            range_enforced(m, x, n, p).values,
            p,
            SatisfiabilityResult::Satisfied,
        ),
{
    let after = range_enforced(m, x, n, p);
    let v = m.values.value_of(x);
    let first = m.num_witnesses;
    lemma_values_after_range(m, x, n, p);
    lemma_recombination(m, x, n, p);
    lemma_small_mod(v, pow2(n));
    assert forall|j: int| 0 <= j < after.constraints.len() implies constraint_holds(
        #[trigger] after.constraints[j],
        after.values,
        p,
    ) by {
        lemma_earlier_constraints(m, x, n, p, j);
    }
}

/// Range round trip, out of range. Where the value of `x` is `2^n` or more,
/// the bits are the low `n` bits of the value, and the system was satisfied
/// by its own values, the recombination constraint fails: the checker
/// answers `Violated` with the index of that constraint.
pub proof fn lemma_range_rejects_out_of_range(m: SystemModel, x: Variable, n: nat, p: nat)
    requires
        p > 1,
        m.wf(),
        m.mode == Mode::Proving,
        m.issued(x),
        m.values.reduced(p),
        m.num_witnesses + n <= usize::MAX,
        m.constraints.len() + n <= usize::MAX,
        m.values.value_of(x) >= pow2(n),
        all_hold(m.constraints, m.values, p),
    ensures
        is_verdict(
            range_enforced(m, x, n, p).constraints,
            range_enforced(m, x, n, p).values,
            p,
            SatisfiabilityResult::Violated((m.constraints.len() + n) as usize),
        ),
{
    let after = range_enforced(m, x, n, p);
    let v = m.values.value_of(x);
    let at = m.constraints.len() + n;
    lemma_values_after_range(m, x, n, p);
    lemma_recombination(m, x, n, p);
    lemma_pow2_pos(n);
    lemma_mod_bound(v as int, pow2(n) as int);
    assert(v % pow2(n) != v);
    assert forall|j: int| 0 <= j < at implies constraint_holds(
        #[trigger] after.constraints[j],
        after.values,
        p,
    ) by {
        lemma_earlier_constraints(m, x, n, p, j);
    }
    assert(first_violation_at(after.constraints, after.values, p, at as int));
}

/// The recombination constraint holds exactly where the value of `x` equals
/// what its low `n` bits spell.
proof fn lemma_recombination(m: SystemModel, x: Variable, n: nat, p: nat)
    requires
        p > 1,
        m.wf(),
        m.mode == Mode::Proving,
        m.issued(x),
        m.values.reduced(p),
        m.num_witnesses + n <= usize::MAX,
    ensures
        range_enforced(m, x, n, p).constraints.len() == m.constraints.len() + n + 1,
        range_enforced(m, x, n, p).constraints[(m.constraints.len() + n) as int]
            == recombination_constraint(m.num_witnesses, n, x, p),
        constraint_holds(
            recombination_constraint(m.num_witnesses, n, x, p),
            range_enforced(m, x, n, p).values,
            p,
        ) <==> m.values.value_of(x) % pow2(n) == m.values.value_of(x),
{
    let after = range_enforced(m, x, n, p);
    let v = m.values.value_of(x);
    let first = m.num_witnesses;
    lemma_values_after_range(m, x, n, p);
    assert(after.values.value_of(x) == v);
    assert(v < p);
    lemma_weighted_bits_eval(first, n, v, after.values, p);
    lemma_bits_sum(v, n);
    lemma_eval_single(x, after.values, p);
    lemma_eval_single(the_one(), after.values, p);
    let low = v % pow2(n);
    lemma_pow2_pos(n);
    lemma_mod_bound(v as int, pow2(n) as int);
    assert(low <= v) by {
        vstd::arithmetic::div_mod::lemma_mod_decreases(v, pow2(n));
    }
    lemma_small_mod(low, p);
    let e = lc_eval(weighted_bits(first, n, p), after.values, p);
    assert(e == low);
    assert(e * 1 == e) by (nonlinear_arith);
    assert(mul_mod(e, 1, p) == e);
}

/// Every constraint before the recombination constraint holds: the earlier
/// ones because no earlier variable changed, the boolean ones because the
/// bits are worth zero or one.
proof fn lemma_earlier_constraints(m: SystemModel, x: Variable, n: nat, p: nat, j: int)
    requires
        p > 1,
        m.wf(),
        m.mode == Mode::Proving,
        m.issued(x),
        m.values.reduced(p),
        m.num_witnesses + n <= usize::MAX,
        all_hold(m.constraints, m.values, p),
        0 <= j < m.constraints.len() + n + 1,
        j == m.constraints.len() + n ==> constraint_holds(
            recombination_constraint(m.num_witnesses, n, x, p),
            range_enforced(m, x, n, p).values,
            p,
        ),
    ensures
        constraint_holds(range_enforced(m, x, n, p).constraints[j], range_enforced(m, x, n, p).values, p),
{
    let after = range_enforced(m, x, n, p);
    let first = m.num_witnesses;
    lemma_values_after_range(m, x, n, p);
    if j < m.constraints.len() {
        assert(after.constraints[j] == m.constraints[j]);
        lemma_holds_agrees(
            m.constraints[j],
            m.values,
            after.values,
            m.num_public_inputs,
            m.num_witnesses,
            p,
        );
    } else if j < m.constraints.len() + n {
        let i = j - m.constraints.len();
        let b = bit_variable(first, i);
        assert(after.constraints[j] == bit_constraints(first, n, p)[i]);
        assert(after.constraints[j] == boolean_constraint(b, p));
        lemma_boolean_holds_for_bit(b, after.values, p);
    } else {
    }
}

/// The range gadget on an issued variable leaves a well-formed system.
pub proof fn lemma_range_enforced_wf(m: SystemModel, x: Variable, n: nat, p: nat)
    requires
        m.wf(),
        m.issued(x),
        m.num_witnesses + n <= usize::MAX,
    ensures
        range_enforced(m, x, n, p).wf(),
        range_enforced(m, x, n, p).constraints.len() == m.constraints.len() + n + 1,
        range_enforced(m, x, n, p).num_witnesses == m.num_witnesses + n,
        range_enforced(m, x, n, p).num_public_inputs == m.num_public_inputs,
{
    let after = range_enforced(m, x, n, p);
    let first = m.num_witnesses;
    assert forall|j: int| 0 <= j < after.constraints.len() implies constraint_closed(
        #[trigger] after.constraints[j],
        after.num_public_inputs,
        after.num_witnesses,
    ) by {
        if j < m.constraints.len() {
            assert(after.constraints[j] == m.constraints[j]);
            lemma_constraint_closed_monotone(
                m.constraints[j],
                m.num_public_inputs,
                m.num_witnesses,
                after.num_public_inputs,
                after.num_witnesses,
            );
        } else if j < m.constraints.len() + n {
            let i = j - m.constraints.len();
            assert(after.constraints[j] == bit_constraints(first, n, p)[i]);
            lemma_boolean_constraint_closed(
                bit_variable(first, i),
                p,
                after.num_public_inputs,
                after.num_witnesses,
            );
        } else {
            assert(after.constraints[j] == recombination_constraint(first, n, x, p));
            assert(just(the_one())[0].0 == the_one());
            assert(just(x)[0].0 == x);
        }
    }
}

/// The number that the values of the first `k` bit variables spell.
pub open spec fn spelled(first: nat, k: nat, asg: AssignmentModel) -> nat
    decreases k,
{
    if k == 0 {
        0
    } else {
        spelled(first, (k - 1) as nat, asg) + asg.value_of(bit_variable(first, k - 1)) * pow2(
            (k - 1) as nat,
        )
    }
}

/// Bits spell a number below `2^k`, and the weighted bits are worth that
/// number, reduced.
proof fn lemma_spelled(first: nat, k: nat, asg: AssignmentModel, p: nat)
    requires
        p > 0,
        forall|i: int|
            0 <= i < k ==> asg.value_of(#[trigger] bit_variable(first, i)) == 0 || asg.value_of(
                bit_variable(first, i),
            ) == 1,
    ensures
        spelled(first, k, asg) < pow2(k),
        lc_eval(weighted_bits(first, k, p), asg, p) == spelled(first, k, asg) % p,
    decreases k,
{
    let s = weighted_bits(first, k, p);
    if k == 0 {
        lemma2_to64();
        lemma_small_mod(0, p);
    } else {
        let j = (k - 1) as nat;
        lemma_spelled(first, j, asg, p);
        lemma_pow2_unfold(k);
        assert(s.drop_last() =~= weighted_bits(first, j, p));
        assert(s.last() == (bit_variable(first, j as int), pow2_mod(j, p)));
        let b = asg.value_of(bit_variable(first, j as int));
        assert(b == 0 || b == 1);
        let pi = p as int;
        let prev = spelled(first, j, asg) as int;
        lemma_mul_mod_noop_general(pow2(j) as int, b as int, pi);
        lemma_add_mod_noop(prev, (pow2(j) * b) as int, pi);
        assert(pow2(j) * b == b * pow2(j)) by (nonlinear_arith);
        assert(b * pow2(j) <= pow2(j)) by (nonlinear_arith)
            requires
                b == 0 || b == 1,
        ;
    }
}

/// Range soundness. In a prime field whose modulus is at least `2^n`, any
/// assignment of residues that fulfils the boolean constraints on the `n`
/// bit variables and the recombination constraint gives `x` a value below
/// `2^n`: the number that the bits spell.
pub proof fn lemma_range_sound(first: nat, n: nat, x: Variable, asg: AssignmentModel, p: nat)
    requires
        crate::field::is_prime(p),
        pow2(n) <= p,
        asg.value_of(x) < p,
        forall|i: int| 0 <= i < n ==> asg.value_of(#[trigger] bit_variable(first, i)) < p,
        forall|i: int|
            0 <= i < n ==> constraint_holds(#[trigger] bit_constraints(first, n, p)[i], asg, p),
        constraint_holds(recombination_constraint(first, n, x, p), asg, p),
    ensures
        asg.value_of(x) < pow2(n),
        asg.value_of(x) == spelled(first, n, asg),
{
    assert forall|i: int| 0 <= i < n implies asg.value_of(#[trigger] bit_variable(first, i)) == 0
        || asg.value_of(bit_variable(first, i)) == 1 by {
        assert(bit_constraints(first, n, p)[i] == boolean_constraint(bit_variable(first, i), p));
        crate::laws::lemma_boolean_soundness(bit_variable(first, i), asg, p);
    }
    lemma_spelled(first, n, asg, p);
    lemma_eval_single(x, asg, p);
    lemma_eval_single(the_one(), asg, p);
    let total = spelled(first, n, asg);
    lemma_small_mod(total, p);
    assert(total * 1 == total) by (nonlinear_arith);
}

/// An assignment with the value of witness `i` replaced by `w`.
pub open spec fn with_witness_value(asg: AssignmentModel, i: int, w: nat) -> AssignmentModel {
    AssignmentModel { public_inputs: asg.public_inputs, witnesses: asg.witnesses.update(i, w) }
}

/// Replacing the value of bit `k` changes the number that the bits spell by
/// the difference of the two values times `2^k`.
proof fn lemma_spelled_update(first: nat, n: nat, asg: AssignmentModel, k: int, w: nat)
    requires
        first + n <= usize::MAX,
        first + n <= asg.witnesses.len(),
        0 <= k,
        first + k < asg.witnesses.len(),
    ensures
        k < n ==> spelled(first, n, with_witness_value(asg, first + k, w)) + asg.witnesses[first
            + k] * pow2(k as nat) == spelled(first, n, asg) + w * pow2(k as nat),
        k >= n ==> spelled(first, n, with_witness_value(asg, first + k, w)) == spelled(
            first,
            n,
            asg,
        ),
    decreases n,
{
    if n > 0 {
        let j = (n - 1) as nat;
        lemma_spelled_update(first, j, asg, k, w);
        let other = with_witness_value(asg, first + k, w);
        if k == j {
            assert(other.value_of(bit_variable(first, j as int)) == w);
        } else {
            assert(other.value_of(bit_variable(first, j as int)) == asg.value_of(
                bit_variable(first, j as int),
            ));
        }
    }
}

/// Flipping a bit. Where the value of `x` lies below `2^n`, `2^n` does not
/// exceed the modulus and the system before was satisfied, the values that
/// the range gadget collected with any one bit flipped violate the
/// recombination constraint: the checker answers `Violated` with its index.
pub proof fn lemma_range_flipped_bit(m: SystemModel, x: Variable, n: nat, p: nat, k: int)
    requires
        p > 1,
        pow2(n) <= p,
        m.wf(),
        m.mode == Mode::Proving,
        m.issued(x),
        m.values.reduced(p),
        m.num_witnesses + n <= usize::MAX,
        m.constraints.len() + n <= usize::MAX,
        m.values.value_of(x) < pow2(n),
        all_hold(m.constraints, m.values, p),
        0 <= k < n,
    ensures
        is_verdict(
            range_enforced(m, x, n, p).constraints,
            with_witness_value(
                range_enforced(m, x, n, p).values,
                m.num_witnesses + k,
                (1 - range_enforced(m, x, n, p).values.witnesses[m.num_witnesses + k]) as nat,
            ),
            p,
            SatisfiabilityResult::Violated((m.constraints.len() + n) as usize),
        ),
{
    let after = range_enforced(m, x, n, p);
    let first = m.num_witnesses;
    let v = m.values.value_of(x);
    let at = m.constraints.len() + n;
    lemma_values_after_range(m, x, n, p);
    let old_bit = after.values.witnesses[first + k];
    assert(old_bit == after.values.value_of(bit_variable(first, k)));
    assert(old_bit == 0 || old_bit == 1);
    let new_bit = (1 - old_bit) as nat;
    let flipped = with_witness_value(after.values, first + k, new_bit);
    // Every bit is still worth zero or one.
    assert forall|i: int| 0 <= i < n implies flipped.value_of(#[trigger] bit_variable(first, i))
        == 0 || flipped.value_of(bit_variable(first, i)) == 1 by {
        if i != k {
            assert(flipped.value_of(bit_variable(first, i)) == after.values.value_of(
                bit_variable(first, i),
            ));
        }
    }
    // The bits now spell another number below 2^n.
    lemma_spelled(first, n, after.values, p);
    lemma_spelled(first, n, flipped, p);
    lemma_weighted_bits_eval(first, n, v, after.values, p);
    lemma_bits_sum(v, n);
    lemma_small_mod(v, pow2(n));
    lemma_small_mod(v, p);
    lemma_small_mod(spelled(first, n, after.values), p);
    lemma_small_mod(spelled(first, n, flipped), p);
    lemma_spelled_update(first, n, after.values, k, new_bit);
    lemma_pow2_pos(k as nat);
    assert(spelled(first, n, flipped) != v) by {
        let w = pow2(k as nat);
        assert(old_bit * w != new_bit * w) by (nonlinear_arith)
            requires
                w > 0,
                (old_bit == 0 && new_bit == 1) || (old_bit == 1 && new_bit == 0),
        ;
    }
    // The recombination constraint fails.
    assert(flipped.value_of(x) == v);
    lemma_eval_single(x, flipped, p);
    lemma_eval_single(the_one(), flipped, p);
    let total = spelled(first, n, flipped);
    assert(total * 1 == total) by (nonlinear_arith);
    lemma_range_enforced_wf(m, x, n, p);
    assert(after.constraints[at as int] == recombination_constraint(first, n, x, p));
    assert(!constraint_holds(after.constraints[at as int], flipped, p));
    // Everything before it holds.
    assert forall|j: int| 0 <= j < at implies constraint_holds(
        #[trigger] after.constraints[j],
        flipped,
        p,
    ) by {
        if j < m.constraints.len() {
            assert(after.constraints[j] == m.constraints[j]);
            lemma_holds_agrees(
                m.constraints[j],
                m.values,
                flipped,
                m.num_public_inputs,
                m.num_witnesses,
                p,
            );
        } else {
            let i = j - m.constraints.len();
            assert(after.constraints[j] == bit_constraints(first, n, p)[i]);
            lemma_boolean_holds_for_bit(bit_variable(first, i), flipped, p);
        }
    }
    assert(first_violation_at(after.constraints, flipped, p, at as int));
}

} // verus!

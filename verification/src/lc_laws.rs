//! The algebra of linear combinations: evaluation respects sum, scaling and
//! the addition of a term.

use vstd::prelude::*;
use vstd::arithmetic::div_mod::{
    lemma_add_mod_noop,
    lemma_mod_bound,
    lemma_mul_mod_noop_general,
    lemma_small_mod,
};
use crate::assignment::AssignmentModel;
use crate::field::{add_mod, mul_mod, neg_mod};
use crate::lc::{
    coefficient_of, distinct_vars, lc_closed, lc_eval, mentions, position_of, scaled, sum_of,
    with_term,
};
use crate::modular::{lemma_add_mod_congruent, lemma_neg_mod_cancels};
use crate::variable::Variable;

verus! {

/// The weighted sum of a combination over the integers, before reduction.
pub open spec fn lc_total(s: Seq<(Variable, nat)>, asg: AssignmentModel) -> nat
    decreases s.len(),
{
    if s.len() == 0 {
        0
    } else {
        lc_total(s.drop_last(), asg) + s.last().1 * asg.value_of(s.last().0)
    }
}

/// Evaluation in the field is the integer sum, reduced.
pub proof fn lemma_eval_is_total(s: Seq<(Variable, nat)>, asg: AssignmentModel, p: nat)
    requires
        p > 0,
    ensures
        lc_eval(s, asg, p) == lc_total(s, asg) % p,
        lc_eval(s, asg, p) < p,
    decreases s.len(),
{
    if s.len() == 0 {
        lemma_small_mod(0, p);
    } else {
        lemma_eval_is_total(s.drop_last(), asg, p);
        let t = lc_total(s.drop_last(), asg) as int;
        let x = (s.last().1 * asg.value_of(s.last().0)) as int;
        lemma_add_mod_noop(t, x, p as int);
        lemma_mod_bound(t + x, p as int);
    }
}

/// Replacing the term at position `i` changes the integer sum by the
/// difference of the two terms.
proof fn lemma_total_update(
    s: Seq<(Variable, nat)>,
    asg: AssignmentModel,
    i: int,
    t: (Variable, nat),
)
    requires
        0 <= i < s.len(),
    ensures
        lc_total(s.update(i, t), asg) + s[i].1 * asg.value_of(s[i].0) == lc_total(s, asg) + t.1
            * asg.value_of(t.0),
    decreases s.len(),
{
    let u = s.update(i, t);
    if i == s.len() - 1 {
        assert(u.drop_last() =~= s.drop_last());
    } else {
        assert(u.drop_last() =~= s.drop_last().update(i, t));
        lemma_total_update(s.drop_last(), asg, i, t);
    }
}

/// Adding `c` on `v` adds `c` times the value of `v`.
pub proof fn lemma_eval_with_term(
    s: Seq<(Variable, nat)>,
    v: Variable,
    c: nat,
    asg: AssignmentModel,
    p: nat,
)
    requires
        p > 0,
    ensures
        lc_eval(with_term(s, v, c, p), asg, p) == add_mod(
            lc_eval(s, asg, p),
            mul_mod(c, asg.value_of(v), p),
            p,
        ),
{
    let pi = p as int;
    let x = asg.value_of(v) as int;
    let w = with_term(s, v, c, p);
    lemma_eval_is_total(s, asg, p);
    lemma_eval_is_total(w, asg, p);
    let total = lc_total(s, asg) as int;
    lemma_add_mod_noop(total, c * x, pi);
    if mentions(s, v) {
        let i = position_of(s, v);
        let a = s[i].1 as int;
        let t = (v, add_mod(s[i].1, c, p));
        lemma_total_update(s, asg, i, t);
        let rest = lc_total(w, asg) - (t.1 as int) * x;
        assert(rest + a * x == total);
        // The new coefficient times x is congruent to (a + c) * x.
        lemma_mul_mod_noop_general(a + c, x, pi);
        assert(((t.1 as int) * x) % pi == ((a + c) * x) % pi);
        lemma_add_mod_congruent(rest, (t.1 as int) * x, rest, (a + c) * x, pi);
        assert(rest + (a + c) * x == total + c * x) by (nonlinear_arith)
            requires
                rest + a * x == total,
        ;
    } else {
        assert(w.drop_last() =~= s);
    }
}

/// Adding a term on `v` changes the coefficient of `v` and of no other
/// variable: a coefficient that was there gets the field sum, a new one is
/// the term's own.
pub proof fn lemma_with_term_coefficients(
    s: Seq<(Variable, nat)>,
    v: Variable,
    c: nat,
    u: Variable,
    p: nat,
)
    requires
        distinct_vars(s),
    ensures
        distinct_vars(with_term(s, v, c, p)),
        mentions(with_term(s, v, c, p), u) == (mentions(s, u) || u == v),
        coefficient_of(with_term(s, v, c, p), u) == if u != v {
            coefficient_of(s, u)
        } else if mentions(s, v) {
            add_mod(coefficient_of(s, v), c, p)
        } else {
            c
        },
{
    let w = with_term(s, v, c, p);
    if mentions(s, v) {
        let i = position_of(s, v);
        assert forall|a: int, b: int| 0 <= a < b < w.len() implies w[a].0 != w[b].0 by {
            assert(w[a].0 == s[a].0 && w[b].0 == s[b].0);
        }
        assert(w[i].0 == v);
        if mentions(s, u) {
            let j = position_of(s, u);
            assert(w[j].0 == u);
        }
        if mentions(w, u) {
            let j = position_of(w, u);
            assert(s[j].0 == u);
            let k = position_of(s, u);
            assert(j == k) by {
                if j < k {
                    assert(s[j].0 != s[k].0);
                } else if k < j {
                    assert(s[k].0 != s[j].0);
                }
            }
        }
    } else {
        assert forall|a: int, b: int| 0 <= a < b < w.len() implies w[a].0 != w[b].0 by {
            if b < s.len() {
                assert(w[a] == s[a] && w[b] == s[b]);
            } else {
                assert(w[a] == s[a]);
            }
        }
        assert(w[s.len() as int].0 == v);
        if mentions(s, u) {
            let j = position_of(s, u);
            assert(w[j] == s[j]);
        }
        if mentions(w, u) {
            let j = position_of(w, u);
            if j < s.len() {
                assert(s[j] == w[j]);
                let k = position_of(s, u);
                assert(j == k) by {
                    if j < k {
                        assert(s[j].0 != s[k].0);
                    } else if k < j {
                        assert(s[k].0 != s[j].0);
                    }
                }
            } else {
                assert(u == v);
            }
        }
    }
}

/// Evaluation of a sum is the field sum of the evaluations.
pub proof fn lemma_eval_sum_of(
    a: Seq<(Variable, nat)>,
    b: Seq<(Variable, nat)>,
    asg: AssignmentModel,
    p: nat,
)
    requires
        p > 0,
    ensures
        lc_eval(sum_of(a, b, p), asg, p) == add_mod(lc_eval(a, asg, p), lc_eval(b, asg, p), p),
    decreases b.len(),
{
    let pi = p as int;
    lemma_eval_is_total(a, asg, p);
    lemma_eval_is_total(b, asg, p);
    if b.len() == 0 {
        lemma_small_mod(lc_eval(a, asg, p), p);
    } else {
        let rest = b.drop_last();
        lemma_eval_sum_of(a, rest, asg, p);
        lemma_eval_with_term(sum_of(a, rest, p), b.last().0, b.last().1, asg, p);
        lemma_eval_is_total(rest, asg, p);
        let ea = lc_total(a, asg) as int;
        let er = lc_total(rest, asg) as int;
        let x = (b.last().1 * asg.value_of(b.last().0)) as int;
        // ((ea % p + er % p) % p + x % p) % p == (ea % p + (er + x) % p) % p
        lemma_add_mod_noop(ea, er, pi);
        lemma_add_mod_noop(ea + er, x, pi);
        lemma_add_mod_noop(ea, er + x, pi);
    }
}

/// Evaluation of a scaled combination is the factor times the evaluation.
pub proof fn lemma_eval_scaled(s: Seq<(Variable, nat)>, k: nat, asg: AssignmentModel, p: nat)
    requires
        p > 0,
    ensures
        lc_eval(scaled(s, k, p), asg, p) == mul_mod(k, lc_eval(s, asg, p), p),
    decreases s.len(),
{
    let pi = p as int;
    lemma_eval_is_total(s, asg, p);
    if s.len() == 0 {
        assert(scaled(s, k, p) =~= s);
        assert(k * 0 == 0) by (nonlinear_arith);
        lemma_small_mod(0, p);
    } else {
        let rest = s.drop_last();
        assert(scaled(s, k, p).drop_last() =~= scaled(rest, k, p));
        lemma_eval_scaled(rest, k, asg, p);
        lemma_eval_is_total(rest, asg, p);
        let a = s.last().1 as int;
        let x = asg.value_of(s.last().0) as int;
        let tr = lc_total(rest, asg) as int;
        let ki = k as int;
        // left: ((k * (tr % p)) % p + (((a * k) % p) * x) % p) % p
        lemma_mul_mod_noop_general(ki, tr, pi);
        lemma_mul_mod_noop_general(a * ki, x, pi);
        lemma_add_mod_noop(ki * tr, (a * ki) * x, pi);
        // right: (k * ((tr + a * x) % p)) % p
        lemma_mul_mod_noop_general(ki, tr + a * x, pi);
        assert(ki * tr + (a * ki) * x == ki * (tr + a * x)) by (nonlinear_arith);
    }
}

/// Evaluation of `a - b` plus the evaluation of `b` is the evaluation of
/// `a`.
pub proof fn lemma_eval_difference(
    a: Seq<(Variable, nat)>,
    b: Seq<(Variable, nat)>,
    asg: AssignmentModel,
    p: nat,
)
    requires
        p > 1,
    ensures
        lc_eval(sum_of(a, scaled(b, neg_mod(1, p), p), p), asg, p) == add_mod(
            lc_eval(a, asg, p),
            neg_mod(lc_eval(b, asg, p), p),
            p,
        ),
{
    let pi = p as int;
    let nb = scaled(b, neg_mod(1, p), p);
    lemma_eval_sum_of(a, nb, asg, p);
    lemma_eval_scaled(b, neg_mod(1, p), asg, p);
    lemma_eval_is_total(b, asg, p);
    let eb = lc_eval(b, asg, p);
    crate::modular::lemma_neg_one_times(eb, p);
    lemma_neg_mod_cancels(eb, p);
    // Both mul_mod(p - 1, eb) and neg_mod(eb) are residues that cancel eb.
    let m = mul_mod(neg_mod(1, p), eb, p);
    let n = neg_mod(eb, p);
    lemma_mod_bound((neg_mod(1, p) * eb) as int, pi);
    assert(m < p && n < p);
    assert((m + eb) % p == 0 && (n + eb) % p == 0);
    lemma_cancelling_residues_agree(m, n, eb, p);
}

/// The value of a combination depends only on the variables it mentions.
pub proof fn lemma_eval_agrees(
    s: Seq<(Variable, nat)>,
    asg: AssignmentModel,
    other: AssignmentModel,
    num_public: nat,
    num_witness: nat,
    p: nat,
)
    requires
        lc_closed(s, num_public, num_witness),
        asg.agrees_with(other, num_public, num_witness),
    ensures
        lc_eval(s, asg, p) == lc_eval(s, other, p),
    decreases s.len(),
{
    if s.len() > 0 {
        let rest = s.drop_last();
        assert forall|j: int| 0 <= j < rest.len() implies (#[trigger] rest[j]).0.allocated_in(
            num_public,
            num_witness,
        ) by {
            assert(rest[j] == s[j]);
        }
        lemma_eval_agrees(rest, asg, other, num_public, num_witness, p);
        assert(s[s.len() - 1].0.allocated_in(num_public, num_witness));
    }
}

/// The value of the combination `1 * v` is the value of `v`.
pub proof fn lemma_eval_single(v: Variable, asg: AssignmentModel, p: nat)
    requires
        p > 0,
        asg.value_of(v) < p,
    ensures
        lc_eval(seq![(v, 1nat)], asg, p) == asg.value_of(v),
        lc_eval(Seq::<(Variable, nat)>::empty(), asg, p) == 0,
{
    let s = seq![(v, 1nat)];
    let none = Seq::<(Variable, nat)>::empty();
    assert(s.drop_last() =~= none);
    assert(s.last() == (v, 1nat));
    let x = asg.value_of(v);
    assert(1 * x == x) by (nonlinear_arith);
    lemma_small_mod(x, p);
    assert(lc_eval(none, asg, p) == 0);
    assert(mul_mod(1, x, p) == x);
    assert(lc_eval(s, asg, p) == add_mod(lc_eval(s.drop_last(), asg, p), mul_mod(1, x, p), p));
}

/// Two residues that cancel the same residue are equal.
proof fn lemma_cancelling_residues_agree(m: nat, n: nat, e: nat, p: nat)
    requires
        p > 0,
        m < p,
        n < p,
        e < p,
        (m + e) % p == 0,
        (n + e) % p == 0,
    ensures
        m == n,
{
    let pi = p as int;
    // m + e and n + e both lie in [0, 2p) and are multiples of p.
    if m + e < p {
        lemma_small_mod(m + e, p);
    } else {
        lemma_small_mod(((m + e) - p) as nat, p);
        vstd::arithmetic::div_mod::lemma_mod_add_multiples_vanish((m + e) - pi, pi);
    }
    if n + e < p {
        lemma_small_mod(n + e, p);
    } else {
        lemma_small_mod(((n + e) - p) as nat, p);
        vstd::arithmetic::div_mod::lemma_mod_add_multiples_vanish((n + e) - pi, pi);
    }
    if e == 0 {
    } else {
    }
}

} // verus!

//! The bit-decomposition range gadget.

use vstd::prelude::*;
use vstd::arithmetic::power2::{lemma_pow2_unfold, lemma2_to64, pow2};
use vstd::arithmetic::div_mod::{lemma_add_mod_noop, lemma_small_mod};
use crate::assignment::AssignmentModel;
use crate::constraint::{constraint_closed, ConstraintModel};
use crate::error::{AssignmentMissing, SynthesisError};
use crate::field::{bit_of, Field};
use crate::gadgets::{boolean_constraint, enforce_boolean, just, the_one};
use crate::lc::{lc_closed, mentions, LinearCombination};
use crate::system::{provided, ConstraintSystem, Mode, SystemModel};
use crate::variable::{Variable, VariableKind};

verus! {

/// The residue of `2^i`.
pub open spec fn pow2_mod(i: nat, p: nat) -> nat {
    pow2(i) % p
}

/// The witness that holds bit `i`, where the first bit has index `first`.
pub open spec fn bit_variable(first: nat, i: int) -> Variable {
    Variable { kind: VariableKind::Witness, index: (first + i) as usize }
}

/// The witnesses of `n` bits, least significant first.
pub open spec fn bit_variables(first: nat, n: nat) -> Seq<Variable> {
    Seq::new(n, |i: int| bit_variable(first, i))
}

/// The combination that weighs bit `i` with `2^i`.
pub open spec fn weighted_bits(first: nat, n: nat, p: nat) -> Seq<(Variable, nat)> {
    Seq::new(n, |i: int| (bit_variable(first, i), pow2_mod(i as nat, p)))
}

/// The constraint that the weighted bits recombine to `x`.
pub open spec fn recombination_constraint(first: nat, n: nat, x: Variable, p: nat) -> ConstraintModel {
    ConstraintModel::Rank1 { a: weighted_bits(first, n, p), b: just(the_one()), c: just(x) }
}

/// One boolean constraint for each of `n` bits.
pub open spec fn bit_constraints(first: nat, n: nat, p: nat) -> Seq<ConstraintModel> {
    Seq::new(n, |i: int| boolean_constraint(bit_variable(first, i), p))
}

/// Bit `i` of `v` as a residue.
pub open spec fn bit_residue(v: nat, i: nat) -> nat {
    if bit_of(v, i) {
        1
    } else {
        0
    }
}

/// The low `n` bits of `v`, least significant first, as residues.
pub open spec fn bit_values(v: nat, n: nat) -> Seq<nat> {
    Seq::new(n, |i: int| bit_residue(v, i as nat))
}

/// The system after the first `k` bits of a decomposition of `x`: `k` new
/// witnesses, each with its boolean constraint, and in proving mode the low
/// `k` bits of the value of `x`.
pub open spec fn bits_allocated(m: SystemModel, x: Variable, k: nat, p: nat) -> SystemModel {
    SystemModel {
        mode: m.mode,
        num_public_inputs: m.num_public_inputs,
        num_witnesses: m.num_witnesses + k,
        constraints: m.constraints + bit_constraints(m.num_witnesses, k, p),
        values: AssignmentModel {
            public_inputs: m.values.public_inputs,
            witnesses: match m.mode {
                Mode::Setup => m.values.witnesses,
                Mode::Proving => m.values.witnesses + bit_values(m.values.value_of(x), k),
            },
        },
    }
}

/// The system after the range gadget on `x` with `n` bits: the bits, their
/// boolean constraints in order, then the recombination constraint.
pub open spec fn range_enforced(m: SystemModel, x: Variable, n: nat, p: nat) -> SystemModel {
    bits_allocated(m, x, n, p).with_constraint(
        recombination_constraint(m.num_witnesses, n, x, p),
    )
}

/// Doubling the residue of `2^i` gives the residue of `2^(i+1)`.
pub proof fn lemma_pow2_mod_step(i: nat, p: nat)
    requires
        p > 0,
    ensures
        (pow2_mod(i, p) + pow2_mod(i, p)) % p == pow2_mod(i + 1, p),
{
    lemma_pow2_unfold(i + 1);
    lemma_add_mod_noop(pow2(i) as int, pow2(i) as int, p as int);
}

/// Decomposes `x` into `n` bits, least significant first: issues `n` fresh
/// witnesses, constrains each to be a bit, and constrains their weighted sum
/// to equal `x`. In proving mode bit `i` gets bit `i` of the value of `x`.
/// Where `x` was not issued by `cs`, nothing is recorded.
///
/// The gadget shows `0 <= x < 2^n` only in a prime field whose modulus is at
/// least `2^n`: the caller picks `n` accordingly.
pub fn enforce_range<F: Field>(cs: &mut ConstraintSystem<F>, x: Variable, n: usize) -> (r: Result<
    Vec<Variable>,
    SynthesisError,
>)
    requires
        old(cs)@.wf(),
        old(cs)@.num_witnesses + n <= usize::MAX,
    ensures
        final(cs)@.wf(),
        old(cs)@.issued(x) ==> (r matches Ok(bits) && bits@ == bit_variables(
            old(cs)@.num_witnesses,
            n as nat,
        )) && final(cs)@ == range_enforced(old(cs)@, x, n as nat, F::modulus()),
        !old(cs)@.issued(x) ==> r == Err::<Vec<Variable>, SynthesisError>(
            SynthesisError::MalformedConstraint,
        ) && final(cs)@ == old(cs)@,
{
    if !cs.has_issued(x) {
        return Err(SynthesisError::MalformedConstraint);
    }
    let ghost start = cs@;
    let ghost p = F::modulus();
    let ghost first = cs@.num_witnesses;
    let x_value: Option<F> = cs.value_of(x);
    let mut bits: Vec<Variable> = Vec::new();
    let mut lc: LinearCombination<F> = LinearCombination::zero();
    let mut coeff: F = F::one();
    let mut k: usize = 0;
    proof {
        coeff.lemma_residue();
        lemma2_to64();
        lemma_small_mod(1, p);
        assert(bit_constraints(first, 0, p) =~= Seq::empty());
        assert(start.constraints + Seq::<ConstraintModel>::empty() =~= start.constraints);
        assert(bit_values(start.values.value_of(x), 0) =~= Seq::empty());
        assert(start.values.witnesses + Seq::<nat>::empty() =~= start.values.witnesses);
        assert(bits@ =~= bit_variables(first, 0));
        assert(lc@ =~= weighted_bits(first, 0, p));
    }
    while k < n
        invariant
            k <= n,
            p == F::modulus(),
            p > 1,
            start == old(cs)@,
            start.wf(),
            start.issued(x),
            first == start.num_witnesses,
            first + n <= usize::MAX,
            x_value is Some <==> start.mode == Mode::Proving,
            x_value matches Some(v) ==> v.value() == start.values.value_of(x),
            cs@.wf(),
            cs@ == bits_allocated(start, x, k as nat, p),
            bits@ == bit_variables(first, k as nat),
            lc@ == weighted_bits(first, k as nat, p),
            coeff.value() == pow2_mod(k as nat, p),
        decreases n - k,
    {
        let ghost before = cs@;
        let bit_value: Option<F> = match x_value {
            Some(v) => Some(
                if v.bit(k) {
                    F::one()
                } else {
                    F::zero()
                },
            ),
            None => None,
        };
        let provider = || -> (out: Result<F, AssignmentMissing>)
            ensures
                out == provided(bit_value),
            {
                match bit_value {
                    Some(b) => Ok(b),
                    None => Err(AssignmentMissing),
                }
            };
        let allocated = cs.allocate_witness(provider);
        let b = match allocated {
            Ok(b) => b,
            Err(e) => {
                assert(false);
                return Err(e);
            },
        };
        assert(b == bit_variable(first, k as int));
        let ghost bv = bit_residue(start.values.value_of(x), k as nat);
        assert(cs@ == before.alloc_witness(bv));
        let ghost mid = cs@;
        let enforced = enforce_boolean(cs, b);
        proof {
            assert(mid.issued(b));
            assert(enforced is Ok);
            // One more bit: the sequences grow by one element each.
            let kn = k as nat;
            assert(bit_constraints(first, kn + 1, p) =~= bit_constraints(first, kn, p).push(
                boolean_constraint(b, p),
            ));
            assert(cs@.constraints =~= start.constraints + bit_constraints(first, kn + 1, p));
            assert(bit_values(start.values.value_of(x), kn + 1) =~= bit_values(
                start.values.value_of(x),
                kn,
            ).push(bv));
            if start.mode == Mode::Proving {
                assert(cs@.values.witnesses =~= start.values.witnesses + bit_values(
                    start.values.value_of(x),
                    kn + 1,
                ));
            }
            assert(cs@ == bits_allocated(start, x, kn + 1, p));
            assert(bit_variables(first, kn + 1) =~= bit_variables(first, kn).push(b));
            // The new bit is on a fresh variable, so its term goes to the end.
            assert(!mentions(lc@, b)) by {
                if mentions(lc@, b) {
                    let j = choose|j: int| 0 <= j < lc@.len() && lc@[j].0 == b;
                    assert(lc@[j].0 == bit_variable(first, j));
                }
            }
            assert(weighted_bits(first, kn + 1, p) =~= weighted_bits(first, kn, p).push(
                (b, pow2_mod(kn, p)),
            ));
            lemma_pow2_mod_step(kn, p);
        }
        bits.push(b);
        lc = lc.add_term(b, coeff);
        coeff = coeff.add(&coeff);
        k += 1;
    }
    let ghost done = cs@;
    proof {
        let c = recombination_constraint(first, n as nat, x, p);
        assert(lc_closed(weighted_bits(first, n as nat, p), done.num_public_inputs, done.num_witnesses));
        assert(just(the_one())[0].0 == the_one());
        assert(just(x)[0].0 == x);
        assert(lc_closed(just(the_one()), done.num_public_inputs, done.num_witnesses));
        assert(lc_closed(just(x), done.num_public_inputs, done.num_witnesses));
        assert(constraint_closed(c, done.num_public_inputs, done.num_witnesses));
    }
    let recombined = cs.enforce_rank1(
        lc,
        LinearCombination::from_variable(Variable::one()),
        LinearCombination::from_variable(x),
    );
    assert(recombined is Ok);
    Ok(bits)
}

} // verus!

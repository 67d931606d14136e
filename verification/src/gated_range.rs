//! The range proof on a gated constraint system: one gate `b * (b - 1)` for
//! each bit and one gate `input - sum(b_i * 2^i)`.

use vstd::prelude::*;
use vstd::arithmetic::power2::pow2;
use vstd::bits::{lemma_u64_shl_is_mul, lemma_u64_shr_is_div};
use crate::chips::active;
use crate::constraint::ConstraintModel;
use crate::error::{AssignmentMissing, SynthesisError};
use crate::expression::{expr_closed, ExprModel, Expression};
use crate::field::{bit_of, Field};
use crate::hash_circuit::witnesses_allocated;
use crate::range::{bit_residue, bit_values, bit_variable, bit_variables, pow2_mod};
use crate::range_circuit::RANGE_PROOF_BITS;
use crate::system::{circuit_outcome, provides, ConstraintSystem, Mode, SystemModel};
use crate::variable::Variable;

verus! {

/// The polynomial `b * (b - 1)`.
pub open spec fn bit_gate_model(b: Variable) -> ExprModel {
    ExprModel::Product(
        Box::new(ExprModel::Var(b)),
        Box::new(
            ExprModel::Sum(
                Box::new(ExprModel::Var(b)),
                Box::new(ExprModel::Neg(Box::new(ExprModel::Constant(1)))),
            ),
        ),
    )
}

/// The polynomial `0 + b_0 * 2^0 + ... + b_(k-1) * 2^(k-1)` over the bit
/// variables that start at `first`.
pub open spec fn recombination_model(first: nat, k: nat, p: nat) -> ExprModel
    decreases k,
{
    if k == 0 {
        ExprModel::Constant(0)
    } else {
        ExprModel::Sum(
            Box::new(recombination_model(first, (k - 1) as nat, p)),
            Box::new(
                ExprModel::Product(
                    Box::new(ExprModel::Var(bit_variable(first, k - 1))),
                    Box::new(ExprModel::Constant(pow2_mod((k - 1) as nat, p))),
                ),
            ),
        )
    }
}

/// The polynomial `input - sum(b_i * 2^i)`.
pub open spec fn range_gate_model(input: Variable, first: nat, n: nat, p: nat) -> ExprModel {
    ExprModel::Sum(
        Box::new(ExprModel::Var(input)),
        Box::new(ExprModel::Neg(Box::new(recombination_model(first, n, p)))),
    )
}

/// The gates of the range proof, in order: one for each bit, then the
/// recombination gate.
pub open spec fn range_gate_models(input: Variable, first: nat, n: nat, p: nat) -> Seq<ExprModel> {
    Seq::new(n, |i: int| bit_gate_model(bit_variable(first, i))).push(
        range_gate_model(input, first, n, p),
    )
}

/// The models of a sequence of expressions.
pub open spec fn expr_models<F: Field>(s: Seq<Expression<F>>) -> Seq<ExprModel> {
    Seq::new(s.len(), |i: int| s[i]@)
}

/// Every gate, active.
pub open spec fn all_active(gates: Seq<ExprModel>) -> Seq<ConstraintModel> {
    Seq::new(gates.len(), |i: int| active(gates[i]))
}

/// The recombination polynomial mentions the bit variables only.
pub proof fn lemma_recombination_closed(first: nat, k: nat, p: nat, np: nat, nw: nat)
    requires
        first + k <= nw,
        nw <= usize::MAX,
    ensures
        expr_closed(recombination_model(first, k, p), np, nw),
    decreases k,
{
    reveal_with_fuel(expr_closed, 3);
    if k > 0 {
        lemma_recombination_closed(first, (k - 1) as nat, p, np, nw);
    }
}

/// Every gate of the range proof mentions the input and the bits only.
pub proof fn lemma_range_gates_closed(input: Variable, first: nat, n: nat, p: nat, np: nat, nw: nat)
    requires
        first + n <= nw,
        nw <= usize::MAX,
        input.allocated_in(np, nw),
    ensures
        forall|i: int|
            0 <= i < range_gate_models(input, first, n, p).len() ==> expr_closed(
                #[trigger] range_gate_models(input, first, n, p)[i],
                np,
                nw,
            ),
{
    reveal_with_fuel(expr_closed, 4);
    lemma_recombination_closed(first, n, p, np, nw);
}

/// The bit-check polynomial `b * (b - 1)` as an expression.
pub fn bit_gate<F: Field>(b: Variable) -> (e: Expression<F>)
    ensures
        e@ == bit_gate_model(b),
{
    Expression::var(b).times(Expression::var(b).minus(Expression::constant(F::one())))
}

/// The gates of the range proof for the cell `input` and `n` bit cells that
/// start at witness `first`.
pub fn range_gates<F: Field>(input: Variable, first: usize, n: usize) -> (gates: Vec<
    Expression<F>,
>)
    requires
        first + n <= usize::MAX,
        n <= 64,
    ensures
        expr_models(gates@) == range_gate_models(input, first as nat, n as nat, F::modulus()),
{
    let ghost p = F::modulus();
    let ghost target = range_gate_models(input, first as nat, n as nat, p);
    let mut gates: Vec<Expression<F>> = Vec::new();
    let mut recombined: Expression<F> = Expression::constant(F::zero());
    let mut i: usize = 0;
    assert(expr_models(gates@) =~= target.take(0));
    while i < n
        invariant
            i <= n,
            n <= 64,
            first + n <= usize::MAX,
            p == F::modulus(),
            target == range_gate_models(input, first as nat, n as nat, p),
            expr_models(gates@) == target.take(i as int),
            recombined@ == recombination_model(first as nat, i as nat, p),
        decreases n - i,
    {
        let b = Variable::witness(first + i);
        let weight = F::from_u64(1u64 << (i as u64));
        proof {
            vstd::bits::lemma_u64_pow2_no_overflow(i as nat);
            lemma_u64_shl_is_mul(1, i as u64);
            assert(1u64 << (i as u64) == pow2(i as nat));
        }
        let ghost before = gates@;
        gates.push(bit_gate(b));
        recombined = recombined.plus(Expression::var(b).times(Expression::constant(weight)));
        proof {
            assert(expr_models(gates@) =~= expr_models(before).push(bit_gate_model(b)));
            assert(target.take(i as int + 1) =~= target.take(i as int).push(target[i as int]));
        }
        i += 1;
    }
    let ghost before = gates@;
    gates.push(Expression::var(input).minus(recombined));
    proof {
        assert(expr_models(gates@) =~= expr_models(before).push(
            range_gate_model(input, first as nat, n as nat, p),
        ));
        assert(target.take(n as int).push(target[n as int]) =~= target);
    }
    gates
}

/// Bit `i` of a 64-bit number; zero past the last bit.
pub fn bit_of_u64(v: u64, i: usize) -> (b: bool)
    ensures
        b == bit_of(v as nat, i as nat),
{
    if i < 64 {
        let shifted = v >> (i as u64);
        proof {
            lemma_u64_shr_is_div(v, i as u64);
            assert((shifted & 1 == 1) == (shifted % 2 == 1)) by (bit_vector);
        }
        shifted & 1 == 1
    } else {
        proof {
            vstd::arithmetic::power2::lemma2_to64_rest();
            if i > 64 {
                vstd::arithmetic::power2::lemma_pow2_strictly_increases(64, i as nat);
            }
            vstd::arithmetic::div_mod::lemma_basic_div(v as int, pow2(i as nat) as int);
        }
        false
    }
}

/// Issues `n` witnesses for the low bits of `input`, least significant
/// first.
fn allocate_bits<F: Field>(cs: &mut ConstraintSystem<F>, input: Option<u64>, n: usize) -> (bits: Vec<
    Variable,
>)
    requires
        old(cs)@.wf(),
        old(cs)@.num_witnesses + n <= usize::MAX,
        n <= 64,
        old(cs)@.mode == Mode::Proving ==> input is Some,
    ensures
        final(cs)@.wf(),
        bits@ == bit_variables(old(cs)@.num_witnesses, n as nat),
        final(cs)@ == witnesses_allocated(
            old(cs)@,
            n as nat,
            bit_values(
                match input {
                    Some(v) => v as nat,
                    None => 0,
                },
                n as nat,
            ),
        ),
{
    let ghost start = cs@;
    let ghost v = match input {
        Some(v) => v as nat,
        None => 0,
    };
    let ghost vals = bit_values(v, n as nat);
    let mut bits: Vec<Variable> = Vec::new();
    let mut k: usize = 0;
    proof {
        assert(bit_values(v, 0) =~= Seq::<nat>::empty());
        assert(start.values.witnesses + Seq::<nat>::empty() =~= start.values.witnesses);
        assert(bits@ =~= bit_variables(start.num_witnesses, 0));
    }
    while k < n
        invariant
            k <= n,
            n <= 64,
            start == old(cs)@,
            start.wf(),
            start.num_witnesses + n <= usize::MAX,
            start.mode == Mode::Proving ==> input is Some,
            v == match input {
                Some(v) => v as nat,
                None => 0,
            },
            cs@.wf(),
            cs@ == witnesses_allocated(start, k as nat, bit_values(v, k as nat)),
            bits@ == bit_variables(start.num_witnesses, k as nat),
        decreases n - k,
    {
        let value: Option<F> = match input {
            Some(x) => Some(
                if bit_of_u64(x, k) {
                    F::one()
                } else {
                    F::zero()
                },
            ),
            None => None,
        };
        let ghost expected: Option<nat> = match input {
            Some(x) => Some(bit_residue(x as nat, k as nat)),
            None => None,
        };
        let provider = || -> (out: Result<F, AssignmentMissing>)
            ensures
                provides(out, expected),
            {
                match value {
                    Some(b) => Ok(b),
                    None => Err(AssignmentMissing),
                }
            };
        let b = match cs.allocate_witness(provider) {
            Ok(b) => b,
            Err(_) => {
                assert(false);
                return bits;
            },
        };
        proof {
            let kn = k as nat;
            assert(bit_values(v, kn + 1) =~= bit_values(v, kn).push(bit_residue(v, kn)));
            if start.mode == Mode::Proving {
                assert(cs@.values.witnesses =~= start.values.witnesses + bit_values(v, kn + 1));
            }
            assert(bit_variables(start.num_witnesses, kn + 1) =~= bit_variables(
                start.num_witnesses,
                kn,
            ).push(b));
        }
        bits.push(b);
        k += 1;
    }
    bits
}

/// The number that an optional input stands for, or zero.
pub open spec fn input_or_zero(input: Option<u64>) -> nat {
    match input {
        Some(v) => v as nat,
        None => 0,
    }
}

/// The system after the synthesis of the gated range proof for `input`: a
/// cell for the input, 32 cells for its low bits, then the gates of the
/// range proof, all active.
pub open spec fn gated_range_synthesized(m: SystemModel, input: nat, p: nat) -> SystemModel {
    let cells = witnesses_allocated(
        m.alloc_witness(input % p),
        RANGE_PROOF_BITS as nat,
        bit_values(input, RANGE_PROOF_BITS as nat),
    );
    SystemModel {
        constraints: cells.constraints + all_active(
            range_gate_models(
                m.next_witness(),
                m.num_witnesses + 1,
                RANGE_PROOF_BITS as nat,
                p,
            ),
        ),
        ..cells
    }
}

/// The circuit that shows `0 <= input < 2^32` on a gated constraint system.
pub struct GatedRangeCircuit {
    pub input: Option<u64>,
}

impl GatedRangeCircuit {
    /// Synthesizes the circuit into `cs`.
    pub fn synthesize<F: Field>(&self, cs: &mut ConstraintSystem<F>) -> (r: Result<
        (),
        SynthesisError,
    >)
        requires
            old(cs)@.wf(),
            old(cs)@.num_witnesses + 1 + RANGE_PROOF_BITS <= usize::MAX,
        ensures
            final(cs)@.wf(),
            circuit_outcome(
                old(cs)@,
                match self.input {
                    Some(v) => Some(v as nat),
                    None => None,
                },
                gated_range_synthesized(old(cs)@, input_or_zero(self.input), F::modulus()),
                final(cs)@,
                r,
            ),
    {
        let ghost start = cs@;
        let ghost p = F::modulus();
        let input = self.input;
        let ghost expected: Option<nat> = match input {
            Some(v) => Some((v as nat) % p),
            None => None,
        };
        let provider = || -> (out: Result<F, AssignmentMissing>)
            ensures
                provides(out, expected),
            {
                match input {
                    Some(v) => Ok(F::from_u64(v)),
                    None => Err(AssignmentMissing),
                }
            };
        let cell = match cs.allocate_witness(provider) {
            Ok(v) => v,
            Err(e) => {
                return Err(e);
            },
        };
        let first = cs.num_witnesses();
        let bits = allocate_bits(cs, input, RANGE_PROOF_BITS);
        let ghost cells = cs@;
        let gates = range_gates::<F>(cell, first, RANGE_PROOF_BITS);
        let ghost models = range_gate_models(cell, first as nat, RANGE_PROOF_BITS as nat, p);
        proof {
            lemma_range_gates_closed(
                cell,
                first as nat,
                RANGE_PROOF_BITS as nat,
                p,
                cells.num_public_inputs,
                cells.num_witnesses,
            );
        }
        let n = gates.len();
        let mut i: usize = 0;
        assert(cells.constraints + all_active(models).take(0) =~= cells.constraints);
        while i < n
            invariant
                i <= n,
                n == gates@.len(),
                expr_models(gates@) == models,
                cs@.wf(),
                cells.wf(),
                cs@ == (SystemModel {
                    constraints: cells.constraints + all_active(models).take(i as int),
                    ..cells
                }),
                forall|j: int|
                    0 <= j < models.len() ==> expr_closed(
                        #[trigger] models[j],
                        cells.num_public_inputs,
                        cells.num_witnesses,
                    ),
            decreases n - i,
        {
            let gate = gates[i].duplicate();
            let ghost before = cs@;
            proof {
                assert(expr_models(gates@)[i as int] == gates@[i as int]@);
                assert(expr_closed(models[i as int], cells.num_public_inputs, cells.num_witnesses));
            }
            let enforced = cs.enforce_gated(true, gate);
            proof {
                assert(enforced is Ok);
                let all = all_active(models);
                assert(all.take(i as int + 1) =~= all.take(i as int).push(all[i as int]));
                assert(before.constraints.push(all[i as int]) =~= cells.constraints + all.take(
                    i as int + 1,
                ));
            }
            i += 1;
        }
        proof {
            assert(all_active(models).take(n as int) =~= all_active(models));
        }
        Ok(())
    }
}

} // verus!

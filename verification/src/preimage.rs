//! Knowledge of a SHA-256 preimage, bit by bit: the message bits are secret
//! booleans and every bit of the digest is asserted to be the bit of the
//! expected digest.

use vstd::prelude::*;
use crate::checker::{all_hold, check_synthesized, SatisfiabilityResult};
use crate::constraint::ConstraintModel;
use crate::error::{AssignmentMissing, ProofError, SynthesisError};
use crate::field::Field;
use crate::gadgets::{boolean_constraint, enforce_boolean, just, the_one};
use crate::hash_circuit::{consecutive, witnesses_allocated};
use crate::lc::LinearCombination;
use crate::sha256::{array_to_bits, bits_of, sha256, sha256_of};
use crate::system::{provides, ConstraintSystem, Mode, SystemModel};
use crate::variable::{Variable, VariableKind};

verus! {

/// The number of bits of a SHA-256 digest.
pub const DIGEST_BITS: usize = 256;

/// A bit as a residue.
pub open spec fn bool_residue(b: bool) -> nat {
    if b {
        1
    } else {
        0
    }
}

/// Bits as residues.
pub open spec fn bool_residues(bits: Seq<bool>) -> Seq<nat> {
    Seq::new(bits.len(), |i: int| bool_residue(bits[i]))
}

/// The constraint `v * 1 = 1` or `v * 1 = 0`, as `expected` says.
pub open spec fn assert_constraint(v: Variable, expected: bool) -> ConstraintModel {
    ConstraintModel::Rank1 {
        a: just(v),
        b: just(the_one()),
        c: if expected {
            just(the_one())
        } else {
            Seq::empty()
        },
    }
}

/// One boolean constraint for each of the variables.
pub open spec fn boolean_constraints(vars: Seq<Variable>, p: nat) -> Seq<ConstraintModel> {
    Seq::new(vars.len(), |i: int| boolean_constraint(vars[i], p))
}

/// One assertion for each of the variables.
pub open spec fn assert_constraints(vars: Seq<Variable>, expected: Seq<bool>) -> Seq<
    ConstraintModel,
> {
    Seq::new(vars.len(), |i: int| assert_constraint(vars[i], expected[i]))
}

/// The statement "I know a message with this digest": in proving mode, a
/// boolean witness for each bit of `msg`, a witness for each bit of
/// `digest`, the boolean constraints on the message bits, and the assertion
/// of each digest bit against the bit of `expected`.
pub open spec fn preimage_statement(
    msg: Seq<u8>,
    digest: Seq<u8>,
    expected: Seq<u8>,
    p: nat,
) -> SystemModel {
    let message_bits = witnesses_allocated(
        SystemModel::empty(Mode::Proving),
        8 * msg.len(),
        bool_residues(bits_of(msg)),
    );
    let digest_bits = witnesses_allocated(
        message_bits,
        8 * digest.len(),
        bool_residues(bits_of(digest)),
    );
    SystemModel {
        constraints: boolean_constraints(consecutive(VariableKind::Witness, 0, 8 * msg.len()), p)
            + assert_constraints(
            consecutive(VariableKind::Witness, 8 * msg.len(), 8 * digest.len()),
            bits_of(expected),
        ),
        ..digest_bits
    }
}

/// Issues one witness for each bit. In proving mode bit `i` becomes the
/// value of witness `i`.
pub fn allocate_bit_witnesses<F: Field>(cs: &mut ConstraintSystem<F>, bits: &Vec<bool>) -> (vars:
    Vec<Variable>)
    requires
        old(cs)@.wf(),
        old(cs)@.num_witnesses + bits@.len() <= usize::MAX,
    ensures
        final(cs)@.wf(),
        vars@ == consecutive(VariableKind::Witness, old(cs)@.num_witnesses, bits@.len()),
        final(cs)@ == witnesses_allocated(old(cs)@, bits@.len(), bool_residues(bits@)),
{
    let ghost start = cs@;
    let ghost vals = bool_residues(bits@);
    let n = bits.len();
    let mut vars: Vec<Variable> = Vec::new();
    let mut k: usize = 0;
    proof {
        assert(vals.take(0) =~= Seq::<nat>::empty());
        assert(start.values.witnesses + Seq::<nat>::empty() =~= start.values.witnesses);
        assert(vars@ =~= consecutive(VariableKind::Witness, start.num_witnesses, 0));
    }
    while k < n
        invariant
            k <= n,
            n == bits@.len(),
            start == old(cs)@,
            start.wf(),
            start.num_witnesses + n <= usize::MAX,
            vals == bool_residues(bits@),
            cs@.wf(),
            cs@ == witnesses_allocated(start, k as nat, vals.take(k as int)),
            vars@ == consecutive(VariableKind::Witness, start.num_witnesses, k as nat),
        decreases n - k,
    {
        let bit = bits[k];
        let provider = || -> (out: Result<F, AssignmentMissing>)
            ensures
                provides(out, Some(bool_residue(bit))),
            {
                if bit {
                    Ok(F::one())
                } else {
                    Ok(F::zero())
                }
            };
        let v = match cs.allocate_witness(provider) {
            Ok(v) => v,
            Err(_) => {
                assert(false);
                return vars;
            },
        };
        proof {
            let kn = k as nat;
            assert(vals.take(k as int + 1) =~= vals.take(k as int).push(vals[k as int]));
            if start.mode == Mode::Proving {
                assert(cs@.values.witnesses =~= start.values.witnesses + vals.take(k as int + 1));
            }
            assert(consecutive(VariableKind::Witness, start.num_witnesses, kn + 1)
                =~= consecutive(VariableKind::Witness, start.num_witnesses, kn).push(v));
        }
        vars.push(v);
        k += 1;
    }
    proof {
        assert(vals.take(n as int) =~= vals);
    }
    vars
}

/// Asserts that `v` is worth one, or zero, as `expected` says.
pub fn assert_bit<F: Field>(cs: &mut ConstraintSystem<F>, v: Variable, expected: bool) -> (r:
    Result<(), SynthesisError>)
    requires
        old(cs)@.wf(),
    ensures
        final(cs)@.wf(),
        crate::system::enforce_outcome(
            old(cs)@,
            assert_constraint(v, expected),
            final(cs)@,
            r,
        ),
        r is Ok <==> old(cs)@.issued(v),
{
    proof {
        assert(just(v)[0].0 == v);
        assert(just(the_one())[0].0 == the_one());
    }
    let c = if expected {
        LinearCombination::from_variable(Variable::one())
    } else {
        LinearCombination::zero()
    };
    cs.enforce_rank1(
        LinearCombination::from_variable(v),
        LinearCombination::from_variable(Variable::one()),
        c,
    )
}

/// Builds the statement for a message, the digest computed from it and the
/// digest that is expected.
pub fn build_preimage_statement<F: Field>(msg: &[u8], digest: &[u8; 32], expected: &[u8; 32]) -> (cs:
    ConstraintSystem<F>)
    requires
        8 * msg@.len() + DIGEST_BITS <= usize::MAX,
    ensures
        cs@.wf(),
        cs@ == preimage_statement(msg@, digest@, expected@, F::modulus()),
{
    let ghost p = F::modulus();
    let mut cs = ConstraintSystem::new(Mode::Proving);
    let msg_bits = array_to_bits(msg);
    let digest_bits = array_to_bits(digest);
    let expected_bits = array_to_bits(expected);
    let message = allocate_bit_witnesses(&mut cs, &msg_bits);
    let output = allocate_bit_witnesses(&mut cs, &digest_bits);
    let ghost allocated = cs@;
    let ghost booleans = boolean_constraints(message@, p);
    let ghost asserts = assert_constraints(output@, expected_bits@);
    let mut i: usize = 0;
    assert(allocated.constraints + booleans.take(0) =~= Seq::<ConstraintModel>::empty());
    while i < message.len()
        invariant
            i <= message@.len(),
            p == F::modulus(),
            allocated.wf(),
            allocated.constraints.len() == 0,
            booleans == boolean_constraints(message@, p),
            forall|j: int| 0 <= j < message@.len() ==> allocated.issued(#[trigger] message@[j]),
            cs@.wf(),
            cs@ == (SystemModel { constraints: booleans.take(i as int), ..allocated }),
        decreases message@.len() - i,
    {
        let ghost before = cs@;
        let r = enforce_boolean(&mut cs, message[i]);
        proof {
            assert(allocated.issued(message@[i as int]));
            assert(r is Ok);
            assert(booleans.take(i as int + 1) =~= booleans.take(i as int).push(booleans[i as int]));
        }
        i += 1;
    }
    let mut j: usize = 0;
    proof {
        assert(booleans.take(message@.len() as int) =~= booleans);
        assert(booleans + asserts.take(0) =~= booleans);
    }
    while j < output.len()
        invariant
            j <= output@.len(),
            allocated.wf(),
            output@.len() == expected_bits@.len(),
            asserts == assert_constraints(output@, expected_bits@),
            forall|k: int| 0 <= k < output@.len() ==> allocated.issued(#[trigger] output@[k]),
            cs@.wf(),
            cs@ == (SystemModel { constraints: booleans + asserts.take(j as int), ..allocated }),
        decreases output@.len() - j,
    {
        let r = assert_bit(&mut cs, output[j], expected_bits[j]);
        proof {
            assert(allocated.issued(output@[j as int]));
            assert(r is Ok);
            assert(asserts.take(j as int + 1) =~= asserts.take(j as int).push(asserts[j as int]));
            assert((booleans + asserts.take(j as int)).push(asserts[j as int]) =~= booleans
                + asserts.take(j as int + 1));
        }
        j += 1;
    }
    proof {
        assert(asserts.take(output@.len() as int) =~= asserts);
    }
    cs
}

/// Builds the statement "I know a message whose SHA-256 digest is the digest
/// of `msg`", with `msg` as the witness. The system that comes back is
/// satisfied by the values it holds and is ready for a backend: since the
/// expected digest is the digest of the witness itself, no refusal occurs.
pub fn prove_sha256<F: Field>(msg: &[u8]) -> (r: Result<ConstraintSystem<F>, ProofError>)
    requires
        8 * msg@.len() + DIGEST_BITS <= usize::MAX,
    ensures
        r matches Ok(cs) && cs@.wf() && cs@ == preimage_statement(
            msg@,
            sha256_of(msg@),
            sha256_of(msg@),
            F::modulus(),
        ) && all_hold(cs@.constraints, cs@.values, F::modulus()),
{
    let digest = sha256(msg);
    let cs = build_preimage_statement::<F>(msg, &digest, &digest);
    let one = F::one();
    proof {
        one.lemma_residue();
        crate::preimage_laws::lemma_preimage_statement_satisfied(
            msg@,
            digest@,
            F::modulus(),
        );
    }
    match check_synthesized(&cs) {
        SatisfiabilityResult::Satisfied => Ok(cs),
        SatisfiabilityResult::Violated(i) => {
            proof {
                crate::checker::lemma_verdict_unique(
                    cs@.constraints,
                    cs@.values,
                    F::modulus(),
                    SatisfiabilityResult::Violated(i),
                    SatisfiabilityResult::Satisfied,
                );
            }
            Err(ProofError::ConstraintUnsatisfied(i))
        },
    }
}

} // verus!

//! The range proof as a Spartan instance with its satisfying assignment.

use vstd::prelude::*;
use vstd::arithmetic::div_mod::lemma_small_mod;
use vstd::arithmetic::power2::lemma2_to64;
use crate::checker::{is_verdict, SatisfiabilityResult};

use crate::error::ProofError;
use crate::field::Field;
use crate::range::{bit_constraints, recombination_constraint};
use crate::range_circuit::{range_proof_synthesized, RangeProofCircuit, RANGE_PROOF_BITS};
use crate::range_laws::lemma_range_round_trip;
use crate::scalar::{scalar_order, Scalar};
use crate::spartan::{
    all_rank1, encode_scalars, encoded_residues, export_r1cs, spartan_check, spartan_verdict,
    SparseR1cs,
};
use crate::system::{lemma_alloc_keeps_wf, ConstraintSystem, Mode, SystemModel};

verus! {

/// The value whose range proof the benchmark instance carries.
pub const RANGE_PROOF_VALUE: u32 = 1234;

/// A Spartan instance with an assignment for it.
pub struct RangeProofR1cs {
    pub matrices: SparseR1cs,
    pub num_non_zero_entries: usize,
    /// The values of the witnesses, encoded.
    pub vars: Vec<[u8; 32]>,
    /// The values of the public inputs, encoded.
    pub inputs: Vec<[u8; 32]>,
}

/// The system of the range proof for `x`, synthesized in proving mode from
/// an empty system.
pub open spec fn rangeproof_system(x: u32) -> SystemModel {
    range_proof_synthesized(SystemModel::empty(Mode::Proving), x as nat, scalar_order())
}

/// What Spartan answers on an instance and its assignment.
pub open spec fn spartan_answer(inst: RangeProofR1cs) -> Option<bool> {
    spartan_verdict(
        inst.matrices.num_cons as nat,
        inst.matrices.num_vars as nat,
        inst.matrices.num_inputs as nat,
        inst.matrices.a@,
        inst.matrices.b@,
        inst.matrices.c@,
        inst.vars@,
        inst.inputs@,
    )
}

/// The range-proof system of a 32-bit value holds rank-1 constraints only,
/// is well-formed, and is satisfied by the values it collected.
pub proof fn lemma_rangeproof_system(x: u32)
    ensures
        rangeproof_system(x).wf(),
        all_rank1(rangeproof_system(x).constraints),
        rangeproof_system(x).constraints.len() == RANGE_PROOF_BITS + 1,
        rangeproof_system(x).num_witnesses == RANGE_PROOF_BITS,
        rangeproof_system(x).num_public_inputs == 1,
        is_verdict(
            rangeproof_system(x).constraints,
            rangeproof_system(x).values,
            scalar_order(),
            SatisfiabilityResult::Satisfied,
        ),
{
    let p = scalar_order();
    let empty = SystemModel::empty(Mode::Proving);
    let m = empty.alloc_public_input(x as nat);
    let sys = rangeproof_system(x);
    lemma_alloc_keeps_wf(empty, x as nat);
    lemma2_to64();
    vstd::arithmetic::power2::lemma2_to64_rest();
    assert(m.values.public_inputs =~= seq![x as nat]);
    assert(m.values.value_of(empty.next_public_input()) == x as nat);
    lemma_range_round_trip(m, empty.next_public_input(), RANGE_PROOF_BITS as nat, p);
    let n = RANGE_PROOF_BITS as nat;
    assert forall|i: int| 0 <= i < sys.constraints.len() implies (
    #[trigger] sys.constraints[i]) is Rank1 by {
        if i < n {
            assert(sys.constraints[i] == bit_constraints(0, n, p)[i]);
        } else {
            assert(sys.constraints[i] == recombination_constraint(
                0,
                n,
                empty.next_public_input(),
                p,
            ));
        }
    }
    crate::range_laws::lemma_range_enforced_wf(m, empty.next_public_input(), n, p);
}

/// What becomes of an instance once Spartan has answered: it is handed on
/// where Spartan found it satisfied, and refused otherwise.
pub fn confirm(inst: RangeProofR1cs, answer: Option<bool>) -> (r: Result<RangeProofR1cs, ProofError>)
    ensures
        answer == Some(true) ==> r == Ok::<RangeProofR1cs, ProofError>(inst),
        answer != Some(true) ==> r == Err::<RangeProofR1cs, ProofError>(
            ProofError::VerificationFailed,
        ),
{
    match answer {
        Some(true) => Ok(inst),
        _ => Err(ProofError::VerificationFailed),
    }
}

/// Builds the range proof for `x` as a Spartan instance: the matrices of the
/// range-proof circuit and the assignment that its synthesis collected.
pub fn build_rangeproof_r1cs(x: u32) -> (inst: RangeProofR1cs)
    ensures
        inst.matrices.represents(rangeproof_system(x)),
        inst.num_non_zero_entries >= inst.matrices.a@.len(),
        inst.num_non_zero_entries >= inst.matrices.b@.len(),
        inst.num_non_zero_entries >= inst.matrices.c@.len(),
        inst.num_non_zero_entries == inst.matrices.a@.len() || inst.num_non_zero_entries
            == inst.matrices.b@.len() || inst.num_non_zero_entries == inst.matrices.c@.len(),
        encoded_residues(inst.vars@) == rangeproof_system(x).values.witnesses,
        encoded_residues(inst.inputs@) == rangeproof_system(x).values.public_inputs,
{
    let mut cs = ConstraintSystem::<Scalar>::new(Mode::Proving);
    let value = Scalar::from_u64(x as u64);
    proof {
        lemma_small_mod(x as nat, scalar_order());
        lemma_rangeproof_system(x);
    }
    let circuit = RangeProofCircuit { x: Some(value) };
    let synthesized = circuit.generate_constraints(&mut cs);
    assert(synthesized is Ok);
    assert(cs@ == rangeproof_system(x));
    let matrices = match export_r1cs(&cs) {
        Some(m) => m,
        None => {
            assert(false);
            SparseR1cs {
                num_cons: 0,
                num_vars: 0,
                num_inputs: 0,
                a: Vec::new(),
                b: Vec::new(),
                c: Vec::new(),
            }
        },
    };
    let num_non_zero_entries = matrices.num_non_zero_entries();
    let vars = encode_scalars(&cs.assignment().witnesses);
    let inputs = encode_scalars(&cs.assignment().public_inputs);
    RangeProofR1cs { matrices, num_non_zero_entries, vars, inputs }
}

/// The instance `inst` is the range proof for `x`: the matrices of the
/// range-proof system and the values that its synthesis collected.
pub open spec fn is_rangeproof_for(inst: RangeProofR1cs, x: u32) -> bool {
    &&& inst.matrices.represents(rangeproof_system(x))
    &&& encoded_residues(inst.vars@) == rangeproof_system(x).values.witnesses
    &&& encoded_residues(inst.inputs@) == rangeproof_system(x).values.public_inputs
}

/// Builds the range proof for `x` and has Spartan confirm that the
/// assignment satisfies the instance. The instance comes back where Spartan
/// said yes; any other answer is a refusal.
pub fn rangeproof_r1cs(x: u32) -> (r: Result<RangeProofR1cs, ProofError>)
    ensures
        r matches Ok(inst) ==> is_rangeproof_for(inst, x) && spartan_answer(inst) == Some(true),
        r matches Err(e) ==> e == ProofError::VerificationFailed && exists|inst: RangeProofR1cs|
            is_rangeproof_for(inst, x) && spartan_answer(inst) != Some(true),
{
    let inst = build_rangeproof_r1cs(x);
    proof {
        lemma_rangeproof_system(x);
    }
    let answer = spartan_check(&inst.matrices, &inst.vars, &inst.inputs);
    let ghost built = inst;
    let r = confirm(inst, answer);
    proof {
        if r is Err {
            assert(is_rangeproof_for(built, x) && spartan_answer(built) != Some(true));
        }
    }
    r
}

/// The benchmark instance: the range proof for `RANGE_PROOF_VALUE`.
pub fn produce_rangeproof_r1cs() -> (r: Result<RangeProofR1cs, ProofError>)
    ensures
        r matches Ok(inst) ==> is_rangeproof_for(inst, RANGE_PROOF_VALUE) && spartan_answer(inst)
            == Some(true),
        r matches Err(e) ==> e == ProofError::VerificationFailed && exists|inst: RangeProofR1cs|
            is_rangeproof_for(inst, RANGE_PROOF_VALUE) && spartan_answer(inst) != Some(true),
{
    rangeproof_r1cs(RANGE_PROOF_VALUE)
}

} // verus!

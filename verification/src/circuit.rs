//! Circuit descriptions and the two synthesis runs that a proving backend
//! asks for: one for structure, one for a checked assignment.

use vstd::prelude::*;
use crate::checker::{all_hold, check_synthesized, first_violation_at, SatisfiabilityResult};
use crate::chips::{gated_cubic_synthesized, GatedCubicCircuit};
use crate::cubic::{
    cubic_plus_linear_synthesized, cubic_synthesized, CubicCircuit, CubicPlusLinearCircuit,
};
use crate::error::{ProofError, SynthesisError};
use crate::field::Field;
use crate::gated_range::{gated_range_synthesized, input_or_zero, GatedRangeCircuit};
use crate::hash_circuit::{bytes_or_empty, Sha256Circuit, DIGEST_BYTES};
use crate::range_circuit::{range_proof_synthesized, RangeProofCircuit, RANGE_PROOF_BITS};
use crate::sha256::sha256_of;
use crate::system::{residue_of, secret_or_zero, ConstraintSystem, Mode, SystemModel};

verus! {

/// A circuit description: what to allocate and what to enforce, with or
/// without the prover's input.
pub trait Circuit<F: Field> {
    /// Whether the description carries the prover's input.
    spec fn has_input(&self) -> bool;

    /// Whether two descriptions are of the same circuit, whatever input they
    /// carry.
    spec fn same_description(&self, other: &Self) -> bool;

    /// Whether the counters of `m` leave room for the circuit's variables.
    spec fn fits(&self, m: SystemModel) -> bool;

    /// The system that a complete synthesis leaves.
    spec fn synthesized(&self, m: SystemModel) -> SystemModel;

    /// Synthesizes the circuit into `cs`. A run in proving mode without the
    /// prover's input aborts and leaves the system as it was.
    fn synthesize(&self, cs: &mut ConstraintSystem<F>) -> (r: Result<(), SynthesisError>)
        requires
            old(cs)@.wf(),
            self.fits(old(cs)@),
        ensures
            final(cs)@.wf(),
            final(cs)@.mode == old(cs)@.mode,
            old(cs)@.mode == Mode::Proving && !self.has_input() ==> r == Err::<(), SynthesisError>(
                SynthesisError::AssignmentMissing,
            ) && final(cs)@ == old(cs)@,
            !(old(cs)@.mode == Mode::Proving && !self.has_input()) ==> r == Ok::<
                (),
                SynthesisError,
            >(()) && final(cs)@ == self.synthesized(old(cs)@),
    ;

    /// Determinism. Two runs of one circuit on systems of one structure
    /// leave systems of one structure: the same counts of variables and the
    /// same constraints, coefficients included, whatever the mode and the
    /// prover's input.
    proof fn lemma_deterministic(&self, other: &Self, m1: SystemModel, m2: SystemModel)
        requires
            self.same_description(other),
            m1.structure() == m2.structure(),
        ensures
            self.synthesized(m1).structure() == other.synthesized(m2).structure(),
    ;
}

impl<F: Field> Circuit<F> for CubicPlusLinearCircuit<F> {
    open spec fn has_input(&self) -> bool {
        self.x is Some
    }

    open spec fn same_description(&self, other: &Self) -> bool {
        true
    }

    open spec fn fits(&self, m: SystemModel) -> bool {
        m.num_witnesses + 3 <= usize::MAX && m.num_public_inputs + 1 <= usize::MAX
    }

    open spec fn synthesized(&self, m: SystemModel) -> SystemModel {
        cubic_plus_linear_synthesized(m, secret_or_zero(residue_of(self.x)), F::modulus())
    }

    fn synthesize(&self, cs: &mut ConstraintSystem<F>) -> (r: Result<(), SynthesisError>) {
        self.generate_constraints(cs)
    }

    proof fn lemma_deterministic(&self, other: &Self, m1: SystemModel, m2: SystemModel) {
    }
}

impl<F: Field> Circuit<F> for CubicCircuit<F> {
    open spec fn has_input(&self) -> bool {
        self.x is Some
    }

    open spec fn same_description(&self, other: &Self) -> bool {
        true
    }

    open spec fn fits(&self, m: SystemModel) -> bool {
        m.num_witnesses + 2 <= usize::MAX && m.num_public_inputs + 1 <= usize::MAX
    }

    open spec fn synthesized(&self, m: SystemModel) -> SystemModel {
        cubic_synthesized(m, secret_or_zero(residue_of(self.x)), F::modulus())
    }

    fn synthesize(&self, cs: &mut ConstraintSystem<F>) -> (r: Result<(), SynthesisError>) {
        self.generate_constraints(cs)
    }

    proof fn lemma_deterministic(&self, other: &Self, m1: SystemModel, m2: SystemModel) {
    }
}

impl<F: Field> Circuit<F> for RangeProofCircuit<F> {
    open spec fn has_input(&self) -> bool {
        self.x is Some
    }

    open spec fn same_description(&self, other: &Self) -> bool {
        true
    }

    open spec fn fits(&self, m: SystemModel) -> bool {
        m.num_witnesses + RANGE_PROOF_BITS <= usize::MAX && m.num_public_inputs + 1
            <= usize::MAX
    }

    open spec fn synthesized(&self, m: SystemModel) -> SystemModel {
        range_proof_synthesized(m, secret_or_zero(residue_of(self.x)), F::modulus())
    }

    fn synthesize(&self, cs: &mut ConstraintSystem<F>) -> (r: Result<(), SynthesisError>) {
        self.generate_constraints(cs)
    }

    proof fn lemma_deterministic(&self, other: &Self, m1: SystemModel, m2: SystemModel) {
    }
}

impl<F: Field> Circuit<F> for GatedCubicCircuit<F> {
    open spec fn has_input(&self) -> bool {
        self.x is Some
    }

    open spec fn same_description(&self, other: &Self) -> bool {
        true
    }

    open spec fn fits(&self, m: SystemModel) -> bool {
        m.num_witnesses + 6 <= usize::MAX && m.num_public_inputs + 1 <= usize::MAX
    }

    open spec fn synthesized(&self, m: SystemModel) -> SystemModel {
        gated_cubic_synthesized(m, secret_or_zero(residue_of(self.x)), F::modulus())
    }

    fn synthesize(&self, cs: &mut ConstraintSystem<F>) -> (r: Result<(), SynthesisError>) {
        GatedCubicCircuit::synthesize(self, cs)
    }

    proof fn lemma_deterministic(&self, other: &Self, m1: SystemModel, m2: SystemModel) {
    }
}

impl<F: Field> Circuit<F> for GatedRangeCircuit {
    open spec fn has_input(&self) -> bool {
        self.input is Some
    }

    open spec fn same_description(&self, other: &Self) -> bool {
        true
    }

    open spec fn fits(&self, m: SystemModel) -> bool {
        m.num_witnesses + 1 + RANGE_PROOF_BITS <= usize::MAX
    }

    open spec fn synthesized(&self, m: SystemModel) -> SystemModel {
        gated_range_synthesized(m, input_or_zero(self.input), F::modulus())
    }

    fn synthesize(&self, cs: &mut ConstraintSystem<F>) -> (r: Result<(), SynthesisError>) {
        GatedRangeCircuit::synthesize(self, cs)
    }

    proof fn lemma_deterministic(&self, other: &Self, m1: SystemModel, m2: SystemModel) {
    }
}

impl<F: Field> Circuit<F> for Sha256Circuit {
    open spec fn has_input(&self) -> bool {
        Sha256Circuit::has_input(self)
    }

    open spec fn same_description(&self, other: &Self) -> bool {
        self.preimage_len == other.preimage_len && self.visibility == other.visibility
    }

    open spec fn fits(&self, m: SystemModel) -> bool {
        m.num_witnesses + self.preimage_len + 2 * DIGEST_BYTES <= usize::MAX && m.num_public_inputs
            + self.preimage_len + 2 * DIGEST_BYTES <= usize::MAX
    }

    open spec fn synthesized(&self, m: SystemModel) -> SystemModel {
        Sha256Circuit::synthesized(
            self,
            m,
            sha256_of(bytes_or_empty(self.preimage)),
            F::modulus(),
        )
    }

    fn synthesize(&self, cs: &mut ConstraintSystem<F>) -> (r: Result<(), SynthesisError>) {
        self.generate_constraints(cs)
    }

    proof fn lemma_deterministic(&self, other: &Self, m1: SystemModel, m2: SystemModel) {
    }
}

/// The synthesis run of `setup`: the structure of the circuit, from a
/// description that needs no input.
pub fn synthesize_for_setup<F: Field, C: Circuit<F>>(circuit: &C) -> (cs: ConstraintSystem<F>)
    requires
        circuit.fits(SystemModel::empty(Mode::Setup)),
    ensures
        cs@.wf(),
        cs@ == circuit.synthesized(SystemModel::empty(Mode::Setup)),
{
    let mut cs = ConstraintSystem::new(Mode::Setup);
    let r = circuit.synthesize(&mut cs);
    assert(r is Ok);
    cs
}

/// The synthesis run of `prove`: the circuit with its full assignment,
/// checked. Without the prover's input the run is refused with
/// `AssignmentMissing`; where the assignment violates a constraint, with
/// `ConstraintUnsatisfied` and the index of the first such constraint.
pub fn synthesize_for_proof<F: Field, C: Circuit<F>>(circuit: &C) -> (r: Result<
    ConstraintSystem<F>,
    ProofError,
>)
    requires
        circuit.fits(SystemModel::empty(Mode::Proving)),
    ensures
        !circuit.has_input() ==> (r matches Err(e) && e == ProofError::AssignmentMissing),
        circuit.has_input() ==> match r {
            Ok(cs) => cs@.wf() && cs@ == circuit.synthesized(SystemModel::empty(Mode::Proving))
                && all_hold(cs@.constraints, cs@.values, F::modulus()),
            Err(e) => exists|i: usize|
                e == ProofError::ConstraintUnsatisfied(i) && first_violation_at(
                    circuit.synthesized(SystemModel::empty(Mode::Proving)).constraints,
                    circuit.synthesized(SystemModel::empty(Mode::Proving)).values,
                    F::modulus(),
                    i as int,
                ),
        },
{
    let mut cs = ConstraintSystem::new(Mode::Proving);
    match circuit.synthesize(&mut cs) {
        Ok(()) => {},
        Err(e) => {
            return Err(ProofError::from_synthesis(e));
        },
    }
    match check_synthesized(&cs) {
        SatisfiabilityResult::Satisfied => Ok(cs),
        SatisfiabilityResult::Violated(i) => Err(ProofError::ConstraintUnsatisfied(i)),
    }
}

/// What the core makes of a backend's answer to `verify`: a proof is
/// accepted only where the backend said so; a rejection and an error of the
/// backend are the same refusal.
pub fn verification_outcome(answer: Option<bool>) -> (r: Result<(), ProofError>)
    ensures
        r == if answer == Some(true) {
            Ok::<(), ProofError>(())
        } else {
            Err::<(), ProofError>(ProofError::VerificationFailed)
        },
{
    match answer {
        Some(true) => Ok(()),
        _ => Err(ProofError::VerificationFailed),
    }
}

} // verus!

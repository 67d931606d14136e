//! The range-proof circuit: a public value and its decomposition into bits.

use vstd::prelude::*;
use crate::error::{AssignmentMissing, SynthesisError};
use crate::field::Field;
use crate::range::{enforce_range, range_enforced};
use crate::system::{
    circuit_outcome, provides, residue_of, secret_or_zero, ConstraintSystem, SystemModel,
};

verus! {

/// The bit width of the range proof.
pub const RANGE_PROOF_BITS: usize = 32;

/// The system after the synthesis of the range proof for the public value
/// `x`: one public input, then the range gadget on it.
pub open spec fn range_proof_synthesized(m: SystemModel, x: nat, p: nat) -> SystemModel {
    range_enforced(m.alloc_public_input(x), m.next_public_input(), RANGE_PROOF_BITS as nat, p)
}

/// The circuit that shows `0 <= x < 2^32` for the public value `x`.
pub struct RangeProofCircuit<F: Field> {
    pub x: Option<F>,
}

impl<F: Field> RangeProofCircuit<F> {
    /// Synthesizes the circuit into `cs`.
    pub fn generate_constraints(&self, cs: &mut ConstraintSystem<F>) -> (r: Result<
        (),
        SynthesisError,
    >)
        requires
            old(cs)@.wf(),
            old(cs)@.num_witnesses + RANGE_PROOF_BITS <= usize::MAX,
            old(cs)@.num_public_inputs + 1 <= usize::MAX,
        ensures
            final(cs)@.wf(),
            circuit_outcome(
                old(cs)@,
                residue_of(self.x),
                range_proof_synthesized(
                    old(cs)@,
                    secret_or_zero(residue_of(self.x)),
                    F::modulus(),
                ),
                final(cs)@,
                r,
            ),
    {
        let value = self.x;
        let provide_x = || -> (out: Result<F, AssignmentMissing>)
            ensures
                provides(out, residue_of(value)),
            {
                match value {
                    Some(v) => Ok(v),
                    None => Err(AssignmentMissing),
                }
            };
        let x = match cs.allocate_public_input(provide_x) {
            Ok(v) => v,
            Err(e) => {
                return Err(e);
            },
        };
        match enforce_range(cs, x, RANGE_PROOF_BITS) {
            Ok(_) => Ok(()),
            Err(e) => {
                assert(false);
                Err(e)
            },
        }
    }
}

} // verus!

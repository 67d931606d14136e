//! What can go wrong while a circuit is synthesized, proved or verified.

use vstd::prelude::*;

verus! {

/// What a value provider returns when it has no concrete value.
#[derive(Clone, Copy, Debug, PartialEq, Eq, Structural)]
pub struct AssignmentMissing;

/// A failure of circuit synthesis. Both kinds are fatal for the run.
#[derive(Clone, Copy, Debug, PartialEq, Eq, Structural)]
pub enum SynthesisError {
    /// A value provider ran in proving mode and had no value.
    AssignmentMissing,
    /// A constraint mentions a variable that the system has not issued.
    MalformedConstraint,
}

/// A refusal to produce or to accept a proof.
#[derive(Clone, Copy, Debug, PartialEq, Eq, Structural)]
pub enum ProofError {
    /// A value provider ran in proving mode and had no value.
    AssignmentMissing,
    /// A constraint mentions a variable that the system has not issued.
    MalformedConstraint,
    /// The assignment violates the constraint with this index.
    ConstraintUnsatisfied(usize),
    /// The backend did not accept the proof.
    VerificationFailed,
}

impl ProofError {
    /// The refusal that a failed synthesis leads to.
    pub open spec fn of_synthesis(e: SynthesisError) -> ProofError {
        match e {
            SynthesisError::AssignmentMissing => ProofError::AssignmentMissing,
            SynthesisError::MalformedConstraint => ProofError::MalformedConstraint,
        }
    }

    /// Executable form of `of_synthesis`.
    pub fn from_synthesis(e: SynthesisError) -> (r: ProofError)
        ensures
            r == ProofError::of_synthesis(e),
    {
        match e {
            SynthesisError::AssignmentMissing => ProofError::AssignmentMissing,
            SynthesisError::MalformedConstraint => ProofError::MalformedConstraint,
        }
    }
}

} // verus!

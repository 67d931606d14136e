//! Handles for the values of a constraint system.

use vstd::prelude::*;

verus! {

/// What a variable stands for.
#[derive(Clone, Copy, Debug, PartialEq, Eq, Structural)]
pub enum VariableKind {
    /// The sentinel whose value is always the multiplicative identity.
    ConstantOne,
    /// A value known to prover and verifier.
    PublicInput,
    /// A value known to the prover alone.
    Witness,
}

/// A handle issued by a constraint system's allocator.
#[derive(Clone, Copy, Debug, PartialEq, Eq, Structural)]
pub struct Variable {
    pub kind: VariableKind,
    pub index: usize,
}

impl Variable {
    /// Whether a system with `num_public` public inputs and `num_witness`
    /// witnesses has issued this handle. The sentinel has index zero and is
    /// issued by every system.
    pub open spec fn allocated_in(self, num_public: nat, num_witness: nat) -> bool {
        match self.kind {
            VariableKind::ConstantOne => self.index == 0,
            VariableKind::PublicInput => self.index < num_public,
            VariableKind::Witness => self.index < num_witness,
        }
    }

    /// The sentinel for constant terms.
    pub fn one() -> (v: Variable)
        ensures
            v == (Variable { kind: VariableKind::ConstantOne, index: 0 }),
    {
        Variable { kind: VariableKind::ConstantOne, index: 0 }
    }

    /// The public input with the given index.
    pub fn public_input(index: usize) -> (v: Variable)
        ensures
            v == (Variable { kind: VariableKind::PublicInput, index }),
    {
        Variable { kind: VariableKind::PublicInput, index }
    }

    /// The witness with the given index.
    pub fn witness(index: usize) -> (v: Variable)
        ensures
            v == (Variable { kind: VariableKind::Witness, index }),
    {
        Variable { kind: VariableKind::Witness, index }
    }

    /// Executable form of `allocated_in`.
    pub fn is_allocated_in(&self, num_public: usize, num_witness: usize) -> (b: bool)
        ensures
            b == self.allocated_in(num_public as nat, num_witness as nat),
    {
        match self.kind {
            VariableKind::ConstantOne => self.index == 0,
            VariableKind::PublicInput => self.index < num_public,
            VariableKind::Witness => self.index < num_witness,
        }
    }
}

} // verus!

//! Concrete values for the variables of a constraint system.

use vstd::prelude::*;
use crate::field::Field;
use crate::variable::{Variable, VariableKind};

verus! {

/// The residues that an assignment gives to public inputs and witnesses.
pub struct AssignmentModel {
    pub public_inputs: Seq<nat>,
    pub witnesses: Seq<nat>,
}

impl AssignmentModel {
    /// The residue of a variable. The sentinel is worth one.
    pub open spec fn value_of(self, v: Variable) -> nat {
        match v.kind {
            VariableKind::ConstantOne => 1,
            VariableKind::PublicInput => self.public_inputs[v.index as int],
            VariableKind::Witness => self.witnesses[v.index as int],
        }
    }

    /// Whether the assignment has an entry for `v`.
    pub open spec fn covers(self, v: Variable) -> bool {
        v.allocated_in(self.public_inputs.len(), self.witnesses.len())
    }

    /// The two assignments give the same values to the first `num_public`
    /// public inputs and the first `num_witness` witnesses.
    pub open spec fn agrees_with(self, other: AssignmentModel, num_public: nat, num_witness: nat) -> bool {
        &&& forall|i: int| 0 <= i < num_public ==> self.public_inputs[i] == other.public_inputs[i]
        &&& forall|i: int| 0 <= i < num_witness ==> self.witnesses[i] == other.witnesses[i]
    }

    /// Every entry is a residue modulo `p`.
    pub open spec fn reduced(self, p: nat) -> bool {
        &&& forall|i: int| 0 <= i < self.public_inputs.len() ==> #[trigger] self.public_inputs[i] < p
        &&& forall|i: int| 0 <= i < self.witnesses.len() ==> #[trigger] self.witnesses[i] < p
    }
}

/// The residues of a sequence of field elements.
pub open spec fn residues<F: Field>(s: Seq<F>) -> Seq<nat> {
    Seq::new(s.len(), |i: int| s[i].value())
}

/// A value for every public input and every witness, each kind in the order
/// of allocation. The public part stands alone because a verifier sees
/// nothing else.
pub struct Assignment<F: Field> {
    pub public_inputs: Vec<F>,
    pub witnesses: Vec<F>,
}

impl<F: Field> View for Assignment<F> {
    type V = AssignmentModel;

    open spec fn view(&self) -> AssignmentModel {
        AssignmentModel {
            public_inputs: residues(self.public_inputs@),
            witnesses: residues(self.witnesses@),
        }
    }
}

impl<F: Field> Assignment<F> {
    /// Every entry of an assignment made of field elements is a residue.
    pub proof fn lemma_reduced(&self)
        ensures
            self@.reduced(F::modulus()),
    {
        assert forall|i: int| 0 <= i < self@.public_inputs.len() implies #[trigger] self@.public_inputs[i]
            < F::modulus() by {
            self.public_inputs@[i].lemma_residue();
        }
        assert forall|i: int| 0 <= i < self@.witnesses.len() implies #[trigger] self@.witnesses[i]
            < F::modulus() by {
            self.witnesses@[i].lemma_residue();
        }
    }

    /// The value of a variable that the assignment covers.
    pub fn value_of(&self, v: Variable) -> (r: F)
        requires
            self@.covers(v),
        ensures
            r.value() == self@.value_of(v),
    {
        match v.kind {
            VariableKind::ConstantOne => F::one(),
            VariableKind::PublicInput => self.public_inputs[v.index],
            VariableKind::Witness => self.witnesses[v.index],
        }
    }

    /// Executable form of `covers`.
    pub fn covers(&self, v: Variable) -> (b: bool)
        ensures
            b == self@.covers(v),
    {
        v.is_allocated_in(self.public_inputs.len(), self.witnesses.len())
    }
}

} // verus!

//! The constraint system: variable allocation and constraint recording.

use vstd::prelude::*;
use crate::assignment::{Assignment, AssignmentModel};
use crate::constraint::{
    constraint_closed, lemma_constraint_closed_monotone, Constraint, ConstraintModel,
};
use crate::error::{AssignmentMissing, SynthesisError};
use crate::expression::Expression;
use crate::field::Field;
use crate::lc::LinearCombination;
use crate::variable::{Variable, VariableKind};

verus! {

/// Whether synthesis runs for structure alone or with concrete values.
#[derive(Clone, Copy, Debug, PartialEq, Eq, Structural)]
pub enum Mode {
    /// Value providers are skipped; only counts and constraint shapes matter.
    Setup,
    /// Every value provider runs and has to succeed.
    Proving,
}

/// A constraint system as a mathematical value.
pub struct SystemModel {
    pub mode: Mode,
    pub num_public_inputs: nat,
    pub num_witnesses: nat,
    pub constraints: Seq<ConstraintModel>,
    /// The values collected so far; empty in setup mode.
    pub values: AssignmentModel,
}

/// What two synthesis runs of one circuit have in common: the counts of
/// variables and the recorded constraints, coefficients included.
pub struct Structure {
    pub num_public_inputs: nat,
    pub num_witnesses: nat,
    pub constraints: Seq<ConstraintModel>,
}

impl SystemModel {
    /// A fresh system.
    pub open spec fn empty(mode: Mode) -> SystemModel {
        SystemModel {
            mode,
            num_public_inputs: 0,
            num_witnesses: 0,
            constraints: Seq::empty(),
            values: AssignmentModel { public_inputs: Seq::empty(), witnesses: Seq::empty() },
        }
    }

    /// Constraints mention issued variables only, and in proving mode every
    /// issued variable has its value.
    pub open spec fn wf(self) -> bool {
        &&& forall|i: int|
            0 <= i < self.constraints.len() ==> constraint_closed(
                #[trigger] self.constraints[i],
                self.num_public_inputs,
                self.num_witnesses,
            )
        &&& match self.mode {
            Mode::Setup => self.values.public_inputs.len() == 0 && self.values.witnesses.len()
                == 0,
            Mode::Proving => self.values.public_inputs.len() == self.num_public_inputs
                && self.values.witnesses.len() == self.num_witnesses,
        }
    }

    /// Whether the system has issued `v`.
    pub open spec fn issued(self, v: Variable) -> bool {
        v.allocated_in(self.num_public_inputs, self.num_witnesses)
    }

    /// The part of the system that does not depend on the mode or on values.
    pub open spec fn structure(self) -> Structure {
        Structure {
            num_public_inputs: self.num_public_inputs,
            num_witnesses: self.num_witnesses,
            constraints: self.constraints,
        }
    }

    /// The witness that the next allocation issues.
    pub open spec fn next_witness(self) -> Variable {
        Variable { kind: VariableKind::Witness, index: self.num_witnesses as usize }
    }

    /// The public input that the next allocation issues.
    pub open spec fn next_public_input(self) -> Variable {
        Variable { kind: VariableKind::PublicInput, index: self.num_public_inputs as usize }
    }

    /// The system after one more witness. In setup mode `value` is ignored.
    pub open spec fn alloc_witness(self, value: nat) -> SystemModel {
        SystemModel {
            num_witnesses: self.num_witnesses + 1,
            values: AssignmentModel {
                public_inputs: self.values.public_inputs,
                witnesses: match self.mode {
                    Mode::Setup => self.values.witnesses,
                    Mode::Proving => self.values.witnesses.push(value),
                },
            },
            ..self
        }
    }

    /// The system after one more public input. In setup mode `value` is
    /// ignored.
    pub open spec fn alloc_public_input(self, value: nat) -> SystemModel {
        SystemModel {
            num_public_inputs: self.num_public_inputs + 1,
            values: AssignmentModel {
                public_inputs: match self.mode {
                    Mode::Setup => self.values.public_inputs,
                    Mode::Proving => self.values.public_inputs.push(value),
                },
                witnesses: self.values.witnesses,
            },
            ..self
        }
    }

    /// The system with one more constraint at the end.
    pub open spec fn with_constraint(self, c: ConstraintModel) -> SystemModel {
        SystemModel { constraints: self.constraints.push(c), ..self }
    }
}

/// Two allocations in a row issue two different variables, and what an
/// allocation issues depends on the counts alone: not on the mode, and not
/// on the value.
pub proof fn lemma_allocation_order(m: SystemModel, other: SystemModel, v: nat, w: nat)
    requires
        m.num_witnesses + 1 <= usize::MAX,
        m.num_public_inputs + 1 <= usize::MAX,
        m.structure() == other.structure(),
    ensures
        m.alloc_witness(v).next_witness() != m.next_witness(),
        m.alloc_public_input(v).next_public_input() != m.next_public_input(),
        m.next_witness() == other.next_witness(),
        m.next_public_input() == other.next_public_input(),
        m.alloc_witness(v).structure() == other.alloc_witness(w).structure(),
        m.alloc_public_input(v).structure() == other.alloc_public_input(w).structure(),
{
}

/// Allocation keeps a system well-formed, whatever the value.
pub proof fn lemma_alloc_keeps_wf(m: SystemModel, value: nat)
    requires
        m.wf(),
    ensures
        m.alloc_witness(value).wf(),
        m.alloc_public_input(value).wf(),
{
    assert forall|i: int| 0 <= i < m.constraints.len() implies constraint_closed(
        #[trigger] m.constraints[i],
        m.num_public_inputs,
        m.num_witnesses + 1,
    ) && constraint_closed(m.constraints[i], m.num_public_inputs + 1, m.num_witnesses) by {
        lemma_constraint_closed_monotone(
            m.constraints[i],
            m.num_public_inputs,
            m.num_witnesses,
            m.num_public_inputs,
            m.num_witnesses + 1,
        );
        lemma_constraint_closed_monotone(
            m.constraints[i],
            m.num_public_inputs,
            m.num_witnesses,
            m.num_public_inputs + 1,
            m.num_witnesses,
        );
    }
}

/// The models of a sequence of constraints.
pub open spec fn constraint_models<F: Field>(s: Seq<Constraint<F>>) -> Seq<ConstraintModel> {
    Seq::new(s.len(), |i: int| s[i]@)
}

/// What an allocation does once the value provider has answered `out`: a
/// value is recorded and the new variable returned, a missing value aborts
/// and leaves the system as it was.
pub open spec fn witness_outcome<F: Field>(
    before: SystemModel,
    out: Result<F, AssignmentMissing>,
    after: SystemModel,
    r: Result<Variable, SynthesisError>,
) -> bool {
    match out {
        Ok(x) => r == Ok::<Variable, SynthesisError>(before.next_witness()) && after
            == before.alloc_witness(x.value()),
        Err(_) => r == Err::<Variable, SynthesisError>(SynthesisError::AssignmentMissing) && after
            == before,
    }
}

/// As `witness_outcome`, for a public input.
pub open spec fn public_input_outcome<F: Field>(
    before: SystemModel,
    out: Result<F, AssignmentMissing>,
    after: SystemModel,
    r: Result<Variable, SynthesisError>,
) -> bool {
    match out {
        Ok(x) => r == Ok::<Variable, SynthesisError>(before.next_public_input()) && after
            == before.alloc_public_input(x.value()),
        Err(_) => r == Err::<Variable, SynthesisError>(SynthesisError::AssignmentMissing) && after
            == before,
    }
}

/// What a value provider hands out for a value that may be absent.
pub open spec fn provided<F: Field>(v: Option<F>) -> Result<F, AssignmentMissing> {
    match v {
        Some(x) => Ok(x),
        None => Err(AssignmentMissing),
    }
}

/// The provider's answer carries the residue `expected`, or reports a missing
/// value where there is none.
pub open spec fn provides<F: Field>(out: Result<F, AssignmentMissing>, expected: Option<nat>) -> bool {
    match expected {
        Some(e) => out matches Ok(v) && v.value() == e,
        None => out is Err,
    }
}

/// What an allocation of a witness does when it is handed the residue
/// `value`, if there is one: in setup mode the value plays no part; in
/// proving mode a missing value aborts and leaves the system as it was.
pub open spec fn witness_allocated(
    before: SystemModel,
    value: Option<nat>,
    after: SystemModel,
    r: Result<Variable, SynthesisError>,
) -> bool {
    match (before.mode, value) {
        (Mode::Proving, None) => r == Err::<Variable, SynthesisError>(
            SynthesisError::AssignmentMissing,
        ) && after == before,
        (Mode::Proving, Some(x)) => r == Ok::<Variable, SynthesisError>(before.next_witness())
            && after == before.alloc_witness(x),
        (Mode::Setup, _) => r == Ok::<Variable, SynthesisError>(before.next_witness()) && after
            == before.alloc_witness(0),
    }
}

/// The residue that an optional element stands for.
pub open spec fn residue_of<F: Field>(x: Option<F>) -> Option<nat> {
    match x {
        Some(v) => Some(v.value()),
        None => None,
    }
}

/// What a circuit with the secret `x` does to a system, where `synthesized`
/// is the system that a complete run leaves: without a secret a run in
/// proving mode aborts at its first allocation.
pub open spec fn circuit_outcome(
    before: SystemModel,
    x: Option<nat>,
    synthesized: SystemModel,
    after: SystemModel,
    r: Result<(), SynthesisError>,
) -> bool {
    if before.mode == Mode::Proving && x is None {
        r == Err::<(), SynthesisError>(SynthesisError::AssignmentMissing) && after == before
    } else {
        r == Ok::<(), SynthesisError>(()) && after == synthesized
    }
}

/// The secret, where there is one, or zero.
pub open spec fn secret_or_zero(x: Option<nat>) -> nat {
    match x {
        Some(v) => v,
        None => 0,
    }
}

/// What recording a constraint does: one whose variables have all been
/// issued goes to the end of the sequence, any other is refused and leaves
/// the system as it was.
pub open spec fn enforce_outcome(
    before: SystemModel,
    c: ConstraintModel,
    after: SystemModel,
    r: Result<(), SynthesisError>,
) -> bool {
    if constraint_closed(c, before.num_public_inputs, before.num_witnesses) {
        r == Ok::<(), SynthesisError>(()) && after == before.with_constraint(c)
    } else {
        r == Err::<(), SynthesisError>(SynthesisError::MalformedConstraint) && after == before
    }
}

/// Variables and constraints of one circuit instantiation. It is filled
/// once, during synthesis, and only read afterwards.
pub struct ConstraintSystem<F: Field> {
    mode: Mode,
    num_public_inputs: usize,
    num_witnesses: usize,
    constraints: Vec<Constraint<F>>,
    values: Assignment<F>,
}

impl<F: Field> View for ConstraintSystem<F> {
    type V = SystemModel;

    closed spec fn view(&self) -> SystemModel {
        SystemModel {
            mode: self.mode,
            num_public_inputs: self.num_public_inputs as nat,
            num_witnesses: self.num_witnesses as nat,
            constraints: constraint_models(self.constraints@),
            values: self.values@,
        }
    }
}

impl<F: Field> ConstraintSystem<F> {
    /// A fresh system in the given mode.
    pub fn new(mode: Mode) -> (cs: Self)
        ensures
            cs@ == SystemModel::empty(mode),
            cs@.wf(),
    {
        let cs = ConstraintSystem {
            mode,
            num_public_inputs: 0,
            num_witnesses: 0,
            constraints: Vec::new(),
            values: Assignment { public_inputs: Vec::new(), witnesses: Vec::new() },
        };
        assert(cs@.constraints =~= Seq::empty());
        assert(cs@.values.public_inputs =~= Seq::empty());
        assert(cs@.values.witnesses =~= Seq::empty());
        cs
    }

    /// Every value that a system collected is a residue, so the laws of the
    /// gadgets apply to it.
    pub proof fn lemma_values_reduced(&self)
        ensures
            self@.values.reduced(F::modulus()),
            self@.num_public_inputs <= usize::MAX,
            self@.num_witnesses <= usize::MAX,
    {
        self.values.lemma_reduced();
    }

    /// The mode of this system.
    pub fn mode(&self) -> (m: Mode)
        ensures
            m == self@.mode,
    {
        self.mode
    }

    /// The number of public inputs issued so far.
    pub fn num_public_inputs(&self) -> (n: usize)
        ensures
            n == self@.num_public_inputs,
    {
        self.num_public_inputs
    }

    /// The number of witnesses issued so far.
    pub fn num_witnesses(&self) -> (n: usize)
        ensures
            n == self@.num_witnesses,
    {
        self.num_witnesses
    }

    /// The number of constraints recorded so far.
    pub fn num_constraints(&self) -> (n: usize)
        ensures
            n == self@.constraints.len(),
    {
        self.constraints.len()
    }

    /// The constraint with index `i`.
    pub fn constraint(&self, i: usize) -> (c: &Constraint<F>)
        requires
            i < self@.constraints.len(),
        ensures
            c@ == self@.constraints[i as int],
    {
        &self.constraints[i]
    }

    /// The values collected so far: all of them in proving mode, none in
    /// setup mode.
    pub fn assignment(&self) -> (a: &Assignment<F>)
        ensures
            a@ == self@.values,
    {
        &self.values
    }

    /// Whether this system has issued `v`.
    pub fn has_issued(&self, v: Variable) -> (b: bool)
        ensures
            b == self@.issued(v),
    {
        v.is_allocated_in(self.num_public_inputs, self.num_witnesses)
    }

    /// The value that `v` got during synthesis: `Some` exactly for an issued
    /// variable of a system in proving mode.
    pub fn value_of(&self, v: Variable) -> (r: Option<F>)
        requires
            self@.wf(),
        ensures
            r is Some <==> (self@.mode == Mode::Proving && self@.issued(v)),
            r matches Some(x) ==> x.value() == self@.values.value_of(v),
    {
        match self.mode {
            Mode::Setup => None,
            Mode::Proving => {
                if v.is_allocated_in(self.num_public_inputs, self.num_witnesses) {
                    Some(self.values.value_of(v))
                } else {
                    None
                }
            },
        }
    }

    /// Issues a fresh witness. In proving mode the provider runs once and
    /// its value is recorded; in setup mode it is dropped unused.
    pub fn allocate_witness<P: FnOnce() -> Result<F, AssignmentMissing>>(
        &mut self,
        value_fn: P,
    ) -> (r: Result<Variable, SynthesisError>)
        requires
            old(self)@.wf(),
            old(self)@.num_witnesses < usize::MAX,
            old(self)@.mode == Mode::Proving ==> value_fn.requires(()),
        ensures
            final(self)@.wf(),
            final(self)@.mode == old(self)@.mode,
            old(self)@.mode == Mode::Setup ==> r == Ok::<Variable, SynthesisError>(
                old(self)@.next_witness(),
            ) && final(self)@ == old(self)@.alloc_witness(0),
            old(self)@.mode == Mode::Proving ==> exists|out: Result<F, AssignmentMissing>|
                value_fn.ensures((), out) && witness_outcome(old(self)@, out, final(self)@, r),
    {
        let v = Variable::witness(self.num_witnesses);
        match self.mode {
            Mode::Setup => {
                self.num_witnesses = self.num_witnesses + 1;
                proof {
                    lemma_alloc_keeps_wf(old(self)@, 0);
                }
                assert(self@ == old(self)@.alloc_witness(0));
                Ok(v)
            },
            Mode::Proving => {
                let out = value_fn();
                match out {
                    Ok(x) => {
                        self.values.witnesses.push(x);
                        self.num_witnesses = self.num_witnesses + 1;
                        assert(self@.values.witnesses =~= old(self)@.values.witnesses.push(
                            x.value(),
                        ));
                        proof {
                            lemma_alloc_keeps_wf(old(self)@, x.value());
                        }
                        assert(self@ == old(self)@.alloc_witness(x.value()));
                        assert(witness_outcome(old(self)@, out, self@, Ok(v)));
                        Ok(v)
                    },
                    Err(_) => {
                        assert(witness_outcome(
                            old(self)@,
                            out,
                            self@,
                            Err(SynthesisError::AssignmentMissing),
                        ));
                        Err(SynthesisError::AssignmentMissing)
                    },
                }
            },
        }
    }

    /// Issues a fresh public input. In proving mode the provider runs once
    /// and its value is recorded; in setup mode it is dropped unused.
    pub fn allocate_public_input<P: FnOnce() -> Result<F, AssignmentMissing>>(
        &mut self,
        value_fn: P,
    ) -> (r: Result<Variable, SynthesisError>)
        requires
            old(self)@.wf(),
            old(self)@.num_public_inputs < usize::MAX,
            old(self)@.mode == Mode::Proving ==> value_fn.requires(()),
        ensures
            final(self)@.wf(),
            final(self)@.mode == old(self)@.mode,
            old(self)@.mode == Mode::Setup ==> r == Ok::<Variable, SynthesisError>(
                old(self)@.next_public_input(),
            ) && final(self)@ == old(self)@.alloc_public_input(0),
            old(self)@.mode == Mode::Proving ==> exists|out: Result<F, AssignmentMissing>|
                value_fn.ensures((), out) && public_input_outcome(
                    old(self)@,
                    out,
                    final(self)@,
                    r,
                ),
    {
        let v = Variable::public_input(self.num_public_inputs);
        match self.mode {
            Mode::Setup => {
                self.num_public_inputs = self.num_public_inputs + 1;
                proof {
                    lemma_alloc_keeps_wf(old(self)@, 0);
                }
                assert(self@ == old(self)@.alloc_public_input(0));
                Ok(v)
            },
            Mode::Proving => {
                let out = value_fn();
                match out {
                    Ok(x) => {
                        self.values.public_inputs.push(x);
                        self.num_public_inputs = self.num_public_inputs + 1;
                        assert(self@.values.public_inputs =~= old(self)@.values.public_inputs.push(
                            x.value(),
                        ));
                        proof {
                            lemma_alloc_keeps_wf(old(self)@, x.value());
                        }
                        assert(self@ == old(self)@.alloc_public_input(x.value()));
                        assert(public_input_outcome(old(self)@, out, self@, Ok(v)));
                        Ok(v)
                    },
                    Err(_) => {
                        assert(public_input_outcome(
                            old(self)@,
                            out,
                            self@,
                            Err(SynthesisError::AssignmentMissing),
                        ));
                        Err(SynthesisError::AssignmentMissing)
                    },
                }
            },
        }
    }

    /// Records any constraint whose variables this system has issued, and
    /// refuses any other.
    pub fn enforce(&mut self, c: Constraint<F>) -> (r: Result<(), SynthesisError>)
        requires
            old(self)@.wf(),
        ensures
            final(self)@.wf(),
            enforce_outcome(old(self)@, c@, final(self)@, r),
    {
        if c.closed_in(self.num_public_inputs, self.num_witnesses) {
            let ghost model = c@;
            self.constraints.push(c);
            assert(self@.constraints =~= old(self)@.constraints.push(model));
            Ok(())
        } else {
            Err(SynthesisError::MalformedConstraint)
        }
    }

    /// Records the rank-1 constraint `a * b = c`. Nothing is evaluated: the
    /// constraint is checked only when an assignment is checked.
    pub fn enforce_rank1(
        &mut self,
        a: LinearCombination<F>,
        b: LinearCombination<F>,
        c: LinearCombination<F>,
    ) -> (r: Result<(), SynthesisError>)
        requires
            old(self)@.wf(),
        ensures
            final(self)@.wf(),
            enforce_outcome(
                old(self)@,
                (ConstraintModel::Rank1 { a: a@, b: b@, c: c@ }),
                final(self)@,
                r,
            ),
    {
        self.enforce(Constraint::Rank1 { a, b, c })
    }

    /// Records the gated constraint `selector * expr = 0`.
    pub fn enforce_gated(&mut self, selector: bool, expr: Expression<F>) -> (r: Result<
        (),
        SynthesisError,
    >)
        requires
            old(self)@.wf(),
        ensures
            final(self)@.wf(),
            enforce_outcome(
                old(self)@,
                (ConstraintModel::Gated { selector, expr: expr@ }),
                final(self)@,
                r,
            ),
    {
        self.enforce(Constraint::Gated { selector, expr })
    }
}

} // verus!

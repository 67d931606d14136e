//! Rank-1 systems over the Ristretto scalar field as sparse matrices, in the
//! layout that the Spartan prover takes, and Spartan's own verdict on them.

use vstd::prelude::*;
use crate::assignment::Assignment;
use crate::bytes::le_value;
use crate::constraint::{Constraint, ConstraintModel};
use crate::field::Field;
use crate::lc::LinearCombination;
use crate::scalar::Scalar;
use crate::system::{ConstraintSystem, SystemModel};
use crate::variable::{Variable, VariableKind};

verus! {

/// The column of a variable: witnesses first, then the constant one, then
/// the public inputs.
pub open spec fn column_of(v: Variable, num_vars: nat) -> nat {
    match v.kind {
        VariableKind::Witness => v.index as nat,
        VariableKind::ConstantOne => num_vars,
        VariableKind::PublicInput => num_vars + 1 + v.index as nat,
    }
}

/// One entry for each term of a combination, in the row `row`.
pub open spec fn row_entries(lc: Seq<(Variable, nat)>, row: nat, num_vars: nat) -> Seq<
    (nat, nat, nat),
> {
    Seq::new(lc.len(), |i: int| (row, column_of(lc[i].0, num_vars), lc[i].1))
}

/// The entries of a matrix whose row `i` is the combination `rows[i]`, row by
/// row.
pub open spec fn matrix_entries(rows: Seq<Seq<(Variable, nat)>>, num_vars: nat) -> Seq<
    (nat, nat, nat),
>
    decreases rows.len(),
{
    if rows.len() == 0 {
        Seq::empty()
    } else {
        matrix_entries(rows.drop_last(), num_vars) + row_entries(
            rows.last(),
            (rows.len() - 1) as nat,
            num_vars,
        )
    }
}

/// Which of the three combinations of a rank-1 constraint is meant.
#[derive(Clone, Copy, Debug, PartialEq, Eq, Structural)]
pub enum Side {
    A,
    B,
    C,
}

/// The chosen combination of a constraint; empty for a gated constraint.
pub open spec fn side_of(c: ConstraintModel, side: Side) -> Seq<(Variable, nat)> {
    match c {
        ConstraintModel::Rank1 { a, b, c } => match side {
            Side::A => a,
            Side::B => b,
            Side::C => c,
        },
        ConstraintModel::Gated { .. } => Seq::empty(),
    }
}

/// The chosen combination of every constraint.
pub open spec fn sides_of(cs: Seq<ConstraintModel>, side: Side) -> Seq<Seq<(Variable, nat)>> {
    Seq::new(cs.len(), |i: int| side_of(cs[i], side))
}

/// Every constraint is a rank-1 constraint.
pub open spec fn all_rank1(cs: Seq<ConstraintModel>) -> bool {
    forall|i: int| 0 <= i < cs.len() ==> (#[trigger] cs[i]) is Rank1
}

/// An entry as row, column and residue.
pub open spec fn entry_model(e: (usize, usize, [u8; 32])) -> (nat, nat, nat) {
    (e.0 as nat, e.1 as nat, le_value(e.2@))
}

/// The entries of a matrix as rows, columns and residues.
pub open spec fn entries_model(s: Seq<(usize, usize, [u8; 32])>) -> Seq<(nat, nat, nat)> {
    Seq::new(s.len(), |i: int| entry_model(s[i]))
}

/// The residues that a sequence of encoded scalars spells.
pub open spec fn encoded_residues(s: Seq<[u8; 32]>) -> Seq<nat> {
    Seq::new(s.len(), |i: int| le_value(s[i]@))
}

/// A rank-1 system as three sparse matrices over encoded scalars. Column
/// `j < num_vars` is witness `j`, column `num_vars` the constant one, and
/// column `num_vars + 1 + j` public input `j`.
pub struct SparseR1cs {
    pub num_cons: usize,
    pub num_vars: usize,
    pub num_inputs: usize,
    pub a: Vec<(usize, usize, [u8; 32])>,
    pub b: Vec<(usize, usize, [u8; 32])>,
    pub c: Vec<(usize, usize, [u8; 32])>,
}

impl SparseR1cs {
    /// These are the matrices of the system `m`.
    pub open spec fn represents(&self, m: SystemModel) -> bool {
        &&& self.num_cons == m.constraints.len()
        &&& self.num_vars == m.num_witnesses
        &&& self.num_inputs == m.num_public_inputs
        &&& entries_model(self.a@) == matrix_entries(
            sides_of(m.constraints, Side::A),
            m.num_witnesses,
        )
        &&& entries_model(self.b@) == matrix_entries(
            sides_of(m.constraints, Side::B),
            m.num_witnesses,
        )
        &&& entries_model(self.c@) == matrix_entries(
            sides_of(m.constraints, Side::C),
            m.num_witnesses,
        )
    }

    /// The largest number of entries in any of the three matrices.
    pub fn num_non_zero_entries(&self) -> (n: usize)
        ensures
            n >= self.a@.len() && n >= self.b@.len() && n >= self.c@.len(),
            n == self.a@.len() || n == self.b@.len() || n == self.c@.len(),
    {
        let mut n = self.a.len();
        if self.b.len() > n {
            n = self.b.len();
        }
        if self.c.len() > n {
            n = self.c.len();
        }
        n
    }
}

/// Executable form of `column_of`.
pub fn column_index(v: Variable, num_vars: usize) -> (col: usize)
    requires
        v.kind == VariableKind::PublicInput ==> num_vars + 1 + v.index <= usize::MAX,
    ensures
        col == column_of(v, num_vars as nat),
{
    match v.kind {
        VariableKind::Witness => v.index,
        VariableKind::ConstantOne => num_vars,
        VariableKind::PublicInput => num_vars + 1 + v.index,
    }
}

/// Appends the entries of one row.
fn push_row(
    entries: &mut Vec<(usize, usize, [u8; 32])>,
    lc: &LinearCombination<Scalar>,
    row: usize,
    num_vars: usize,
    num_inputs: usize,
)
    requires
        num_vars + 1 + num_inputs <= usize::MAX,
        crate::lc::lc_closed(lc@, num_inputs as nat, num_vars as nat),
    ensures
        entries_model(final(entries)@) == entries_model(old(entries)@) + row_entries(
            lc@,
            row as nat,
            num_vars as nat,
        ),
{
    let ghost start = entries_model(entries@);
    let ghost target = row_entries(lc@, row as nat, num_vars as nat);
    let n = lc.len();
    let mut j: usize = 0;
    assert(start + target.take(0) =~= start);
    while j < n
        invariant
            j <= n,
            n == lc@.len(),
            num_vars + 1 + num_inputs <= usize::MAX,
            crate::lc::lc_closed(lc@, num_inputs as nat, num_vars as nat),
            target == row_entries(lc@, row as nat, num_vars as nat),
            entries_model(entries@) == start + target.take(j as int),
        decreases n - j,
    {
        let t = lc.term(j);
        assert(lc@[j as int].0.allocated_in(num_inputs as nat, num_vars as nat));
        let col = column_index(t.var, num_vars);
        let bytes = t.coeff.to_bytes();
        let ghost before = entries@;
        entries.push((row, col, bytes));
        proof {
            t.coeff.lemma_residue();
            assert(entries_model(entries@) =~= entries_model(before).push(target[j as int]));
            assert(target.take(j as int + 1) =~= target.take(j as int).push(target[j as int]));
            assert(start + target.take(j as int + 1) =~= (start + target.take(j as int)).push(
                target[j as int],
            ));
        }
        j += 1;
    }
    assert(target.take(n as int) =~= target);
}

/// One matrix of a system of rank-1 constraints.
fn export_side(cs: &ConstraintSystem<Scalar>, side: Side) -> (entries: Vec<
    (usize, usize, [u8; 32]),
>)
    requires
        cs@.wf(),
        all_rank1(cs@.constraints),
        cs@.num_witnesses + 1 + cs@.num_public_inputs <= usize::MAX,
    ensures
        entries_model(entries@) == matrix_entries(
            sides_of(cs@.constraints, side),
            cs@.num_witnesses,
        ),
{
    let n = cs.num_constraints();
    let num_vars = cs.num_witnesses();
    let num_inputs = cs.num_public_inputs();
    let ghost rows = sides_of(cs@.constraints, side);
    let mut entries: Vec<(usize, usize, [u8; 32])> = Vec::new();
    let mut i: usize = 0;
    assert(rows.take(0) =~= Seq::<Seq<(Variable, nat)>>::empty());
    assert(entries_model(entries@) =~= Seq::<(nat, nat, nat)>::empty());
    while i < n
        invariant
            i <= n,
            n == cs@.constraints.len(),
            num_vars == cs@.num_witnesses,
            num_inputs == cs@.num_public_inputs,
            num_vars + 1 + num_inputs <= usize::MAX,
            cs@.wf(),
            all_rank1(cs@.constraints),
            rows == sides_of(cs@.constraints, side),
            entries_model(entries@) == matrix_entries(rows.take(i as int), num_vars as nat),
        decreases n - i,
    {
        let c = cs.constraint(i);
        proof {
            assert(cs@.constraints[i as int] is Rank1);
            assert(crate::constraint::constraint_closed(
                cs@.constraints[i as int],
                cs@.num_public_inputs,
                cs@.num_witnesses,
            ));
            let next = rows.take(i as int + 1);
            assert(next.drop_last() =~= rows.take(i as int));
            assert(next.last() == rows[i as int]);
        }
        match c {
            Constraint::Rank1 { a, b, c } => {
                match side {
                    Side::A => push_row(&mut entries, a, i, num_vars, num_inputs),
                    Side::B => push_row(&mut entries, b, i, num_vars, num_inputs),
                    Side::C => push_row(&mut entries, c, i, num_vars, num_inputs),
                }
            },
            Constraint::Gated { .. } => {
                assert(false);
            },
        }
        i += 1;
    }
    assert(rows.take(n as int) =~= rows);
    entries
}

/// Whether every constraint of the system is a rank-1 constraint.
pub fn is_rank1_system<F: Field>(cs: &ConstraintSystem<F>) -> (b: bool)
    ensures
        b == all_rank1(cs@.constraints),
{
    let n = cs.num_constraints();
    let mut i: usize = 0;
    while i < n
        invariant
            i <= n,
            n == cs@.constraints.len(),
            forall|j: int| 0 <= j < i ==> (#[trigger] cs@.constraints[j]) is Rank1,
        decreases n - i,
    {
        match cs.constraint(i) {
            Constraint::Rank1 { .. } => {},
            Constraint::Gated { .. } => {
                return false;
            },
        }
        i += 1;
    }
    true
}

/// The sparse matrices of a system: `Some` exactly for a system of rank-1
/// constraints.
pub fn export_r1cs(cs: &ConstraintSystem<Scalar>) -> (r: Option<SparseR1cs>)
    requires
        cs@.wf(),
        cs@.num_witnesses + 1 + cs@.num_public_inputs <= usize::MAX,
    ensures
        r is Some <==> all_rank1(cs@.constraints),
        r matches Some(m) ==> m.represents(cs@),
{
    if !is_rank1_system(cs) {
        return None;
    }
    Some(
        SparseR1cs {
            num_cons: cs.num_constraints(),
            num_vars: cs.num_witnesses(),
            num_inputs: cs.num_public_inputs(),
            a: export_side(cs, Side::A),
            b: export_side(cs, Side::B),
            c: export_side(cs, Side::C),
        },
    )
}

/// The canonical encodings of a sequence of scalars.
pub fn encode_scalars(values: &Vec<Scalar>) -> (out: Vec<[u8; 32]>)
    ensures
        encoded_residues(out@) == crate::assignment::residues(values@),
{
    let mut out: Vec<[u8; 32]> = Vec::new();
    let mut i: usize = 0;
    while i < values.len()
        invariant
            i <= values.len(),
            out@.len() == i,
            forall|j: int| 0 <= j < i ==> le_value((#[trigger] out@[j])@) == values@[j].value(),
        decreases values.len() - i,
    {
        out.push(values[i].to_bytes());
        i += 1;
    }
    assert(encoded_residues(out@) =~= crate::assignment::residues(values@));
    out
}

/// What Spartan answers when it is asked whether an assignment satisfies an
/// instance: `None` where it refuses the instance or the assignment.
pub uninterp spec fn spartan_verdict(
    num_cons: nat,
    num_vars: nat,
    num_inputs: nat,
    a: Seq<(usize, usize, [u8; 32])>,
    b: Seq<(usize, usize, [u8; 32])>,
    c: Seq<(usize, usize, [u8; 32])>,
    vars: Seq<[u8; 32]>,
    inputs: Seq<[u8; 32]>,
) -> Option<bool>;

/// Asks Spartan whether an assignment satisfies an instance.
///
/// The body builds the instance with `libspartan::Instance::new` and the two
/// assignments with `libspartan::Assignment::new`, then calls
/// `libspartan::Instance::is_sat`; an error of any of the four gives `None`.
/// The contract claims only that the answer is a function of the arguments.
/// The sizes are bounded because the instance is padded to powers of two.
#[verifier::external_body]
fn spartan_is_sat(
    num_cons: usize,
    num_vars: usize,
    num_inputs: usize,
    a: &Vec<(usize, usize, [u8; 32])>,
    b: &Vec<(usize, usize, [u8; 32])>,
    c: &Vec<(usize, usize, [u8; 32])>,
    vars: &Vec<[u8; 32]>,
    inputs: &Vec<[u8; 32]>,
) -> (r: Option<bool>)
    requires
        1 <= num_cons <= 0x10_0000,
        num_vars <= 0x10_0000,
        num_inputs <= 0x10_0000,
    ensures
        r == spartan_verdict(
            num_cons as nat,
            num_vars as nat,
            num_inputs as nat,
            a@,
            b@,
            c@,
            vars@,
            inputs@,
        ),
{
    let inst = libspartan::Instance::new(num_cons, num_vars, num_inputs, a, b, c).ok()?;
    let vars = libspartan::VarsAssignment::new(vars).ok()?;
    let inputs = libspartan::InputsAssignment::new(inputs).ok()?;
    inst.is_sat(&vars, &inputs).ok()
}

/// Spartan's verdict on a system and an assignment: `None` where the sizes
/// are out of Spartan's range or Spartan refuses its input.
pub fn spartan_check(m: &SparseR1cs, vars: &Vec<[u8; 32]>, inputs: &Vec<[u8; 32]>) -> (r: Option<
    bool,
>)
    ensures
        r == if 1 <= m.num_cons <= 0x10_0000 && m.num_vars <= 0x10_0000 && m.num_inputs
            <= 0x10_0000 {
            spartan_verdict(
                m.num_cons as nat,
                m.num_vars as nat,
                m.num_inputs as nat,
                m.a@,
                m.b@,
                m.c@,
                vars@,
                inputs@,
            )
        } else {
            None
        },
{
    if 1 <= m.num_cons && m.num_cons <= 0x10_0000 && m.num_vars <= 0x10_0000 && m.num_inputs
        <= 0x10_0000 {
        spartan_is_sat(m.num_cons, m.num_vars, m.num_inputs, &m.a, &m.b, &m.c, vars, inputs)
    } else {
        None
    }
}

} // verus!

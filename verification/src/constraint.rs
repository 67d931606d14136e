//! Constraints: what a satisfying assignment has to fulfil.

use vstd::prelude::*;
use crate::assignment::{Assignment, AssignmentModel};
use crate::expression::{expr_closed, expr_eval, lemma_expr_closed_monotone, ExprModel, Expression};
use crate::field::{mul_mod, Field};
use crate::lc::{lc_closed, lc_eval, LinearCombination};
use crate::variable::Variable;

verus! {

/// A recorded relation, over residues.
pub enum ConstraintModel {
    /// `a * b = c` between three linear combinations.
    Rank1 { a: Seq<(Variable, nat)>, b: Seq<(Variable, nat)>, c: Seq<(Variable, nat)> },
    /// `expr = 0` wherever the selector is active.
    Gated { selector: bool, expr: ExprModel },
}

/// Whether an assignment fulfils a constraint.
pub open spec fn constraint_holds(c: ConstraintModel, asg: AssignmentModel, p: nat) -> bool {
    match c {
        ConstraintModel::Rank1 { a, b, c } => mul_mod(lc_eval(a, asg, p), lc_eval(b, asg, p), p)
            == lc_eval(c, asg, p),
        ConstraintModel::Gated { selector, expr } => selector ==> expr_eval(expr, asg, p) == 0,
    }
}

/// Every variable of the constraint was issued by a system with the given
/// counts.
pub open spec fn constraint_closed(c: ConstraintModel, num_public: nat, num_witness: nat) -> bool {
    match c {
        ConstraintModel::Rank1 { a, b, c } => {
            &&& lc_closed(a, num_public, num_witness)
            &&& lc_closed(b, num_public, num_witness)
            &&& lc_closed(c, num_public, num_witness)
        },
        ConstraintModel::Gated { selector, expr } => expr_closed(expr, num_public, num_witness),
    }
}

/// A constraint over issued variables stays so when more are issued.
pub proof fn lemma_constraint_closed_monotone(
    c: ConstraintModel,
    num_public: nat,
    num_witness: nat,
    more_public: nat,
    more_witness: nat,
)
    requires
        constraint_closed(c, num_public, num_witness),
        num_public <= more_public,
        num_witness <= more_witness,
    ensures
        constraint_closed(c, more_public, more_witness),
{
    match c {
        ConstraintModel::Rank1 { a, b, c } => {},
        ConstraintModel::Gated { selector, expr } => {
            lemma_expr_closed_monotone(expr, num_public, num_witness, more_public, more_witness);
        },
    }
}

/// A relation recorded in a constraint system.
pub enum Constraint<F: Field> {
    /// `a * b = c`.
    Rank1 { a: LinearCombination<F>, b: LinearCombination<F>, c: LinearCombination<F> },
    /// `selector * expr = 0`.
    Gated { selector: bool, expr: Expression<F> },
}

impl<F: Field> View for Constraint<F> {
    type V = ConstraintModel;

    open spec fn view(&self) -> ConstraintModel {
        match self {
            Constraint::Rank1 { a, b, c } => ConstraintModel::Rank1 { a: a@, b: b@, c: c@ },
            Constraint::Gated { selector, expr } => ConstraintModel::Gated {
                selector: *selector,
                expr: expr@,
            },
        }
    }
}

impl<F: Field> Constraint<F> {
    /// Executable form of `constraint_closed`.
    pub fn closed_in(&self, num_public: usize, num_witness: usize) -> (b: bool)
        ensures
            b == constraint_closed(self@, num_public as nat, num_witness as nat),
    {
        match self {
            Constraint::Rank1 { a, b, c } => a.closed_in(num_public, num_witness) && b.closed_in(
                num_public,
                num_witness,
            ) && c.closed_in(num_public, num_witness),
            Constraint::Gated { selector, expr } => expr.closed_in(num_public, num_witness),
        }
    }

    /// Whether the assignment fulfils this constraint.
    pub fn holds(&self, asg: &Assignment<F>) -> (b: bool)
        requires
            constraint_closed(self@, asg@.public_inputs.len(), asg@.witnesses.len()),
        ensures
            b == constraint_holds(self@, asg@, F::modulus()),
    {
        match self {
            Constraint::Rank1 { a, b, c } => {
                let x = a.evaluate(asg);
                let y = b.evaluate(asg);
                let z = c.evaluate(asg);
                x.mul(&y).is_equal(&z)
            },
            Constraint::Gated { selector, expr } => {
                if *selector {
                    expr.evaluate(asg).is_equal(&F::zero())
                } else {
                    true
                }
            },
        }
    }

    /// A copy of this constraint.
    pub fn duplicate(&self) -> (r: Self)
        ensures
            r@ == self@,
    {
        match self {
            Constraint::Rank1 { a, b, c } => Constraint::Rank1 {
                a: a.duplicate(),
                b: b.duplicate(),
                c: c.duplicate(),
            },
            Constraint::Gated { selector, expr } => Constraint::Gated {
                selector: *selector,
                expr: expr.duplicate(),
            },
        }
    }
}

} // verus!

//! Polynomial expressions over variables, for gated constraints.

use vstd::prelude::*;
use crate::assignment::{Assignment, AssignmentModel};
use crate::field::{add_mod, mul_mod, neg_mod, Field};
use crate::variable::Variable;

verus! {

/// A polynomial over variables, with residues for constants.
pub enum ExprModel {
    Constant(nat),
    Var(Variable),
    Neg(Box<ExprModel>),
    Sum(Box<ExprModel>, Box<ExprModel>),
    Product(Box<ExprModel>, Box<ExprModel>),
}

/// The value of a polynomial under an assignment, computed in the field.
pub open spec fn expr_eval(e: ExprModel, asg: AssignmentModel, p: nat) -> nat
    decreases e,
{
    match e {
        ExprModel::Constant(k) => k,
        ExprModel::Var(v) => asg.value_of(v),
        ExprModel::Neg(a) => neg_mod(expr_eval(*a, asg, p), p),
        ExprModel::Sum(a, b) => add_mod(expr_eval(*a, asg, p), expr_eval(*b, asg, p), p),
        ExprModel::Product(a, b) => mul_mod(expr_eval(*a, asg, p), expr_eval(*b, asg, p), p),
    }
}

/// Every variable of the polynomial was issued by a system with the given
/// counts.
pub open spec fn expr_closed(e: ExprModel, num_public: nat, num_witness: nat) -> bool
    decreases e,
{
    match e {
        ExprModel::Constant(_) => true,
        ExprModel::Var(v) => v.allocated_in(num_public, num_witness),
        ExprModel::Neg(a) => expr_closed(*a, num_public, num_witness),
        ExprModel::Sum(a, b) => expr_closed(*a, num_public, num_witness) && expr_closed(
            *b,
            num_public,
            num_witness,
        ),
        ExprModel::Product(a, b) => expr_closed(*a, num_public, num_witness) && expr_closed(
            *b,
            num_public,
            num_witness,
        ),
    }
}

/// A linear combination as a polynomial: the sum, from zero, of each
/// coefficient times its variable.
pub open spec fn lc_as_expr(s: Seq<(Variable, nat)>) -> ExprModel
    decreases s.len(),
{
    if s.len() == 0 {
        ExprModel::Constant(0)
    } else {
        ExprModel::Sum(
            Box::new(lc_as_expr(s.drop_last())),
            Box::new(
                ExprModel::Product(
                    Box::new(ExprModel::Constant(s.last().1)),
                    Box::new(ExprModel::Var(s.last().0)),
                ),
            ),
        )
    }
}

/// The polynomial `a * b - c` of three linear combinations.
pub open spec fn rank1_as_expr(
    a: Seq<(Variable, nat)>,
    b: Seq<(Variable, nat)>,
    c: Seq<(Variable, nat)>,
) -> ExprModel {
    ExprModel::Sum(
        Box::new(ExprModel::Product(Box::new(lc_as_expr(a)), Box::new(lc_as_expr(b)))),
        Box::new(ExprModel::Neg(Box::new(lc_as_expr(c)))),
    )
}

/// A polynomial over issued variables stays so when more are issued.
pub proof fn lemma_expr_closed_monotone(
    e: ExprModel,
    num_public: nat,
    num_witness: nat,
    more_public: nat,
    more_witness: nat,
)
    requires
        expr_closed(e, num_public, num_witness),
        num_public <= more_public,
        num_witness <= more_witness,
    ensures
        expr_closed(e, more_public, more_witness),
    decreases e,
{
    match e {
        ExprModel::Constant(_) => {},
        ExprModel::Var(_) => {},
        ExprModel::Neg(a) => {
            lemma_expr_closed_monotone(*a, num_public, num_witness, more_public, more_witness);
        },
        ExprModel::Sum(a, b) => {
            lemma_expr_closed_monotone(*a, num_public, num_witness, more_public, more_witness);
            lemma_expr_closed_monotone(*b, num_public, num_witness, more_public, more_witness);
        },
        ExprModel::Product(a, b) => {
            lemma_expr_closed_monotone(*a, num_public, num_witness, more_public, more_witness);
            lemma_expr_closed_monotone(*b, num_public, num_witness, more_public, more_witness);
        },
    }
}

/// The value of a polynomial depends only on the variables it mentions.
pub proof fn lemma_expr_eval_agrees(
    e: ExprModel,
    asg: AssignmentModel,
    other: AssignmentModel,
    num_public: nat,
    num_witness: nat,
    p: nat,
)
    requires
        expr_closed(e, num_public, num_witness),
        asg.agrees_with(other, num_public, num_witness),
    ensures
        expr_eval(e, asg, p) == expr_eval(e, other, p),
    decreases e,
{
    match e {
        ExprModel::Constant(_) => {},
        ExprModel::Var(_) => {},
        ExprModel::Neg(a) => {
            lemma_expr_eval_agrees(*a, asg, other, num_public, num_witness, p);
        },
        ExprModel::Sum(a, b) => {
            lemma_expr_eval_agrees(*a, asg, other, num_public, num_witness, p);
            lemma_expr_eval_agrees(*b, asg, other, num_public, num_witness, p);
        },
        ExprModel::Product(a, b) => {
            lemma_expr_eval_agrees(*a, asg, other, num_public, num_witness, p);
            lemma_expr_eval_agrees(*b, asg, other, num_public, num_witness, p);
        },
    }
}

/// A polynomial expression of bounded degree over allocated variables.
pub enum Expression<F: Field> {
    Constant(F),
    Var(Variable),
    Neg(Box<Expression<F>>),
    Sum(Box<Expression<F>>, Box<Expression<F>>),
    Product(Box<Expression<F>>, Box<Expression<F>>),
}

/// The polynomial that an expression stands for, constants by their residues.
pub open spec fn expr_model<F: Field>(e: Expression<F>) -> ExprModel
    decreases e,
{
    match e {
        Expression::Constant(k) => ExprModel::Constant(k.value()),
        Expression::Var(v) => ExprModel::Var(v),
        Expression::Neg(a) => ExprModel::Neg(Box::new(expr_model(*a))),
        Expression::Sum(a, b) => ExprModel::Sum(
            Box::new(expr_model(*a)),
            Box::new(expr_model(*b)),
        ),
        Expression::Product(a, b) => ExprModel::Product(
            Box::new(expr_model(*a)),
            Box::new(expr_model(*b)),
        ),
    }
}

impl<F: Field> View for Expression<F> {
    type V = ExprModel;

    open spec fn view(&self) -> ExprModel {
        expr_model(*self)
    }
}

impl<F: Field> Expression<F> {
    /// The constant polynomial `k`.
    pub fn constant(k: F) -> (e: Self)
        ensures
            e@ == ExprModel::Constant(k.value()),
    {
        Expression::Constant(k)
    }

    /// The polynomial `v`.
    pub fn var(v: Variable) -> (e: Self)
        ensures
            e@ == ExprModel::Var(v),
    {
        Expression::Var(v)
    }

    /// The polynomial `-self`.
    pub fn negated(self) -> (e: Self)
        ensures
            e@ == ExprModel::Neg(Box::new(self@)),
    {
        Expression::Neg(Box::new(self))
    }

    /// The polynomial `self + other`.
    pub fn plus(self, other: Self) -> (e: Self)
        ensures
            e@ == ExprModel::Sum(Box::new(self@), Box::new(other@)),
    {
        Expression::Sum(Box::new(self), Box::new(other))
    }

    /// The polynomial `self * other`.
    pub fn times(self, other: Self) -> (e: Self)
        ensures
            e@ == ExprModel::Product(Box::new(self@), Box::new(other@)),
    {
        Expression::Product(Box::new(self), Box::new(other))
    }

    /// The polynomial `self - other`.
    pub fn minus(self, other: Self) -> (e: Self)
        ensures
            e@ == ExprModel::Sum(Box::new(self@), Box::new(ExprModel::Neg(Box::new(other@)))),
    {
        self.plus(other.negated())
    }

    /// A copy of this polynomial.
    pub fn duplicate(&self) -> (e: Self)
        ensures
            e@ == self@,
        decreases self,
    {
        match self {
            Expression::Constant(k) => Expression::Constant(*k),
            Expression::Var(v) => Expression::Var(*v),
            Expression::Neg(a) => Expression::Neg(Box::new(a.duplicate())),
            Expression::Sum(a, b) => Expression::Sum(
                Box::new(a.duplicate()),
                Box::new(b.duplicate()),
            ),
            Expression::Product(a, b) => Expression::Product(
                Box::new(a.duplicate()),
                Box::new(b.duplicate()),
            ),
        }
    }

    /// Executable form of `expr_closed`.
    pub fn closed_in(&self, num_public: usize, num_witness: usize) -> (b: bool)
        ensures
            b == expr_closed(self@, num_public as nat, num_witness as nat),
        decreases self,
    {
        match self {
            Expression::Constant(_) => true,
            Expression::Var(v) => v.is_allocated_in(num_public, num_witness),
            Expression::Neg(a) => a.closed_in(num_public, num_witness),
            Expression::Sum(a, b) => a.closed_in(num_public, num_witness) && b.closed_in(
                num_public,
                num_witness,
            ),
            Expression::Product(a, b) => a.closed_in(num_public, num_witness) && b.closed_in(
                num_public,
                num_witness,
            ),
        }
    }

    /// The value of this polynomial under an assignment.
    pub fn evaluate(&self, asg: &Assignment<F>) -> (r: F)
        requires
            expr_closed(self@, asg@.public_inputs.len(), asg@.witnesses.len()),
        ensures
            r.value() == expr_eval(self@, asg@, F::modulus()),
        decreases self,
    {
        match self {
            Expression::Constant(k) => *k,
            Expression::Var(v) => asg.value_of(*v),
            Expression::Neg(a) => a.evaluate(asg).neg(),
            Expression::Sum(a, b) => {
                let x = a.evaluate(asg);
                let y = b.evaluate(asg);
                x.add(&y)
            },
            Expression::Product(a, b) => {
                let x = a.evaluate(asg);
                let y = b.evaluate(asg);
                x.mul(&y)
            },
        }
    }
}

} // verus!

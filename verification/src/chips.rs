//! Arithmetic on cells of a gated constraint system: every operation issues
//! a witness for its result and ties it to its operands with one gate.

use vstd::prelude::*;
use crate::constraint::{constraint_closed, ConstraintModel};
use crate::error::{AssignmentMissing, SynthesisError};
use crate::expression::{expr_closed, lc_as_expr, rank1_as_expr, ExprModel, Expression};
use crate::lc::LinearCombination;
use crate::field::{add_mod, mul_mod, Field};
use crate::system::{
    circuit_outcome, provides, residue_of, secret_or_zero, witness_allocated, ConstraintSystem,
    Mode, SystemModel,
};
use crate::variable::{Variable, VariableKind};

verus! {

/// The polynomial `lhs + rhs - out`.
pub open spec fn add_gate_model(lhs: Variable, rhs: Variable, out: Variable) -> ExprModel {
    ExprModel::Sum(
        Box::new(ExprModel::Sum(Box::new(ExprModel::Var(lhs)), Box::new(ExprModel::Var(rhs)))),
        Box::new(ExprModel::Neg(Box::new(ExprModel::Var(out)))),
    )
}

/// The polynomial `lhs * rhs - out`.
pub open spec fn mul_gate_model(lhs: Variable, rhs: Variable, out: Variable) -> ExprModel {
    ExprModel::Sum(
        Box::new(
            ExprModel::Product(Box::new(ExprModel::Var(lhs)), Box::new(ExprModel::Var(rhs))),
        ),
        Box::new(ExprModel::Neg(Box::new(ExprModel::Var(out)))),
    )
}

/// The polynomial `cell - k`.
pub open spec fn constant_gate_model(cell: Variable, k: nat) -> ExprModel {
    ExprModel::Sum(
        Box::new(ExprModel::Var(cell)),
        Box::new(ExprModel::Neg(Box::new(ExprModel::Constant(k)))),
    )
}

/// The polynomial `cell - instance`.
pub open spec fn copy_gate_model(cell: Variable, instance: Variable) -> ExprModel {
    ExprModel::Sum(
        Box::new(ExprModel::Var(cell)),
        Box::new(ExprModel::Neg(Box::new(ExprModel::Var(instance)))),
    )
}

/// The gates mention their cells and nothing else.
pub proof fn lemma_gates_closed(a: Variable, b: Variable, out: Variable, k: nat, np: nat, nw: nat)
    ensures
        expr_closed(add_gate_model(a, b, out), np, nw) == (a.allocated_in(np, nw)
            && b.allocated_in(np, nw) && out.allocated_in(np, nw)),
        expr_closed(mul_gate_model(a, b, out), np, nw) == (a.allocated_in(np, nw)
            && b.allocated_in(np, nw) && out.allocated_in(np, nw)),
        expr_closed(constant_gate_model(out, k), np, nw) == out.allocated_in(np, nw),
        expr_closed(copy_gate_model(a, b), np, nw) == (a.allocated_in(np, nw) && b.allocated_in(
            np,
            nw,
        )),
{
    reveal_with_fuel(expr_closed, 4);
}

/// An active gate on the polynomial `expr`.
pub open spec fn active(expr: ExprModel) -> ConstraintModel {
    ConstraintModel::Gated { selector: true, expr }
}

/// The system after one more witness worth `value` and an active gate that
/// `gate` makes from the new witness.
pub open spec fn cell_added(
    m: SystemModel,
    value: nat,
    gate: spec_fn(Variable) -> ExprModel,
) -> SystemModel {
    m.alloc_witness(value).with_constraint(active(gate(m.next_witness())))
}

/// The system after the sum of the cells `a` and `b` is added.
pub open spec fn sum_added(m: SystemModel, a: Variable, b: Variable, p: nat) -> SystemModel {
    cell_added(
        m,
        add_mod(m.values.value_of(a), m.values.value_of(b), p),
        |out: Variable| add_gate_model(a, b, out),
    )
}

/// The system after the product of the cells `a` and `b` is added.
pub open spec fn product_added(m: SystemModel, a: Variable, b: Variable, p: nat) -> SystemModel {
    cell_added(
        m,
        mul_mod(m.values.value_of(a), m.values.value_of(b), p),
        |out: Variable| mul_gate_model(a, b, out),
    )
}

/// The system after a cell that holds the constant `k` is added.
pub open spec fn constant_added(m: SystemModel, k: nat) -> SystemModel {
    cell_added(m, k, |cell: Variable| constant_gate_model(cell, k))
}

/// The system after the cell `num` is exposed: one more public input with
/// the value of `num`, and a gate that ties the two together.
pub open spec fn exposed(m: SystemModel, num: Variable) -> SystemModel {
    m.alloc_public_input(m.values.value_of(num)).with_constraint(
        active(copy_gate_model(num, m.next_public_input())),
    )
}

/// What an operation on issued cells does: it is refused, and changes
/// nothing, where an operand was not issued.
pub open spec fn cell_outcome(
    before: SystemModel,
    operands_issued: bool,
    result: SystemModel,
    cell: Variable,
    after: SystemModel,
    r: Result<Variable, SynthesisError>,
) -> bool {
    if operands_issued {
        r == Ok::<Variable, SynthesisError>(cell) && after == result
    } else {
        r == Err::<Variable, SynthesisError>(SynthesisError::MalformedConstraint) && after
            == before
    }
}

/// Loads a secret value into a fresh cell.
pub fn load_private<F: Field>(cs: &mut ConstraintSystem<F>, value: Option<F>) -> (r: Result<
    Variable,
    SynthesisError,
>)
    requires
        old(cs)@.wf(),
        old(cs)@.num_witnesses < usize::MAX,
    ensures
        final(cs)@.wf(),
        witness_allocated(old(cs)@, residue_of(value), final(cs)@, r),
{
    let provider = || -> (out: Result<F, AssignmentMissing>)
        ensures
            provides(out, residue_of(value)),
        {
            match value {
                Some(v) => Ok(v),
                None => Err(AssignmentMissing),
            }
        };
    cs.allocate_witness(provider)
}

/// Issues a cell worth `value` and records an active gate on `gate`, which
/// mentions the new cell and issued cells only.
fn add_cell<F: Field>(
    cs: &mut ConstraintSystem<F>,
    value: Option<F>,
    gate: Expression<F>,
    Ghost(make): Ghost<spec_fn(Variable) -> ExprModel>,
) -> (cell: Variable)
    requires
        old(cs)@.wf(),
        old(cs)@.num_witnesses < usize::MAX,
        old(cs)@.mode == Mode::Proving ==> value is Some,
        gate@ == make(old(cs)@.next_witness()),
        constraint_closed(
            active(gate@),
            old(cs)@.num_public_inputs,
            old(cs)@.num_witnesses + 1,
        ),
    ensures
        final(cs)@.wf(),
        cell == old(cs)@.next_witness(),
        final(cs)@ == cell_added(old(cs)@, secret_or_zero(residue_of(value)), make),
{
    let provider = || -> (out: Result<F, AssignmentMissing>)
        ensures
            provides(out, residue_of(value)),
        {
            match value {
                Some(v) => Ok(v),
                None => Err(AssignmentMissing),
            }
        };
    let cell = match cs.allocate_witness(provider) {
        Ok(v) => v,
        Err(_) => {
            assert(false);
            Variable::one()
        },
    };
    let enforced = cs.enforce_gated(true, gate);
    assert(enforced is Ok);
    cell
}

/// Loads a constant into a fresh cell and ties the cell to it.
pub fn load_constant<F: Field>(cs: &mut ConstraintSystem<F>, k: F) -> (cell: Variable)
    requires
        old(cs)@.wf(),
        old(cs)@.num_witnesses < usize::MAX,
    ensures
        final(cs)@.wf(),
        cell == old(cs)@.next_witness(),
        final(cs)@ == constant_added(old(cs)@, k.value()),
{
    let out = Variable::witness(cs.num_witnesses());
    let gate = Expression::var(out).minus(Expression::constant(k));
    proof {
        lemma_gates_closed(out, out, out, k.value(), cs@.num_public_inputs, cs@.num_witnesses + 1);
    }
    add_cell(cs, Some(k), gate, Ghost(|cell: Variable| constant_gate_model(cell, k.value())))
}

/// The value of an issued cell in proving mode, `None` in setup mode.
fn cell_value<F: Field>(cs: &ConstraintSystem<F>, v: Variable) -> (r: Option<F>)
    requires
        cs@.wf(),
        cs@.issued(v),
    ensures
        r is Some <==> cs@.mode == Mode::Proving,
        r matches Some(x) ==> x.value() == cs@.values.value_of(v),
{
    cs.value_of(v)
}

/// Adds two cells: a fresh cell for `a + b` and an active gate
/// `a + b - out`.
pub fn add_cells<F: Field>(cs: &mut ConstraintSystem<F>, a: Variable, b: Variable) -> (r: Result<
    Variable,
    SynthesisError,
>)
    requires
        old(cs)@.wf(),
        old(cs)@.num_witnesses < usize::MAX,
    ensures
        final(cs)@.wf(),
        cell_outcome(
            old(cs)@,
            old(cs)@.issued(a) && old(cs)@.issued(b),
            sum_added(old(cs)@, a, b, F::modulus()),
            old(cs)@.next_witness(),
            final(cs)@,
            r,
        ),
{
    if !cs.has_issued(a) || !cs.has_issued(b) {
        return Err(SynthesisError::MalformedConstraint);
    }
    let value = match (cell_value(cs, a), cell_value(cs, b)) {
        (Some(x), Some(y)) => Some(x.add(&y)),
        _ => None,
    };
    let out = Variable::witness(cs.num_witnesses());
    let gate = Expression::var(a).plus(Expression::var(b)).minus(Expression::var(out));
    proof {
        lemma_gates_closed(a, b, out, 0, cs@.num_public_inputs, cs@.num_witnesses + 1);
    }
    let cell = add_cell(cs, value, gate, Ghost(|out: Variable| add_gate_model(a, b, out)));
    Ok(cell)
}

/// Multiplies two cells: a fresh cell for `a * b` and an active gate
/// `a * b - out`.
pub fn mul_cells<F: Field>(cs: &mut ConstraintSystem<F>, a: Variable, b: Variable) -> (r: Result<
    Variable,
    SynthesisError,
>)
    requires
        old(cs)@.wf(),
        old(cs)@.num_witnesses < usize::MAX,
    ensures
        final(cs)@.wf(),
        cell_outcome(
            old(cs)@,
            old(cs)@.issued(a) && old(cs)@.issued(b),
            product_added(old(cs)@, a, b, F::modulus()),
            old(cs)@.next_witness(),
            final(cs)@,
            r,
        ),
{
    if !cs.has_issued(a) || !cs.has_issued(b) {
        return Err(SynthesisError::MalformedConstraint);
    }
    let value = match (cell_value(cs, a), cell_value(cs, b)) {
        (Some(x), Some(y)) => Some(x.mul(&y)),
        _ => None,
    };
    let out = Variable::witness(cs.num_witnesses());
    let gate = Expression::var(a).times(Expression::var(b)).minus(Expression::var(out));
    proof {
        lemma_gates_closed(a, b, out, 0, cs@.num_public_inputs, cs@.num_witnesses + 1);
    }
    let cell = add_cell(cs, value, gate, Ghost(|out: Variable| mul_gate_model(a, b, out)));
    Ok(cell)
}

/// Exposes a cell as a public input: a fresh public input with the value of
/// the cell and an active gate `num - instance`.
pub fn expose_public<F: Field>(cs: &mut ConstraintSystem<F>, num: Variable) -> (r: Result<
    Variable,
    SynthesisError,
>)
    requires
        old(cs)@.wf(),
        old(cs)@.num_public_inputs < usize::MAX,
    ensures
        final(cs)@.wf(),
        cell_outcome(
            old(cs)@,
            old(cs)@.issued(num),
            exposed(old(cs)@, num),
            old(cs)@.next_public_input(),
            final(cs)@,
            r,
        ),
{
    if !cs.has_issued(num) {
        return Err(SynthesisError::MalformedConstraint);
    }
    let value = cell_value(cs, num);
    let provider = || -> (out: Result<F, AssignmentMissing>)
        ensures
            provides(out, residue_of(value)),
        {
            match value {
                Some(v) => Ok(v),
                None => Err(AssignmentMissing),
            }
        };
    let instance = match cs.allocate_public_input(provider) {
        Ok(v) => v,
        Err(e) => {
            assert(false);
            return Err(e);
        },
    };
    let gate = Expression::var(num).minus(Expression::var(instance));
    proof {
        lemma_gates_closed(num, instance, num, 0, cs@.num_public_inputs, cs@.num_witnesses);
    }
    let enforced = cs.enforce_gated(true, gate);
    assert(enforced is Ok);
    Ok(instance)
}

/// The constant that the cubic expression adds.
pub const CUBIC_CONSTANT: u64 = 5;

/// The system after the cells of `x^3 + x + 5` are added for the cell `x`:
/// `x * x`, `x^2 * x`, `x^3 + x`, the constant, and the final sum.
pub open spec fn cubic_cells_added(m: SystemModel, x: Variable, p: nat) -> SystemModel {
    let m1 = product_added(m, x, x, p);
    let m2 = product_added(m1, m.next_witness(), x, p);
    let m3 = sum_added(m2, m1.next_witness(), x, p);
    let m4 = constant_added(m3, (CUBIC_CONSTANT as nat) % p);
    sum_added(m4, m2.next_witness(), m3.next_witness(), p)
}

/// The cell that holds the result of `cubic_cells_added`.
pub open spec fn cubic_result_cell(m: SystemModel) -> Variable {
    Variable { kind: VariableKind::Witness, index: (m.num_witnesses + 4) as usize }
}

/// Computes `y = x^3 + x + 5` on cells.
pub fn cubic_expression<F: Field>(cs: &mut ConstraintSystem<F>, x: Variable) -> (r: Result<
    Variable,
    SynthesisError,
>)
    requires
        old(cs)@.wf(),
        old(cs)@.num_witnesses + 5 <= usize::MAX,
    ensures
        final(cs)@.wf(),
        cell_outcome(
            old(cs)@,
            old(cs)@.issued(x),
            cubic_cells_added(old(cs)@, x, F::modulus()),
            cubic_result_cell(old(cs)@),
            final(cs)@,
            r,
        ),
{
    if !cs.has_issued(x) {
        return Err(SynthesisError::MalformedConstraint);
    }
    let x_square = match mul_cells(cs, x, x) {
        Ok(v) => v,
        Err(e) => {
            assert(false);
            return Err(e);
        },
    };
    let x_cube = match mul_cells(cs, x_square, x) {
        Ok(v) => v,
        Err(e) => {
            assert(false);
            return Err(e);
        },
    };
    let x_cube_plus_x = match add_cells(cs, x_cube, x) {
        Ok(v) => v,
        Err(e) => {
            assert(false);
            return Err(e);
        },
    };
    let constant = load_constant(cs, F::from_u64(CUBIC_CONSTANT));
    match add_cells(cs, x_cube_plus_x, constant) {
        Ok(v) => Ok(v),
        Err(e) => {
            assert(false);
            Err(e)
        },
    }
}

/// The system after the synthesis of the gated cubic circuit with the
/// secret `x`: a cell for `x`, the cells of `x^3 + x + 5`, and the result
/// exposed as a public input.
pub open spec fn gated_cubic_synthesized(m: SystemModel, x: nat, p: nat) -> SystemModel {
    let loaded = m.alloc_witness(x);
    exposed(cubic_cells_added(loaded, m.next_witness(), p), cubic_result_cell(loaded))
}

/// The circuit `y = x^3 + x + 5` on gated cells, with the secret `x` and the
/// public `y`.
pub struct GatedCubicCircuit<F: Field> {
    pub x: Option<F>,
}

impl<F: Field> GatedCubicCircuit<F> {
    /// The public value `x^3 + x + 5`.
    pub fn evaluate(x: F) -> (y: F)
        ensures
            y.value() == add_mod(
                add_mod(
                    mul_mod(mul_mod(x.value(), x.value(), F::modulus()), x.value(), F::modulus()),
                    x.value(),
                    F::modulus(),
                ),
                (CUBIC_CONSTANT as nat) % F::modulus(),
                F::modulus(),
            ),
    {
        x.mul(&x).mul(&x).add(&x).add(&F::from_u64(CUBIC_CONSTANT))
    }

    /// Synthesizes the circuit into `cs`.
    pub fn synthesize(&self, cs: &mut ConstraintSystem<F>) -> (r: Result<(), SynthesisError>)
        requires
            old(cs)@.wf(),
            old(cs)@.num_witnesses + 6 <= usize::MAX,
            old(cs)@.num_public_inputs + 1 <= usize::MAX,
        ensures
            final(cs)@.wf(),
            circuit_outcome(
                old(cs)@,
                residue_of(self.x),
                gated_cubic_synthesized(
                    old(cs)@,
                    secret_or_zero(residue_of(self.x)),
                    F::modulus(),
                ),
                final(cs)@,
                r,
            ),
    {
        let x = match load_private(cs, self.x) {
            Ok(v) => v,
            Err(e) => {
                return Err(e);
            },
        };
        let y = match cubic_expression(cs, x) {
            Ok(v) => v,
            Err(e) => {
                assert(false);
                return Err(e);
            },
        };
        match expose_public(cs, y) {
            Ok(_) => Ok(()),
            Err(e) => {
                assert(false);
                Err(e)
            },
        }
    }
}

/// A linear combination as a polynomial expression.
pub fn lc_to_expression<F: Field>(lc: &LinearCombination<F>) -> (e: Expression<F>)
    ensures
        e@ == lc_as_expr(lc@),
{
    let mut e: Expression<F> = Expression::constant(F::zero());
    let mut i: usize = 0;
    assert(lc@.take(0) =~= Seq::<(Variable, nat)>::empty());
    while i < lc.len()
        invariant
            i <= lc@.len(),
            e@ == lc_as_expr(lc@.take(i as int)),
        decreases lc@.len() - i,
    {
        let t = lc.term(i);
        proof {
            let next = lc@.take(i as int + 1);
            assert(next.drop_last() =~= lc@.take(i as int));
            assert(next.last() == lc@[i as int]);
        }
        e = e.plus(Expression::constant(t.coeff).times(Expression::var(t.var)));
        i += 1;
    }
    assert(lc@.take(lc@.len() as int) =~= lc@);
    e
}

/// The rank-1 constraint `a * b = c` as the polynomial `a * b - c`, for a
/// gated constraint with an active selector.
pub fn rank1_as_gate<F: Field>(
    a: &LinearCombination<F>,
    b: &LinearCombination<F>,
    c: &LinearCombination<F>,
) -> (e: Expression<F>)
    ensures
        e@ == rank1_as_expr(a@, b@, c@),
{
    lc_to_expression(a).times(lc_to_expression(b)).minus(lc_to_expression(c))
}

} // verus!

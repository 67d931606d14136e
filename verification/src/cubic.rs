//! Circuits for cubic expressions: `y = x^3 + x + 1` and `y = x^3`.

use vstd::prelude::*;
use crate::constraint::ConstraintModel;
use crate::error::{AssignmentMissing, SynthesisError};
use crate::field::{add_mod, mul_mod, Field};
use crate::gadgets::{just, the_one};
use crate::lc::{with_term, LinearCombination};
use crate::system::{
    circuit_outcome, provides, residue_of, secret_or_zero, ConstraintSystem, SystemModel,
};
use crate::variable::{Variable, VariableKind};

verus! {

/// The residue of `x^3`.
pub open spec fn cube_mod(x: nat, p: nat) -> nat {
    mul_mod(mul_mod(x, x, p), x, p)
}

/// The residue of `x^3 + x + 1`.
pub open spec fn cubic_plus_linear(x: nat, p: nat) -> nat {
    add_mod(add_mod(cube_mod(x, p), x, p), 1, p)
}

/// The system after the synthesis of `y = x^3 + x + 1` with the secret `x`:
/// witnesses for `x`, `x^2` and `x^3`, a public input for `y`, and the
/// constraints `x * x = x^2`, `x^2 * x = x^3` and `(x^3 + x + 1) * 1 = y`.
/// In setup mode `x` plays no part.
pub open spec fn cubic_plus_linear_synthesized(m: SystemModel, x: nat, p: nat) -> SystemModel {
    let vx = Variable { kind: VariableKind::Witness, index: m.num_witnesses as usize };
    let vx2 = Variable { kind: VariableKind::Witness, index: (m.num_witnesses + 1) as usize };
    let vx3 = Variable { kind: VariableKind::Witness, index: (m.num_witnesses + 2) as usize };
    let vy = Variable { kind: VariableKind::PublicInput, index: m.num_public_inputs as usize };
    m.alloc_witness(x).alloc_witness(mul_mod(x, x, p)).alloc_witness(
        cube_mod(x, p),
    ).alloc_public_input(cubic_plus_linear(x, p)).with_constraint(
        ConstraintModel::Rank1 { a: just(vx), b: just(vx), c: just(vx2) },
    ).with_constraint(
        ConstraintModel::Rank1 { a: just(vx2), b: just(vx), c: just(vx3) },
    ).with_constraint(
        ConstraintModel::Rank1 {
            a: with_term(with_term(just(vx3), vx, 1, p), the_one(), 1, p),
            b: just(the_one()),
            c: just(vy),
        },
    )
}

/// The system after the synthesis of `y = x^3` with the secret `x`:
/// witnesses for `x` and `x^2`, a public input for `y`, and the constraints
/// `x * x = x^2` and `x^2 * x = y`. In setup mode `x` plays no part.
pub open spec fn cubic_synthesized(m: SystemModel, x: nat, p: nat) -> SystemModel {
    let vx = Variable { kind: VariableKind::Witness, index: m.num_witnesses as usize };
    let vx2 = Variable { kind: VariableKind::Witness, index: (m.num_witnesses + 1) as usize };
    let vy = Variable { kind: VariableKind::PublicInput, index: m.num_public_inputs as usize };
    m.alloc_witness(x).alloc_witness(mul_mod(x, x, p)).alloc_public_input(
        cube_mod(x, p),
    ).with_constraint(
        ConstraintModel::Rank1 { a: just(vx), b: just(vx), c: just(vx2) },
    ).with_constraint(ConstraintModel::Rank1 { a: just(vx2), b: just(vx), c: just(vy) })
}

/// The circuit `y = x^3 + x + 1` with the secret `x` and the public `y`.
pub struct CubicPlusLinearCircuit<F: Field> {
    pub x: Option<F>,
}

impl<F: Field> CubicPlusLinearCircuit<F> {
    /// The public value `x^3 + x + 1`.
    pub fn evaluate(x: F) -> (y: F)
        ensures
            y.value() == cubic_plus_linear(x.value(), F::modulus()),
    {
        x.mul(&x).mul(&x).add(&x).add(&F::one())
    }

    /// Synthesizes the circuit into `cs`.
    pub fn generate_constraints(&self, cs: &mut ConstraintSystem<F>) -> (r: Result<
        (),
        SynthesisError,
    >)
        requires
            old(cs)@.wf(),
            old(cs)@.num_witnesses + 3 <= usize::MAX,
            old(cs)@.num_public_inputs + 1 <= usize::MAX,
        ensures
            final(cs)@.wf(),
            circuit_outcome(
                old(cs)@,
                residue_of(self.x),
                cubic_plus_linear_synthesized(
                    old(cs)@,
                    secret_or_zero(residue_of(self.x)),
                    F::modulus(),
                ),
                final(cs)@,
                r,
            ),
    {
        let ghost p = F::modulus();
        let ghost start = cs@;
        let secret = self.x;
        let provide_x = || -> (out: Result<F, AssignmentMissing>)
            ensures
                provides(out, residue_of(secret)),
            {
                match secret {
                    Some(v) => Ok(v),
                    None => Err(AssignmentMissing),
                }
            };
        let x = match cs.allocate_witness(provide_x) {
            Ok(v) => v,
            Err(e) => {
                return Err(e);
            },
        };
        let ghost xv = secret_or_zero(residue_of(secret));
        assert(cs@ == start.alloc_witness(xv));
        let provide_x_squared = || -> (out: Result<F, AssignmentMissing>)
            ensures
                provides(
                    out,
                    match secret {
                        Some(v) => Some(mul_mod(v.value(), v.value(), F::modulus())),
                        None => None,
                    },
                ),
            {
                match secret {
                    Some(v) => Ok(v.mul(&v)),
                    None => Err(AssignmentMissing),
                }
            };
        let x_squared = match cs.allocate_witness(provide_x_squared) {
            Ok(v) => v,
            Err(e) => {
                assert(false);
                return Err(e);
            },
        };
        let provide_x_cubed = || -> (out: Result<F, AssignmentMissing>)
            ensures
                provides(
                    out,
                    match secret {
                        Some(v) => Some(cube_mod(v.value(), F::modulus())),
                        None => None,
                    },
                ),
            {
                match secret {
                    Some(v) => Ok(v.mul(&v).mul(&v)),
                    None => Err(AssignmentMissing),
                }
            };
        let x_cubed = match cs.allocate_witness(provide_x_cubed) {
            Ok(v) => v,
            Err(e) => {
                assert(false);
                return Err(e);
            },
        };
        let provide_y = || -> (out: Result<F, AssignmentMissing>)
            ensures
                provides(
                    out,
                    match secret {
                        Some(v) => Some(cubic_plus_linear(v.value(), F::modulus())),
                        None => None,
                    },
                ),
            {
                match secret {
                    Some(v) => Ok(Self::evaluate(v)),
                    None => Err(AssignmentMissing),
                }
            };
        let y = match cs.allocate_public_input(provide_y) {
            Ok(v) => v,
            Err(e) => {
                assert(false);
                return Err(e);
            },
        };
        let first = cs.enforce_rank1(
            LinearCombination::from_variable(x),
            LinearCombination::from_variable(x),
            LinearCombination::from_variable(x_squared),
        );
        let second = cs.enforce_rank1(
            LinearCombination::from_variable(x_squared),
            LinearCombination::from_variable(x),
            LinearCombination::from_variable(x_cubed),
        );
        let third = cs.enforce_rank1(
            LinearCombination::from_variable(x_cubed).add_term(x, F::one()).add_constant(F::one()),
            LinearCombination::from_variable(Variable::one()),
            LinearCombination::from_variable(y),
        );
        assert(first is Ok && second is Ok && third is Ok);
        Ok(())
    }
}

/// The circuit `y = x^3` with the secret `x` and the public `y`.
pub struct CubicCircuit<F: Field> {
    pub x: Option<F>,
}

impl<F: Field> CubicCircuit<F> {
    /// The public value `x^3`.
    pub fn evaluate(x: F) -> (y: F)
        ensures
            y.value() == cube_mod(x.value(), F::modulus()),
    {
        x.mul(&x).mul(&x)
    }

    /// Synthesizes the circuit into `cs`.
    pub fn generate_constraints(&self, cs: &mut ConstraintSystem<F>) -> (r: Result<
        (),
        SynthesisError,
    >)
        requires
            old(cs)@.wf(),
            old(cs)@.num_witnesses + 2 <= usize::MAX,
            old(cs)@.num_public_inputs + 1 <= usize::MAX,
        ensures
            final(cs)@.wf(),
            circuit_outcome(
                old(cs)@,
                residue_of(self.x),
                cubic_synthesized(old(cs)@, secret_or_zero(residue_of(self.x)), F::modulus()),
                final(cs)@,
                r,
            ),
    {
        let ghost start = cs@;
        let secret = self.x;
        let provide_x = || -> (out: Result<F, AssignmentMissing>)
            ensures
                provides(out, residue_of(secret)),
            {
                match secret {
                    Some(v) => Ok(v),
                    None => Err(AssignmentMissing),
                }
            };
        let x = match cs.allocate_witness(provide_x) {
            Ok(v) => v,
            Err(e) => {
                return Err(e);
            },
        };
        let ghost xv = secret_or_zero(residue_of(secret));
        assert(cs@ == start.alloc_witness(xv));
        let provide_x_squared = || -> (out: Result<F, AssignmentMissing>)
            ensures
                provides(
                    out,
                    match secret {
                        Some(v) => Some(mul_mod(v.value(), v.value(), F::modulus())),
                        None => None,
                    },
                ),
            {
                match secret {
                    Some(v) => Ok(v.mul(&v)),
                    None => Err(AssignmentMissing),
                }
            };
        let x_squared = match cs.allocate_witness(provide_x_squared) {
            Ok(v) => v,
            Err(e) => {
                assert(false);
                return Err(e);
            },
        };
        let provide_y = || -> (out: Result<F, AssignmentMissing>)
            ensures
                provides(
                    out,
                    match secret {
                        Some(v) => Some(cube_mod(v.value(), F::modulus())),
                        None => None,
                    },
                ),
            {
                match secret {
                    Some(v) => Ok(Self::evaluate(v)),
                    None => Err(AssignmentMissing),
                }
            };
        let y = match cs.allocate_public_input(provide_y) {
            Ok(v) => v,
            Err(e) => {
                assert(false);
                return Err(e);
            },
        };
        let first = cs.enforce_rank1(
            LinearCombination::from_variable(x),
            LinearCombination::from_variable(x),
            LinearCombination::from_variable(x_squared),
        );
        let second = cs.enforce_rank1(
            LinearCombination::from_variable(x_squared),
            LinearCombination::from_variable(x),
            LinearCombination::from_variable(y),
        );
        assert(first is Ok && second is Ok);
        Ok(())
    }
}

} // verus!

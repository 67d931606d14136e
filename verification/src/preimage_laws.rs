//! What the bit-level preimage statement guarantees.

use vstd::prelude::*;
use vstd::arithmetic::div_mod::lemma_small_mod;
use crate::checker::{first_violation_at, is_verdict, SatisfiabilityResult};
use crate::constraint::constraint_holds;

use crate::hash_circuit::consecutive;
use crate::laws::lemma_boolean_holds_for_bit;
use crate::lc_laws::lemma_eval_single;
use crate::preimage::{
    assert_constraint, assert_constraints, bool_residue, bool_residues, boolean_constraints,
    preimage_statement,
};
use crate::gadgets::the_one;
use crate::sha256::bits_of;
use crate::assignment::AssignmentModel;
use crate::variable::{Variable, VariableKind};

verus! {

/// The assertion on `v` holds exactly where `v` is worth the expected bit.
pub proof fn lemma_assert_constraint_sound(v: Variable, expected: bool, asg: AssignmentModel, p: nat)
    requires
        p > 1,
        asg.value_of(v) < p,
    ensures
        constraint_holds(assert_constraint(v, expected), asg, p) <==> asg.value_of(v)
            == bool_residue(expected),
{
    let x = asg.value_of(v);
    lemma_eval_single(v, asg, p);
    lemma_eval_single(the_one(), asg, p);
    assert(x * 1 == x) by (nonlinear_arith);
    lemma_small_mod(x, p);
}

/// The values of the statement: message bits first, digest bits after.
proof fn lemma_statement_values(msg: Seq<u8>, digest: Seq<u8>, expected: Seq<u8>, p: nat)
    requires
        8 * msg.len() + 8 * digest.len() <= usize::MAX,
    ensures
        preimage_statement(msg, digest, expected, p).constraints.len() == 8 * msg.len() + 8
            * digest.len(),
        forall|i: int|
            0 <= i < 8 * msg.len() ==> preimage_statement(msg, digest, expected, p).values.value_of(
                #[trigger] consecutive(VariableKind::Witness, 0, 8 * msg.len())[i],
            ) == bool_residue(bits_of(msg)[i]),
        forall|i: int|
            0 <= i < 8 * digest.len() ==> preimage_statement(
                msg,
                digest,
                expected,
                p,
            ).values.value_of(
                #[trigger] consecutive(VariableKind::Witness, 8 * msg.len(), 8 * digest.len())[i],
            ) == bool_residue(bits_of(digest)[i]),
{
    let s = preimage_statement(msg, digest, expected, p);
    let nm = 8 * msg.len();
    assert(s.values.witnesses =~= bool_residues(bits_of(msg)) + bool_residues(bits_of(digest)));
    assert forall|i: int| 0 <= i < nm implies s.values.value_of(
        #[trigger] consecutive(VariableKind::Witness, 0, nm)[i],
    ) == bool_residue(bits_of(msg)[i]) by {
        assert(s.values.witnesses[i] == bool_residues(bits_of(msg))[i]);
    }
    assert forall|i: int| 0 <= i < 8 * digest.len() implies s.values.value_of(
        #[trigger] consecutive(VariableKind::Witness, nm, 8 * digest.len())[i],
    ) == bool_residue(bits_of(digest)[i]) by {
        assert(s.values.witnesses[nm + i] == bool_residues(bits_of(digest))[i]);
    }
}

/// Every constraint of the statement before position `upto` among the
/// assertions holds, where the digest and the expected digest agree on the
/// bits before `upto`.
proof fn lemma_statement_prefix(
    msg: Seq<u8>,
    digest: Seq<u8>,
    expected: Seq<u8>,
    p: nat,
    upto: int,
    j: int,
)
    requires
        p > 1,
        digest.len() == expected.len(),
        8 * msg.len() + 8 * digest.len() <= usize::MAX,
        0 <= upto <= 8 * digest.len(),
        forall|i: int| 0 <= i < upto ==> bits_of(digest)[i] == bits_of(expected)[i],
        0 <= j < 8 * msg.len() + upto,
    ensures
        constraint_holds(
            preimage_statement(msg, digest, expected, p).constraints[j],
            preimage_statement(msg, digest, expected, p).values,
            p,
        ),
{
    let s = preimage_statement(msg, digest, expected, p);
    let nm = 8 * msg.len();
    let nd = 8 * digest.len();
    lemma_statement_values(msg, digest, expected, p);
    if j < nm {
        let v = consecutive(VariableKind::Witness, 0, nm)[j];
        assert(s.constraints[j] == boolean_constraints(consecutive(VariableKind::Witness, 0, nm), p)[j]);
        lemma_boolean_holds_for_bit(v, s.values, p);
    } else {
        let i = j - nm;
        let v = consecutive(VariableKind::Witness, nm, nd)[i];
        assert(s.constraints[j] == assert_constraints(
            consecutive(VariableKind::Witness, nm, nd),
            bits_of(expected),
        )[i]);
        lemma_assert_constraint_sound(v, bits_of(expected)[i], s.values, p);
    }
}

/// The statement for a digest and itself is satisfied by its own values: the
/// checker answers `Satisfied`.
pub proof fn lemma_preimage_statement_satisfied(msg: Seq<u8>, digest: Seq<u8>, p: nat)
    requires
        p > 1,
        8 * msg.len() + 8 * digest.len() <= usize::MAX,
    ensures
        is_verdict(
            preimage_statement(msg, digest, digest, p).constraints,
            preimage_statement(msg, digest, digest, p).values,
            p,
            SatisfiabilityResult::Satisfied,
        ),
{
    let s = preimage_statement(msg, digest, digest, p);
    lemma_statement_values(msg, digest, digest, p);
    assert forall|j: int| 0 <= j < s.constraints.len() implies constraint_holds(
        #[trigger] s.constraints[j],
        s.values,
        p,
    ) by {
        lemma_statement_prefix(msg, digest, digest, p, (8 * digest.len()) as int, j);
    }
}

/// The statement for a digest and an expected digest whose bits first differ
/// at position `k` is violated at the assertion of that bit.
pub proof fn lemma_preimage_statement_violated(
    msg: Seq<u8>,
    digest: Seq<u8>,
    expected: Seq<u8>,
    p: nat,
    k: int,
)
    requires
        p > 1,
        digest.len() == expected.len(),
        8 * msg.len() + 8 * digest.len() <= usize::MAX,
        0 <= k < 8 * digest.len(),
        forall|i: int| 0 <= i < k ==> bits_of(digest)[i] == bits_of(expected)[i],
        bits_of(digest)[k] != bits_of(expected)[k],
    ensures
        is_verdict(
            preimage_statement(msg, digest, expected, p).constraints,
            preimage_statement(msg, digest, expected, p).values,
            p,
            SatisfiabilityResult::Violated((8 * msg.len() + k) as usize),
        ),
{
    let s = preimage_statement(msg, digest, expected, p);
    let nm = 8 * msg.len();
    let nd = 8 * digest.len();
    let at = nm + k;
    lemma_statement_values(msg, digest, expected, p);
    assert forall|j: int| 0 <= j < at implies constraint_holds(
        #[trigger] s.constraints[j],
        s.values,
        p,
    ) by {
        lemma_statement_prefix(msg, digest, expected, p, k, j);
    }
    let v = consecutive(VariableKind::Witness, nm, nd)[k];
    assert(s.constraints[at] == assert_constraints(
        consecutive(VariableKind::Witness, nm, nd),
        bits_of(expected),
    )[k]);
    lemma_assert_constraint_sound(v, bits_of(expected)[k], s.values, p);
    assert(first_violation_at(s.constraints, s.values, p, at as int));
}

} // verus!

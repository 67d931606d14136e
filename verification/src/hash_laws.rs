//! What the hash-consistency circuit guarantees.

use vstd::prelude::*;
use vstd::arithmetic::div_mod::lemma_small_mod;
use crate::checker::{all_hold, is_verdict, SatisfiabilityResult};
use crate::constraint::constraint_holds;
use crate::hash_circuit::{
    byte_residue, byte_residues, bytes_or_empty, DigestVisibility, Sha256Circuit, DIGEST_BYTES,
};
use crate::laws::{
    lemma_equality_gadget_first_difference, lemma_equality_gadget_satisfied, lemma_holds_agrees,
};
use crate::system::{Mode, SystemModel};

verus! {

/// What the variables of the two digests are worth after the synthesis: the
/// bytes of the computed digest and of the claimed one; and every constraint
/// from before still holds.
proof fn lemma_hash_circuit_values(c: Sha256Circuit, m: SystemModel, digest: Seq<u8>, p: nat)
    requires
        p > 255,
        m.wf(),
        m.mode == Mode::Proving,
        c.has_input(),
        digest.len() == DIGEST_BYTES,
        m.num_witnesses + c.preimage_len + 2 * DIGEST_BYTES <= usize::MAX,
        m.num_public_inputs + c.preimage_len + 2 * DIGEST_BYTES <= usize::MAX,
        all_hold(m.constraints, m.values, p),
    ensures
        all_hold(m.constraints, c.synthesized(m, digest, p).values, p),
        c.computed_variables(m, p).len() == DIGEST_BYTES,
        c.claimed_variables(m).len() == DIGEST_BYTES,
        forall|i: int|
            0 <= i < DIGEST_BYTES ==> c.synthesized(m, digest, p).values.value_of(
                #[trigger] c.computed_variables(m, p)[i],
            ) == digest[i] as nat,
        forall|i: int|
            0 <= i < DIGEST_BYTES ==> c.synthesized(m, digest, p).values.value_of(
                #[trigger] c.claimed_variables(m)[i],
            ) == bytes_or_empty(c.hash)[i] as nat,
{
    let after = c.synthesized(m, digest, p);
    let hash = bytes_or_empty(c.hash);
    let pre = byte_residues(bytes_or_empty(c.preimage), p);
    let claimed = byte_residues(hash, p);
    let computed = byte_residues(digest, p);
    let n = c.preimage_len as nat;
    assert forall|j: int| 0 <= j < m.constraints.len() implies constraint_holds(
        #[trigger] m.constraints[j],
        after.values,
        p,
    ) by {
        lemma_holds_agrees(
            m.constraints[j],
            m.values,
            after.values,
            m.num_public_inputs,
            m.num_witnesses,
            p,
        );
    }
    assert forall|i: int| 0 <= i < DIGEST_BYTES implies after.values.value_of(
        #[trigger] c.computed_variables(m, p)[i],
    ) == digest[i] as nat by {
        lemma_small_mod(digest[i] as nat, p);
        assert(computed[i] == byte_residue(digest[i], p));
        match c.visibility {
            DigestVisibility::Witness => {
                assert(after.values.witnesses == m.values.witnesses + pre + claimed + computed);
                assert(after.values.witnesses[m.num_witnesses + n + DIGEST_BYTES + i]
                    == computed[i]);
            },
            DigestVisibility::PublicInput => {
                assert(after.values.witnesses == m.values.witnesses + pre + computed);
                assert(after.values.witnesses[m.num_witnesses + n + i] == computed[i]);
            },
        }
    }
    assert forall|i: int| 0 <= i < DIGEST_BYTES implies after.values.value_of(
        #[trigger] c.claimed_variables(m)[i],
    ) == hash[i] as nat by {
        lemma_small_mod(hash[i] as nat, p);
        assert(claimed[i] == byte_residue(hash[i], p));
        match c.visibility {
            DigestVisibility::Witness => {
                assert(after.values.witnesses == m.values.witnesses + pre + claimed + computed);
                assert(after.values.witnesses[m.num_witnesses + n + i] == claimed[i]);
            },
            DigestVisibility::PublicInput => {
                assert(after.values.public_inputs == m.values.public_inputs + claimed);
                assert(after.values.public_inputs[m.num_public_inputs + i] == claimed[i]);
            },
        }
    }
}

/// The circuit accepts the true digest. Where the claimed digest equals the
/// digest computed from the preimage and the system before was satisfied,
/// the checker answers `Satisfied`, whatever the visibility of the digest.
pub proof fn lemma_hash_circuit_accepts(c: Sha256Circuit, m: SystemModel, digest: Seq<u8>, p: nat)
    requires
        p > 255,
        m.wf(),
        m.mode == Mode::Proving,
        c.has_input(),
        digest.len() == DIGEST_BYTES,
        m.num_witnesses + c.preimage_len + 2 * DIGEST_BYTES <= usize::MAX,
        m.num_public_inputs + c.preimage_len + 2 * DIGEST_BYTES <= usize::MAX,
        all_hold(m.constraints, m.values, p),
        bytes_or_empty(c.hash) == digest,
    ensures
        is_verdict(
            c.synthesized(m, digest, p).constraints,
            c.synthesized(m, digest, p).values,
            p,
            SatisfiabilityResult::Satisfied,
        ),
{
    lemma_hash_circuit_values(c, m, digest, p);
    lemma_equality_gadget_satisfied(
        m.constraints,
        c.computed_variables(m, p),
        c.claimed_variables(m),
        c.synthesized(m, digest, p).values,
        p,
    );
}

/// The circuit rejects any other digest. Where the claimed digest first
/// differs from the computed one at byte `k`, the checker answers `Violated`
/// with the index of the constraint for that byte.
pub proof fn lemma_hash_circuit_rejects(
    c: Sha256Circuit,
    m: SystemModel,
    digest: Seq<u8>,
    p: nat,
    k: int,
)
    requires
        p > 255,
        m.wf(),
        m.mode == Mode::Proving,
        c.has_input(),
        digest.len() == DIGEST_BYTES,
        m.num_witnesses + c.preimage_len + 2 * DIGEST_BYTES <= usize::MAX,
        m.num_public_inputs + c.preimage_len + 2 * DIGEST_BYTES <= usize::MAX,
        m.constraints.len() + DIGEST_BYTES <= usize::MAX,
        all_hold(m.constraints, m.values, p),
        0 <= k < DIGEST_BYTES,
        forall|i: int| 0 <= i < k ==> bytes_or_empty(c.hash)[i] == digest[i],
        bytes_or_empty(c.hash)[k] != digest[k],
    ensures
        is_verdict(
            c.synthesized(m, digest, p).constraints,
            c.synthesized(m, digest, p).values,
            p,
            SatisfiabilityResult::Violated((m.constraints.len() + k) as usize),
        ),
{
    lemma_hash_circuit_values(c, m, digest, p);
    lemma_equality_gadget_first_difference(
        m.constraints,
        c.computed_variables(m, p),
        c.claimed_variables(m),
        c.synthesized(m, digest, p).values,
        p,
        k,
    );
}

} // verus!

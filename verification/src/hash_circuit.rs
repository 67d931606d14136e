//! The hash-consistency circuit: knowledge of a preimage whose digest equals
//! a claimed digest.

use vstd::prelude::*;
use crate::assignment::AssignmentModel;
use crate::error::{AssignmentMissing, SynthesisError};
use crate::field::Field;
use crate::gadgets::{enforce_equal_bytes, equality_constraints};
use crate::sha256::{sha256, sha256_of};
use crate::system::{provides, ConstraintSystem, Mode, SystemModel};
use crate::variable::{Variable, VariableKind};

verus! {

/// The length of a SHA-256 digest in bytes.
pub const DIGEST_BYTES: usize = 32;

/// Whether the claimed digest is disclosed to the verifier.
#[derive(Clone, Copy, Debug, PartialEq, Eq, Structural)]
pub enum DigestVisibility {
    /// The digest stays secret, like the preimage.
    Witness,
    /// The digest is a public input.
    PublicInput,
}

/// The residue of a byte.
pub open spec fn byte_residue(b: u8, p: nat) -> nat {
    (b as nat) % p
}

/// The residues of a byte string.
pub open spec fn byte_residues(bytes: Seq<u8>, p: nat) -> Seq<nat> {
    Seq::new(bytes.len(), |i: int| byte_residue(bytes[i], p))
}

/// `n` consecutive variables of one kind, the first with index `first`.
pub open spec fn consecutive(kind: VariableKind, first: nat, n: nat) -> Seq<Variable> {
    Seq::new(n, |i: int| Variable { kind, index: (first + i) as usize })
}

/// The system after `n` more witnesses with the values `vals`. In setup mode
/// the values play no part.
pub open spec fn witnesses_allocated(m: SystemModel, n: nat, vals: Seq<nat>) -> SystemModel {
    SystemModel {
        num_witnesses: m.num_witnesses + n,
        values: AssignmentModel {
            public_inputs: m.values.public_inputs,
            witnesses: match m.mode {
                Mode::Setup => m.values.witnesses,
                Mode::Proving => m.values.witnesses + vals,
            },
        },
        ..m
    }
}

/// The system after `n` more public inputs with the values `vals`. In setup
/// mode the values play no part.
pub open spec fn public_inputs_allocated(m: SystemModel, n: nat, vals: Seq<nat>) -> SystemModel {
    SystemModel {
        num_public_inputs: m.num_public_inputs + n,
        values: AssignmentModel {
            public_inputs: match m.mode {
                Mode::Setup => m.values.public_inputs,
                Mode::Proving => m.values.public_inputs + vals,
            },
            witnesses: m.values.witnesses,
        },
        ..m
    }
}

/// The system after `n` more byte-valued variables of the given visibility.
pub open spec fn bytes_allocated(
    m: SystemModel,
    visibility: DigestVisibility,
    n: nat,
    vals: Seq<nat>,
) -> SystemModel {
    match visibility {
        DigestVisibility::Witness => witnesses_allocated(m, n, vals),
        DigestVisibility::PublicInput => public_inputs_allocated(m, n, vals),
    }
}

/// The variables that `bytes_allocated` issues.
pub open spec fn byte_variables(m: SystemModel, visibility: DigestVisibility, n: nat) -> Seq<
    Variable,
> {
    match visibility {
        DigestVisibility::Witness => consecutive(VariableKind::Witness, m.num_witnesses, n),
        DigestVisibility::PublicInput => consecutive(
            VariableKind::PublicInput,
            m.num_public_inputs,
            n,
        ),
    }
}

/// Issues one variable for each of `n` bytes. In proving mode byte `i` of
/// `bytes` becomes the value of variable `i`.
pub fn allocate_bytes<F: Field>(
    cs: &mut ConstraintSystem<F>,
    visibility: DigestVisibility,
    n: usize,
    bytes: &[u8],
) -> (vars: Vec<Variable>)
    requires
        old(cs)@.wf(),
        old(cs)@.num_witnesses + n <= usize::MAX,
        old(cs)@.num_public_inputs + n <= usize::MAX,
        old(cs)@.mode == Mode::Proving ==> bytes@.len() == n,
    ensures
        final(cs)@.wf(),
        vars@ == byte_variables(old(cs)@, visibility, n as nat),
        final(cs)@ == bytes_allocated(
            old(cs)@,
            visibility,
            n as nat,
            byte_residues(bytes@, F::modulus()),
        ),
{
    let ghost start = cs@;
    let ghost p = F::modulus();
    let ghost vals = byte_residues(bytes@, p);
    let proving = match cs.mode() {
        Mode::Proving => true,
        Mode::Setup => false,
    };
    let mut vars: Vec<Variable> = Vec::new();
    let mut k: usize = 0;
    proof {
        assert(vals.take(0) =~= Seq::<nat>::empty());
        assert(start.values.witnesses + Seq::<nat>::empty() =~= start.values.witnesses);
        assert(start.values.public_inputs + Seq::<nat>::empty() =~= start.values.public_inputs);
        assert(vars@ =~= byte_variables(start, visibility, 0));
    }
    while k < n
        invariant
            k <= n,
            p == F::modulus(),
            start == old(cs)@,
            start.wf(),
            start.num_witnesses + n <= usize::MAX,
            start.num_public_inputs + n <= usize::MAX,
            proving == (start.mode == Mode::Proving),
            start.mode == Mode::Proving ==> bytes@.len() == n,
            vals == byte_residues(bytes@, p),
            cs@.wf(),
            cs@ == bytes_allocated(
                start,
                visibility,
                k as nat,
                if proving {
                    vals.take(k as int)
                } else {
                    vals
                },
            ),
            vars@ == byte_variables(start, visibility, k as nat),
        decreases n - k,
    {
        let ghost before = cs@;
        let value: Option<F> = if proving {
            Some(F::from_u64(bytes[k] as u64))
        } else {
            None
        };
        let ghost expected: Option<nat> = if proving {
            Some(vals[k as int])
        } else {
            None
        };
        let provider = || -> (out: Result<F, AssignmentMissing>)
            ensures
                provides(out, expected),
            {
                match value {
                    Some(b) => Ok(b),
                    None => Err(AssignmentMissing),
                }
            };
        let allocated = match visibility {
            DigestVisibility::Witness => cs.allocate_witness(provider),
            DigestVisibility::PublicInput => cs.allocate_public_input(provider),
        };
        let v = match allocated {
            Ok(v) => v,
            Err(_) => {
                assert(false);
                return vars;
            },
        };
        proof {
            let kn = k as nat;
            if proving {
                assert(vals.take(k as int + 1) =~= vals.take(k as int).push(vals[k as int]));
            }
            match visibility {
                DigestVisibility::Witness => {
                    if proving {
                        assert(cs@.values.witnesses =~= start.values.witnesses + vals.take(
                            k as int + 1,
                        ));
                    }
                },
                DigestVisibility::PublicInput => {
                    if proving {
                        assert(cs@.values.public_inputs =~= start.values.public_inputs
                            + vals.take(k as int + 1));
                    }
                },
            }
            assert(byte_variables(start, visibility, kn + 1) =~= byte_variables(
                start,
                visibility,
                kn,
            ).push(v));
        }
        vars.push(v);
        k += 1;
    }
    proof {
        if proving {
            assert(vals.take(n as int) =~= vals);
        }
    }
    vars
}

/// What the prover knows: a preimage and the digest it claims for it.
pub struct Sha256Circuit {
    /// The length of the preimage, which fixes the shape of the circuit.
    pub preimage_len: usize,
    /// The preimage, where the run has one.
    pub preimage: Option<Vec<u8>>,
    /// The claimed digest, where the run has one.
    pub hash: Option<Vec<u8>>,
    /// Whether the claimed digest is disclosed.
    pub visibility: DigestVisibility,
}

/// The byte string of an optional vector, or the empty string.
pub open spec fn bytes_or_empty(v: Option<Vec<u8>>) -> Seq<u8> {
    match v {
        Some(b) => b@,
        None => Seq::empty(),
    }
}

impl Sha256Circuit {
    /// Whether the circuit carries a preimage and a digest of the lengths
    /// that its shape asks for.
    pub open spec fn has_input(&self) -> bool {
        &&& self.preimage matches Some(pre) && pre@.len() == self.preimage_len
        &&& self.hash matches Some(h) && h@.len() == DIGEST_BYTES
    }

    /// The system after the preimage and the claimed digest are allocated.
    pub open spec fn inputs_allocated(&self, m: SystemModel, p: nat) -> SystemModel {
        bytes_allocated(
            witnesses_allocated(
                m,
                self.preimage_len as nat,
                byte_residues(bytes_or_empty(self.preimage), p),
            ),
            self.visibility,
            DIGEST_BYTES as nat,
            byte_residues(bytes_or_empty(self.hash), p),
        )
    }

    /// The variables of the claimed digest.
    pub open spec fn claimed_variables(&self, m: SystemModel) -> Seq<Variable> {
        byte_variables(
            witnesses_allocated(m, self.preimage_len as nat, Seq::empty()),
            self.visibility,
            DIGEST_BYTES as nat,
        )
    }

    /// The variables of the computed digest.
    pub open spec fn computed_variables(&self, m: SystemModel, p: nat) -> Seq<Variable> {
        consecutive(
            VariableKind::Witness,
            self.inputs_allocated(m, p).num_witnesses,
            DIGEST_BYTES as nat,
        )
    }

    /// The system after the whole synthesis, where `digest` is the digest
    /// computed from the preimage: variables for the preimage, the claimed
    /// digest and the computed digest, then one equality constraint for each
    /// byte of the digest.
    pub open spec fn synthesized(&self, m: SystemModel, digest: Seq<u8>, p: nat) -> SystemModel {
        let allocated = witnesses_allocated(
            self.inputs_allocated(m, p),
            DIGEST_BYTES as nat,
            byte_residues(digest, p),
        );
        SystemModel {
            constraints: allocated.constraints + equality_constraints(
                self.computed_variables(m, p),
                self.claimed_variables(m),
                p,
            ),
            ..allocated
        }
    }

    /// Executable form of `has_input`.
    pub fn check_input(&self) -> (b: bool)
        ensures
            b == self.has_input(),
    {
        let pre_ok = match &self.preimage {
            Some(pre) => pre.len() == self.preimage_len,
            None => false,
        };
        let hash_ok = match &self.hash {
            Some(h) => h.len() == DIGEST_BYTES,
            None => false,
        };
        pre_ok && hash_ok
    }

    /// Synthesizes the circuit into `cs`, where `digest` is the digest of
    /// the preimage. A run in proving mode without its input aborts and
    /// leaves the system as it was.
    pub fn synthesize_with_digest<F: Field>(
        &self,
        cs: &mut ConstraintSystem<F>,
        digest: &[u8; 32],
    ) -> (r: Result<(), SynthesisError>)
        requires
            old(cs)@.wf(),
            old(cs)@.num_witnesses + self.preimage_len + 2 * DIGEST_BYTES <= usize::MAX,
            old(cs)@.num_public_inputs + self.preimage_len + 2 * DIGEST_BYTES <= usize::MAX,
        ensures
            final(cs)@.wf(),
            old(cs)@.mode == Mode::Proving && !self.has_input() ==> r == Err::<(), SynthesisError>(
                SynthesisError::AssignmentMissing,
            ) && final(cs)@ == old(cs)@,
            !(old(cs)@.mode == Mode::Proving && !self.has_input()) ==> r == Ok::<
                (),
                SynthesisError,
            >(()) && final(cs)@ == self.synthesized(old(cs)@, digest@, F::modulus()),
    {
        let proving = match cs.mode() {
            Mode::Proving => true,
            Mode::Setup => false,
        };
        if proving && !self.check_input() {
            return Err(SynthesisError::AssignmentMissing);
        }
        let ghost start = cs@;
        let ghost p = F::modulus();
        let empty: Vec<u8> = Vec::new();
        let preimage_bytes: &[u8] = match &self.preimage {
            Some(pre) => pre.as_slice(),
            None => empty.as_slice(),
        };
        let hash_bytes: &[u8] = match &self.hash {
            Some(h) => h.as_slice(),
            None => empty.as_slice(),
        };
        let preimage_vars = allocate_bytes(
            cs,
            DigestVisibility::Witness,
            self.preimage_len,
            preimage_bytes,
        );
        let ghost after_preimage = cs@;
        let claimed = allocate_bytes(cs, self.visibility, DIGEST_BYTES, hash_bytes);
        let ghost after_claimed = cs@;
        let computed = allocate_bytes(cs, DigestVisibility::Witness, DIGEST_BYTES, digest);
        proof {
            assert(after_claimed == self.inputs_allocated(start, p));
            assert(claimed@ =~= self.claimed_variables(start));
            assert(computed@ =~= self.computed_variables(start, p));
            assert forall|i: int| 0 <= i < claimed@.len() implies cs@.issued(
                #[trigger] claimed@[i],
            ) by {}
            assert forall|i: int| 0 <= i < computed@.len() implies cs@.issued(
                #[trigger] computed@[i],
            ) by {}
        }
        let enforced = enforce_equal_bytes(cs, &computed, &claimed);
        assert(enforced is Ok);
        Ok(())
    }

    /// Synthesizes the circuit into `cs`. The digest of the preimage is
    /// computed on the way.
    pub fn generate_constraints<F: Field>(&self, cs: &mut ConstraintSystem<F>) -> (r: Result<
        (),
        SynthesisError,
    >)
        requires
            old(cs)@.wf(),
            old(cs)@.num_witnesses + self.preimage_len + 2 * DIGEST_BYTES <= usize::MAX,
            old(cs)@.num_public_inputs + self.preimage_len + 2 * DIGEST_BYTES <= usize::MAX,
        ensures
            final(cs)@.wf(),
            old(cs)@.mode == Mode::Proving && !self.has_input() ==> r == Err::<(), SynthesisError>(
                SynthesisError::AssignmentMissing,
            ) && final(cs)@ == old(cs)@,
            !(old(cs)@.mode == Mode::Proving && !self.has_input()) ==> r == Ok::<
                (),
                SynthesisError,
            >(()) && final(cs)@ == self.synthesized(
                old(cs)@,
                sha256_of(bytes_or_empty(self.preimage)),
                F::modulus(),
            ),
    {
        let empty: Vec<u8> = Vec::new();
        let digest = match &self.preimage {
            Some(pre) => sha256(pre.as_slice()),
            None => sha256(empty.as_slice()),
        };
        self.synthesize_with_digest(cs, &digest)
    }
}

} // verus!

//! A backend-agnostic constraint-system engine for arithmetic circuits.
//!
//! A circuit author allocates secret and public variables, combines them into
//! linear expressions over a prime field, and records rank-1 or gated
//! polynomial relations between them. Synthesis runs in two modes: for
//! structure alone, or with concrete values that the value providers of the
//! circuit hand out. A satisfiability checker evaluates the recorded
//! relations against an assignment and reports the first violation.
//!
//! The library is verified with Verus. Contracts are stated over residues:
//! a field element stands for a natural number below the modulus, a linear
//! combination for a sequence of weighted variables, a constraint system for
//! its counts, constraints and collected values.
//!
//! * Fields: [`field`] is the capability that the engine depends on;
//!   [`goldilocks`] is a native 64-bit field; [`scalar`], [`bls_scalar`] and
//!   [`pasta_field`] take their arithmetic from `curve25519_dalek`, `ark_ff`
//!   and `pasta_curves`.
//! * Engine: [`variable`], [`assignment`], [`lc`], [`expression`],
//!   [`constraint`], [`system`], [`checker`].
//! * Gadgets: [`gadgets`] (boolean, equality), [`range`] (bit
//!   decomposition), [`chips`] (arithmetic on gated cells).
//! * Circuits: [`cubic`], [`range_circuit`], [`gated_range`],
//!   [`hash_circuit`], [`preimage`], and [`circuit`] with the two synthesis
//!   runs that a proving backend asks for.
//! * Around the circuits: [`sha256`] (digest, padding, words, bits),
//!   [`commitment`] (field-packed digest), [`spartan`] and [`spartan_range`]
//!   (sparse matrices for the Spartan prover), [`alloc_counter`].
//! * Laws: [`modular`], [`bytes`], [`lc_laws`], [`laws`], [`range_laws`],
//!   [`gate_laws`], [`cubic_laws`], [`hash_laws`], [`preimage_laws`],
//!   [`spartan_laws`].

pub mod field;
pub mod modular;
pub mod bytes;
pub mod goldilocks;
pub mod scalar;
pub mod bls_scalar;
pub mod pasta_field;

pub mod variable;
pub mod assignment;
pub mod lc;
pub mod lc_laws;
pub mod expression;
pub mod constraint;
pub mod error;
pub mod system;
pub mod checker;

pub mod gadgets;
pub mod range;
pub mod laws;
pub mod range_laws;
pub mod chips;
pub mod gate_laws;

pub mod cubic;
pub mod cubic_laws;
pub mod range_circuit;
pub mod gated_range;
pub mod sha256;
pub mod hash_circuit;
pub mod hash_laws;
pub mod preimage;
pub mod preimage_laws;
pub mod commitment;
pub mod circuit;

pub mod spartan;
pub mod spartan_laws;
pub mod spartan_range;
pub mod alloc_counter;

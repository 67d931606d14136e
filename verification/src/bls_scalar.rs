//! The scalar field of the curve BLS12-381: the integers modulo
//! `52435875175126190479447740508185965837690552500527637822603658699938581184513`,
//! with the arithmetic of `ark_ff`.

use vstd::prelude::*;
use vstd::arithmetic::div_mod::{lemma_mod_bound, lemma_small_mod};
use ark_ff::{BigInteger, PrimeField};
use crate::bytes::{le_bytes_bit, le_bytes_equal, le_value};
use crate::field::{add_mod, mul_mod, neg_mod, Field};

verus! {

/// The order of the prime-order subgroup of BLS12-381.
pub open spec fn bls_scalar_order() -> nat {
    0x73eda753299d7d483339d80809a1d80553bda402fffe5bfeffffffff00000001_nat
}

/// Reduces a 256-bit little-endian number modulo the field's order.
///
/// The body calls `ark_ff::PrimeField::from_le_bytes_mod_order` for
/// `ark_bls12_381::Fr`, takes the element's `into_bigint` and that integer's
/// `to_bytes_le`. The contract claims what the first documents: the element
/// stands for the argument reduced modulo the order; and what the other two
/// document: the integer lies below the order and its 32 bytes spell it,
/// least significant first.
#[verifier::external_body]
fn ark_reduce(a: &[u8; 32]) -> (r: [u8; 32])
    ensures
        le_value(r@) == le_value(a@) % bls_scalar_order(),
{
    let mut out = [0u8; 32];
    out.copy_from_slice(&ark_bls12_381::Fr::from_le_bytes_mod_order(a).into_bigint().to_bytes_le());
    out
}

/// The field element that stands for a 64-bit number.
///
/// The body calls `ark_ff`'s `From<u64>` for `ark_bls12_381::Fr` and encodes
/// the element with `into_bigint` and `to_bytes_le`. The contract claims
/// that the bytes spell `x`.
#[verifier::external_body]
fn ark_from_u64(x: u64) -> (r: [u8; 32])
    ensures
        le_value(r@) == x as nat,
{
    let mut out = [0u8; 32];
    out.copy_from_slice(&ark_bls12_381::Fr::from(x).into_bigint().to_bytes_le());
    out
}

/// Sum of two field elements.
///
/// The body reads both arguments with `from_le_bytes_mod_order`, adds them
/// with `ark_ff`'s `Add` for `ark_bls12_381::Fr` and encodes the sum with
/// `into_bigint` and `to_bytes_le`. The contract claims that the result is
/// the canonical encoding of the sum modulo the order.
#[verifier::external_body]
fn ark_add(a: &[u8; 32], b: &[u8; 32]) -> (r: [u8; 32])
    ensures
        le_value(r@) == add_mod(le_value(a@), le_value(b@), bls_scalar_order()),
{
    let x = ark_bls12_381::Fr::from_le_bytes_mod_order(a);
    let y = ark_bls12_381::Fr::from_le_bytes_mod_order(b);
    let mut out = [0u8; 32];
    out.copy_from_slice(&(x + y).into_bigint().to_bytes_le());
    out
}

/// Product of two field elements.
///
/// The body reads both arguments with `from_le_bytes_mod_order`, multiplies
/// them with `ark_ff`'s `Mul` for `ark_bls12_381::Fr` and encodes the product
/// with `into_bigint` and `to_bytes_le`. The contract claims that the result
/// is the canonical encoding of the product modulo the order.
#[verifier::external_body]
fn ark_mul(a: &[u8; 32], b: &[u8; 32]) -> (r: [u8; 32])
    ensures
        le_value(r@) == mul_mod(le_value(a@), le_value(b@), bls_scalar_order()),
{
    let x = ark_bls12_381::Fr::from_le_bytes_mod_order(a);
    let y = ark_bls12_381::Fr::from_le_bytes_mod_order(b);
    let mut out = [0u8; 32];
    out.copy_from_slice(&(x * y).into_bigint().to_bytes_le());
    out
}

/// Additive inverse of a field element.
///
/// The body reads the argument with `from_le_bytes_mod_order`, negates it
/// with `ark_ff`'s `Neg` for `ark_bls12_381::Fr` and encodes the result with
/// `into_bigint` and `to_bytes_le`. The contract claims that the result is
/// the canonical encoding of the additive inverse modulo the order.
#[verifier::external_body]
fn ark_neg(a: &[u8; 32]) -> (r: [u8; 32])
    ensures
        le_value(r@) == neg_mod(le_value(a@), bls_scalar_order()),
{
    let x = ark_bls12_381::Fr::from_le_bytes_mod_order(a);
    let mut out = [0u8; 32];
    out.copy_from_slice(&(-x).into_bigint().to_bytes_le());
    out
}

/// An element of the scalar field of BLS12-381, held as the canonical
/// little-endian encoding of its residue.
#[derive(Clone, Copy, Debug)]
pub struct BlsScalar {
    bytes: [u8; 32],
}

impl BlsScalar {
    #[verifier::type_invariant]
    spec fn canonical(self) -> bool {
        le_value(self.bytes@) < bls_scalar_order()
    }

    /// The element that a 256-bit little-endian number stands for.
    pub fn from_le_bytes_mod_order(bytes: [u8; 32]) -> (r: Self)
        ensures
            r.value() == le_value(bytes@) % bls_scalar_order(),
    {
        let reduced = ark_reduce(&bytes);
        proof {
            lemma_mod_bound(le_value(bytes@) as int, bls_scalar_order() as int);
            lemma_small_mod(le_value(reduced@), bls_scalar_order());
        }
        BlsScalar { bytes: reduced }
    }

    /// The canonical little-endian encoding of the residue.
    pub fn to_bytes(&self) -> (r: [u8; 32])
        ensures
            le_value(r@) == self.value(),
    {
        proof {
            use_type_invariant(self);
            lemma_small_mod(le_value(self.bytes@), bls_scalar_order());
        }
        self.bytes
    }
}

impl Field for BlsScalar {
    open spec fn modulus() -> nat {
        bls_scalar_order()
    }

    closed spec fn value(&self) -> nat {
        le_value(self.bytes@) % bls_scalar_order()
    }

    proof fn lemma_residue(&self) {
        lemma_mod_bound(le_value(self.bytes@) as int, bls_scalar_order() as int);
    }

    fn zero() -> (r: Self) {
        proof {
            lemma_small_mod(0, bls_scalar_order());
        }
        BlsScalar::from_u64(0)
    }

    fn one() -> (r: Self) {
        proof {
            lemma_small_mod(1, bls_scalar_order());
        }
        BlsScalar::from_u64(1)
    }

    fn from_u64(x: u64) -> (r: Self) {
        let bytes = ark_from_u64(x);
        proof {
            lemma_small_mod(x as nat, bls_scalar_order());
        }
        BlsScalar { bytes }
    }

    fn add(&self, rhs: &Self) -> (r: Self) {
        let a = self.to_bytes();
        let b = rhs.to_bytes();
        let sum = ark_add(&a, &b);
        proof {
            lemma_mod_bound((le_value(a@) + le_value(b@)) as int, bls_scalar_order() as int);
            lemma_small_mod(le_value(sum@), bls_scalar_order());
        }
        BlsScalar { bytes: sum }
    }

    fn mul(&self, rhs: &Self) -> (r: Self) {
        let a = self.to_bytes();
        let b = rhs.to_bytes();
        let product = ark_mul(&a, &b);
        proof {
            lemma_mod_bound((le_value(a@) * le_value(b@)) as int, bls_scalar_order() as int);
            lemma_small_mod(le_value(product@), bls_scalar_order());
        }
        BlsScalar { bytes: product }
    }

    fn neg(&self) -> (r: Self) {
        let a = self.to_bytes();
        let negated = ark_neg(&a);
        proof {
            lemma_mod_bound(
                bls_scalar_order() - le_value(a@) % bls_scalar_order(),
                bls_scalar_order() as int,
            );
            lemma_small_mod(le_value(negated@), bls_scalar_order());
        }
        BlsScalar { bytes: negated }
    }

    fn is_equal(&self, rhs: &Self) -> (b: bool) {
        le_bytes_equal(&self.to_bytes(), &rhs.to_bytes())
    }

    fn bit(&self, i: usize) -> (b: bool) {
        le_bytes_bit(&self.to_bytes(), i)
    }
}

} // verus!

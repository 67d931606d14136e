//! The scalar field of the Ristretto group: the integers modulo
//! `2^252 + 27742317777372353535851937790883648493`, with the arithmetic of
//! `curve25519_dalek`.

use vstd::prelude::*;
use vstd::arithmetic::div_mod::{lemma_mod_bound, lemma_small_mod};
use crate::bytes::{le_bytes_bit, le_bytes_equal, le_value};
use crate::field::{add_mod, mul_mod, neg_mod, Field};

verus! {

/// The order of the Ristretto group.
pub open spec fn scalar_order() -> nat {
    0x1000000000000000000000000000000014def9dea2f79cd65812631a5cf5d3ed_nat
}

/// Reduces a 256-bit little-endian number modulo the group order.
///
/// The body calls `curve25519_dalek::scalar::Scalar::from_bytes_mod_order`
/// and takes the result's `to_bytes`. The contract claims what that
/// function documents: the result is the canonical little-endian encoding of
/// the argument reduced modulo the group order.
#[verifier::external_body]
fn dalek_reduce(a: &[u8; 32]) -> (r: [u8; 32])
    ensures
        le_value(r@) == le_value(a@) % scalar_order(),
{
    curve25519_dalek::scalar::Scalar::from_bytes_mod_order(*a).to_bytes()
}

/// The scalar that stands for a 64-bit number.
///
/// The body calls `curve25519_dalek`'s `From<u64> for Scalar` and takes the
/// result's `to_bytes`. The contract claims that the bytes spell `x`.
#[verifier::external_body]
fn dalek_from_u64(x: u64) -> (r: [u8; 32])
    ensures
        le_value(r@) == x as nat,
{
    curve25519_dalek::scalar::Scalar::from(x).to_bytes()
}

/// Sum of two scalars.
///
/// The body reads both arguments with `Scalar::from_bytes_mod_order`, adds
/// them with `curve25519_dalek`'s `Add for Scalar` and takes the sum's
/// `to_bytes`. The contract claims that the result is the canonical encoding
/// of the sum modulo the group order.
#[verifier::external_body]
fn dalek_add(a: &[u8; 32], b: &[u8; 32]) -> (r: [u8; 32])
    ensures
        le_value(r@) == add_mod(le_value(a@), le_value(b@), scalar_order()),
{
    let x = curve25519_dalek::scalar::Scalar::from_bytes_mod_order(*a);
    let y = curve25519_dalek::scalar::Scalar::from_bytes_mod_order(*b);
    (x + y).to_bytes()
}

/// Product of two scalars.
///
/// The body reads both arguments with `Scalar::from_bytes_mod_order`,
/// multiplies them with `curve25519_dalek`'s `Mul for Scalar` and takes the
/// product's `to_bytes`. The contract claims that the result is the
/// canonical encoding of the product modulo the group order.
#[verifier::external_body]
fn dalek_mul(a: &[u8; 32], b: &[u8; 32]) -> (r: [u8; 32])
    ensures
        le_value(r@) == mul_mod(le_value(a@), le_value(b@), scalar_order()),
{
    let x = curve25519_dalek::scalar::Scalar::from_bytes_mod_order(*a);
    let y = curve25519_dalek::scalar::Scalar::from_bytes_mod_order(*b);
    (x * y).to_bytes()
}

/// Additive inverse of a scalar.
///
/// The body reads the argument with `Scalar::from_bytes_mod_order`, negates
/// it with `curve25519_dalek`'s `Neg for Scalar` and takes the result's
/// `to_bytes`. The contract claims that the result is the canonical encoding
/// of the additive inverse modulo the group order.
#[verifier::external_body]
fn dalek_neg(a: &[u8; 32]) -> (r: [u8; 32])
    ensures
        le_value(r@) == neg_mod(le_value(a@), scalar_order()),
{
    (-curve25519_dalek::scalar::Scalar::from_bytes_mod_order(*a)).to_bytes()
}

/// An element of the scalar field, held as the canonical little-endian
/// encoding of its residue.
#[derive(Clone, Copy, Debug)]
pub struct Scalar {
    bytes: [u8; 32],
}

impl Scalar {
    #[verifier::type_invariant]
    spec fn canonical(self) -> bool {
        le_value(self.bytes@) < scalar_order()
    }

    /// The scalar that a 256-bit little-endian number stands for.
    pub fn from_bytes_mod_order(bytes: [u8; 32]) -> (r: Self)
        ensures
            r.value() == le_value(bytes@) % scalar_order(),
    {
        let reduced = dalek_reduce(&bytes);
        proof {
            lemma_mod_bound(le_value(bytes@) as int, scalar_order() as int);
            lemma_small_mod(le_value(reduced@), scalar_order());
        }
        Scalar { bytes: reduced }
    }

    /// The canonical little-endian encoding of the residue.
    pub fn to_bytes(&self) -> (r: [u8; 32])
        ensures
            le_value(r@) == self.value(),
    {
        proof {
            use_type_invariant(self);
            lemma_small_mod(le_value(self.bytes@), scalar_order());
        }
        self.bytes
    }
}

impl Field for Scalar {
    open spec fn modulus() -> nat {
        scalar_order()
    }

    closed spec fn value(&self) -> nat {
        le_value(self.bytes@) % scalar_order()
    }

    proof fn lemma_residue(&self) {
        lemma_mod_bound(le_value(self.bytes@) as int, scalar_order() as int);
    }

    fn zero() -> (r: Self) {
        proof {
            lemma_small_mod(0, scalar_order());
        }
        Scalar::from_u64(0)
    }

    fn one() -> (r: Self) {
        proof {
            lemma_small_mod(1, scalar_order());
        }
        Scalar::from_u64(1)
    }

    fn from_u64(x: u64) -> (r: Self) {
        let bytes = dalek_from_u64(x);
        proof {
            lemma_small_mod(x as nat, scalar_order());
        }
        Scalar { bytes }
    }

    fn add(&self, rhs: &Self) -> (r: Self) {
        let a = self.to_bytes();
        let b = rhs.to_bytes();
        let sum = dalek_add(&a, &b);
        proof {
            lemma_mod_bound((le_value(a@) + le_value(b@)) as int, scalar_order() as int);
            lemma_small_mod(le_value(sum@), scalar_order());
        }
        Scalar { bytes: sum }
    }

    fn mul(&self, rhs: &Self) -> (r: Self) {
        let a = self.to_bytes();
        let b = rhs.to_bytes();
        let product = dalek_mul(&a, &b);
        proof {
            lemma_mod_bound((le_value(a@) * le_value(b@)) as int, scalar_order() as int);
            lemma_small_mod(le_value(product@), scalar_order());
        }
        Scalar { bytes: product }
    }

    fn neg(&self) -> (r: Self) {
        let a = self.to_bytes();
        let negated = dalek_neg(&a);
        proof {
            lemma_mod_bound(
                scalar_order() - le_value(a@) % scalar_order(),
                scalar_order() as int,
            );
            lemma_small_mod(le_value(negated@), scalar_order());
        }
        Scalar { bytes: negated }
    }

    fn is_equal(&self, rhs: &Self) -> (b: bool) {
        le_bytes_equal(&self.to_bytes(), &rhs.to_bytes())
    }

    fn bit(&self, i: usize) -> (b: bool) {
        le_bytes_bit(&self.to_bytes(), i)
    }
}

} // verus!

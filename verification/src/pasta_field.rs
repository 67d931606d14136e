//! The base field of the Pallas curve: the integers modulo
//! `0x40000000000000000000000000000000224698fc094cf91b992d30ed00000001`,
//! with the arithmetic of `pasta_curves`.

use vstd::prelude::*;
use vstd::arithmetic::div_mod::{lemma_mod_bound, lemma_small_mod};
use group::ff::{FromUniformBytes, PrimeField};
use crate::bytes::{le_bytes_bit, le_bytes_equal, le_value};
use crate::field::{add_mod, mul_mod, neg_mod, Field};

verus! {

/// The order of the base field of Pallas.
pub open spec fn pallas_base_order() -> nat {
    0x40000000000000000000000000000000224698fc094cf91b992d30ed00000001_nat
}

/// Reduces a 256-bit little-endian number modulo the field's order.
///
/// The body widens the argument with zero bytes, calls
/// `ff::FromUniformBytes::from_uniform_bytes` for `pasta_curves::Fp` and
/// takes the element's `to_repr`. The contract claims what the two document:
/// the element stands for the 512-bit number reduced modulo the order, and
/// its representation is the canonical little-endian encoding.
#[verifier::external_body]
fn pasta_reduce(a: &[u8; 32]) -> (r: [u8; 32])
    ensures
        le_value(r@) == le_value(a@) % pallas_base_order(),
{
    let mut wide = [0u8; 64];
    wide[..32].copy_from_slice(a);
    pasta_curves::Fp::from_uniform_bytes(&wide).to_repr()
}

/// The field element that stands for a 64-bit number.
///
/// The body calls `pasta_curves`' `From<u64>` for `Fp` and takes the
/// element's `to_repr`. The contract claims that the bytes spell `x`.
#[verifier::external_body]
fn pasta_from_u64(x: u64) -> (r: [u8; 32])
    ensures
        le_value(r@) == x as nat,
{
    pasta_curves::Fp::from(x).to_repr()
}

/// Sum of two field elements.
///
/// The body reads both arguments as `pasta_reduce` does, adds them with
/// `pasta_curves`' `Add` for `Fp` and takes the sum's `to_repr`. The contract
/// claims that the result is the canonical encoding of the sum modulo the
/// order.
#[verifier::external_body]
fn pasta_add(a: &[u8; 32], b: &[u8; 32]) -> (r: [u8; 32])
    ensures
        le_value(r@) == add_mod(le_value(a@), le_value(b@), pallas_base_order()),
{
    let (mut x, mut y) = ([0u8; 64], [0u8; 64]);
    x[..32].copy_from_slice(a);
    y[..32].copy_from_slice(b);
    let sum = pasta_curves::Fp::from_uniform_bytes(&x) + pasta_curves::Fp::from_uniform_bytes(&y);
    sum.to_repr()
}

/// Product of two field elements.
///
/// The body reads both arguments as `pasta_reduce` does, multiplies them
/// with `pasta_curves`' `Mul` for `Fp` and takes the product's `to_repr`. The
/// contract claims that the result is the canonical encoding of the product
/// modulo the order.
#[verifier::external_body]
fn pasta_mul(a: &[u8; 32], b: &[u8; 32]) -> (r: [u8; 32])
    ensures
        le_value(r@) == mul_mod(le_value(a@), le_value(b@), pallas_base_order()),
{
    let (mut x, mut y) = ([0u8; 64], [0u8; 64]);
    x[..32].copy_from_slice(a);
    y[..32].copy_from_slice(b);
    let product =
        pasta_curves::Fp::from_uniform_bytes(&x) * pasta_curves::Fp::from_uniform_bytes(&y);
    product.to_repr()
}

/// Additive inverse of a field element.
///
/// The body reads the argument as `pasta_reduce` does, negates it with
/// `pasta_curves`' `Neg` for `Fp` and takes the result's `to_repr`. The
/// contract claims that the result is the canonical encoding of the additive
/// inverse modulo the order.
#[verifier::external_body]
fn pasta_neg(a: &[u8; 32]) -> (r: [u8; 32])
    ensures
        le_value(r@) == neg_mod(le_value(a@), pallas_base_order()),
{
    let mut wide = [0u8; 64];
    wide[..32].copy_from_slice(a);
    (-pasta_curves::Fp::from_uniform_bytes(&wide)).to_repr()
}

/// An element of the base field of Pallas, held as the canonical
/// little-endian encoding of its residue.
#[derive(Clone, Copy, Debug)]
pub struct PastaFp {
    bytes: [u8; 32],
}

impl PastaFp {
    #[verifier::type_invariant]
    spec fn canonical(self) -> bool {
        le_value(self.bytes@) < pallas_base_order()
    }

    /// The element that a 256-bit little-endian number stands for.
    pub fn from_le_bytes_mod_order(bytes: [u8; 32]) -> (r: Self)
        ensures
            r.value() == le_value(bytes@) % pallas_base_order(),
    {
        let reduced = pasta_reduce(&bytes);
        proof {
            lemma_mod_bound(le_value(bytes@) as int, pallas_base_order() as int);
            lemma_small_mod(le_value(reduced@), pallas_base_order());
        }
        PastaFp { bytes: reduced }
    }

    /// The canonical little-endian encoding of the residue.
    pub fn to_bytes(&self) -> (r: [u8; 32])
        ensures
            le_value(r@) == self.value(),
    {
        proof {
            use_type_invariant(self);
            lemma_small_mod(le_value(self.bytes@), pallas_base_order());
        }
        self.bytes
    }
}

impl Field for PastaFp {
    open spec fn modulus() -> nat {
        pallas_base_order()
    }

    closed spec fn value(&self) -> nat {
        le_value(self.bytes@) % pallas_base_order()
    }

    proof fn lemma_residue(&self) {
        lemma_mod_bound(le_value(self.bytes@) as int, pallas_base_order() as int);
    }

    fn zero() -> (r: Self) {
        proof {
            lemma_small_mod(0, pallas_base_order());
        }
        PastaFp::from_u64(0)
    }

    fn one() -> (r: Self) {
        proof {
            lemma_small_mod(1, pallas_base_order());
        }
        PastaFp::from_u64(1)
    }

    fn from_u64(x: u64) -> (r: Self) {
        let bytes = pasta_from_u64(x);
        proof {
            lemma_small_mod(x as nat, pallas_base_order());
        }
        PastaFp { bytes }
    }

    fn add(&self, rhs: &Self) -> (r: Self) {
        let a = self.to_bytes();
        let b = rhs.to_bytes();
        let sum = pasta_add(&a, &b);
        proof {
            lemma_mod_bound((le_value(a@) + le_value(b@)) as int, pallas_base_order() as int);
            lemma_small_mod(le_value(sum@), pallas_base_order());
        }
        PastaFp { bytes: sum }
    }

    fn mul(&self, rhs: &Self) -> (r: Self) {
        let a = self.to_bytes();
        let b = rhs.to_bytes();
        let product = pasta_mul(&a, &b);
        proof {
            lemma_mod_bound((le_value(a@) * le_value(b@)) as int, pallas_base_order() as int);
            lemma_small_mod(le_value(product@), pallas_base_order());
        }
        PastaFp { bytes: product }
    }

    fn neg(&self) -> (r: Self) {
        let a = self.to_bytes();
        let negated = pasta_neg(&a);
        proof {
            lemma_mod_bound(
                pallas_base_order() - le_value(a@) % pallas_base_order(),
                pallas_base_order() as int,
            );
            lemma_small_mod(le_value(negated@), pallas_base_order());
        }
        PastaFp { bytes: negated }
    }

    fn is_equal(&self, rhs: &Self) -> (b: bool) {
        le_bytes_equal(&self.to_bytes(), &rhs.to_bytes())
    }

    fn bit(&self, i: usize) -> (b: bool) {
        le_bytes_bit(&self.to_bytes(), i)
    }
}

} // verus!

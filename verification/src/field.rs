//! The field-arithmetic capability that the engine depends on.

use vstd::prelude::*;
use vstd::arithmetic::power2::pow2;

verus! {

/// `p` has no divisor other than one and itself.
pub open spec fn is_prime(p: nat) -> bool {
    &&& p >= 2
    &&& forall|d: nat| 1 < d < p ==> #[trigger] (p % d) != 0
}

/// The sum of two residues modulo `p`.
pub open spec fn add_mod(a: nat, b: nat, p: nat) -> nat {
    (a + b) % p
}

/// The product of two residues modulo `p`.
pub open spec fn mul_mod(a: nat, b: nat, p: nat) -> nat {
    (a * b) % p
}

/// The additive inverse of the residue `a` modulo `p`.
pub open spec fn neg_mod(a: nat, p: nat) -> nat {
    ((p - a % p) % (p as int)) as nat
}

/// Bit `i` of the natural number `v`.
pub open spec fn bit_of(v: nat, i: nat) -> bool {
    (v / pow2(i)) % 2 == 1
}

/// Arithmetic in the integers modulo a modulus that exceeds one.
///
/// Every element stands for one residue, `value()`, and every operation is
/// stated over residues, so the engine's contracts never mention how an
/// implementation stores its elements.
pub trait Field: Sized + Copy {
    /// The modulus of the field.
    spec fn modulus() -> nat;

    /// The residue that this element stands for.
    spec fn value(&self) -> nat;

    /// The modulus exceeds one, and residues lie below it.
    proof fn lemma_residue(&self)
        ensures
            Self::modulus() > 1,
            self.value() < Self::modulus(),
    ;

    /// The additive identity.
    fn zero() -> (r: Self)
        ensures
            r.value() == 0,
    ;

    /// The multiplicative identity.
    fn one() -> (r: Self)
        ensures
            r.value() == 1,
    ;

    /// The element that stands for `x` reduced modulo the modulus.
    fn from_u64(x: u64) -> (r: Self)
        ensures
            r.value() == (x as nat) % Self::modulus(),
    ;

    /// Field addition.
    fn add(&self, rhs: &Self) -> (r: Self)
        ensures
            r.value() == add_mod(self.value(), rhs.value(), Self::modulus()),
    ;

    /// Field multiplication.
    fn mul(&self, rhs: &Self) -> (r: Self)
        ensures
            r.value() == mul_mod(self.value(), rhs.value(), Self::modulus()),
    ;

    /// Additive inverse.
    fn neg(&self) -> (r: Self)
        ensures
            r.value() == neg_mod(self.value(), Self::modulus()),
    ;

    /// Whether two elements stand for the same residue.
    fn is_equal(&self, rhs: &Self) -> (b: bool)
        ensures
            b == (self.value() == rhs.value()),
    ;

    /// Bit `i` of the residue, counted from the least significant.
    fn bit(&self, i: usize) -> (b: bool)
        ensures
            b == bit_of(self.value(), i as nat),
    ;
}

} // verus!

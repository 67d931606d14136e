//! A native 64-bit prime field: the integers modulo `2^64 - 2^32 + 1`.

use vstd::prelude::*;
use vstd::arithmetic::power2::{pow2, lemma2_to64_rest, lemma_pow2_strictly_increases};
use vstd::arithmetic::div_mod::{lemma_small_mod, lemma_basic_div};
use vstd::bits::lemma_u64_shr_is_div;
use crate::field::Field;

verus! {

/// The modulus `2^64 - 2^32 + 1`.
pub const GOLDILOCKS_MODULUS: u64 = 0xFFFF_FFFF_0000_0001;

/// An element of the 64-bit field, held as its least non-negative residue.
#[derive(Clone, Copy, Debug)]
pub struct Goldilocks {
    residue: u64,
}

impl Goldilocks {
    #[verifier::type_invariant]
    spec fn canonical(self) -> bool {
        self.residue < GOLDILOCKS_MODULUS
    }

    /// The element that stands for `x` reduced modulo the modulus.
    pub fn new(x: u64) -> (r: Self)
        ensures
            r.value() == (x as nat) % (GOLDILOCKS_MODULUS as nat),
    {
        let r = Goldilocks { residue: x % GOLDILOCKS_MODULUS };
        proof {
            lemma_small_mod(r.residue as nat, GOLDILOCKS_MODULUS as nat);
        }
        r
    }

    /// The least non-negative residue of this element.
    pub fn to_u64(&self) -> (x: u64)
        ensures
            x == self.value(),
    {
        proof {
            use_type_invariant(self);
            lemma_small_mod(self.residue as nat, GOLDILOCKS_MODULUS as nat);
        }
        self.residue
    }
}

impl Field for Goldilocks {
    open spec fn modulus() -> nat {
        GOLDILOCKS_MODULUS as nat
    }

    closed spec fn value(&self) -> nat {
        (self.residue as nat) % (GOLDILOCKS_MODULUS as nat)
    }

    proof fn lemma_residue(&self) {
    }

    fn zero() -> (r: Self) {
        Goldilocks { residue: 0 }
    }

    fn one() -> (r: Self) {
        Goldilocks { residue: 1 }
    }

    fn from_u64(x: u64) -> (r: Self) {
        Goldilocks::new(x)
    }

    fn add(&self, rhs: &Self) -> (r: Self) {
        let a = self.to_u64();
        let b = rhs.to_u64();
        let wide: u128 = (a as u128 + b as u128) % (GOLDILOCKS_MODULUS as u128);
        let r = Goldilocks { residue: wide as u64 };
        proof {
            lemma_small_mod(r.residue as nat, GOLDILOCKS_MODULUS as nat);
        }
        r
    }

    fn mul(&self, rhs: &Self) -> (r: Self) {
        let a = self.to_u64();
        let b = rhs.to_u64();
        assert(a * b <= 0xFFFF_FFFF_FFFF_FFFF * 0xFFFF_FFFF_FFFF_FFFF) by (nonlinear_arith)
            requires
                a <= 0xFFFF_FFFF_FFFF_FFFF,
                b <= 0xFFFF_FFFF_FFFF_FFFF,
        ;
        let wide: u128 = (a as u128 * b as u128) % (GOLDILOCKS_MODULUS as u128);
        let r = Goldilocks { residue: wide as u64 };
        proof {
            lemma_small_mod(r.residue as nat, GOLDILOCKS_MODULUS as nat);
        }
        r
    }

    fn neg(&self) -> (r: Self) {
        let a = self.to_u64();
        let r = Goldilocks { residue: (GOLDILOCKS_MODULUS - a) % GOLDILOCKS_MODULUS };
        proof {
            lemma_small_mod(a as nat, GOLDILOCKS_MODULUS as nat);
            lemma_small_mod(r.residue as nat, GOLDILOCKS_MODULUS as nat);
        }
        r
    }

    fn is_equal(&self, rhs: &Self) -> (b: bool) {
        self.to_u64() == rhs.to_u64()
    }

    fn bit(&self, i: usize) -> (b: bool) {
        let a = self.to_u64();
        if i < 64 {
            let shifted = a >> (i as u64);
            proof {
                lemma_u64_shr_is_div(a, i as u64);
                assert((shifted & 1 == 1) == (shifted % 2 == 1)) by (bit_vector);
            }
            shifted & 1 == 1
        } else {
            proof {
                lemma2_to64_rest();
                if i > 64 {
                    lemma_pow2_strictly_increases(64, i as nat);
                }
                lemma_basic_div(a as int, pow2(i as nat) as int);
            }
            false
        }
    }
}

} // verus!

//! Little-endian byte strings as natural numbers.

use vstd::prelude::*;
use vstd::arithmetic::div_mod::{
    lemma_basic_div, lemma_div_denominator, lemma_fundamental_div_mod_converse,
    lemma_hoist_over_denominator,
};
use vstd::arithmetic::power2::{lemma2_to64, lemma_pow2_adds, lemma_pow2_pos, pow2};
use vstd::bits::lemma_u8_shr_is_div;
use crate::field::bit_of;

verus! {

/// The number that a byte string spells, least significant byte first.
pub open spec fn le_value(bytes: Seq<u8>) -> nat
    decreases bytes.len(),
{
    if bytes.len() == 0 {
        0
    } else {
        bytes[0] as nat + 256 * le_value(bytes.skip(1))
    }
}

/// The first byte is the number modulo 256, the rest the number divided by 256.
pub proof fn lemma_le_value_split(bytes: Seq<u8>)
    requires
        bytes.len() > 0,
    ensures
        le_value(bytes) % 256 == bytes[0] as nat,
        le_value(bytes) / 256 == le_value(bytes.skip(1)),
{
    let rest = le_value(bytes.skip(1)) as int;
    lemma_fundamental_div_mod_converse(le_value(bytes) as int, 256, rest, bytes[0] as int);
}

/// Byte strings of one length that spell the same number are equal.
pub proof fn lemma_le_value_injective(a: Seq<u8>, b: Seq<u8>)
    requires
        a.len() == b.len(),
        le_value(a) == le_value(b),
    ensures
        a == b,
    decreases a.len(),
{
    if a.len() == 0 {
        assert(a =~= b);
    } else {
        lemma_le_value_split(a);
        lemma_le_value_split(b);
        lemma_le_value_injective(a.skip(1), b.skip(1));
        assert forall|i: int| 0 <= i < a.len() implies a[i] == b[i] by {
            if i > 0 {
                assert(a.skip(1)[i - 1] == a[i]);
                assert(b.skip(1)[i - 1] == b[i]);
            }
        }
        assert(a =~= b);
    }
}

/// Bit `i` of the number is bit `i % 8` of byte `i / 8`, and zero past the
/// last byte.
pub proof fn lemma_le_value_bit(bytes: Seq<u8>, i: nat)
    ensures
        bit_of(le_value(bytes), i) == (i / 8 < bytes.len() && bit_of(
            bytes[(i / 8) as int] as nat,
            i % 8,
        )),
    decreases bytes.len(),
{
    let v = le_value(bytes) as int;
    lemma_pow2_pos(i);
    if bytes.len() == 0 {
        lemma_basic_div(0, pow2(i) as int);
    } else {
        let b0 = bytes[0] as int;
        let rest = le_value(bytes.skip(1)) as int;
        lemma2_to64();
        if i < 8 {
            // v = b0 + 2^i * (2^(8 - i) * rest), and the second factor is even.
            let hi = (8 - i) as nat;
            lemma_pow2_adds(i, hi);
            lemma_pow2_adds(1, (hi - 1) as nat);
            let half = pow2((hi - 1) as nat) as int;
            let m = pow2(hi) * rest;
            assert(m == 2 * (half * rest)) by (nonlinear_arith)
                requires
                    m == pow2(hi) * rest,
                    pow2(hi) == 2 * half,
            ;
            assert(v == b0 + m * pow2(i)) by (nonlinear_arith)
                requires
                    v == b0 + 256 * rest,
                    m == pow2(hi) * rest,
                    pow2(i) * pow2(hi) == 256,
            ;
            lemma_hoist_over_denominator(b0, m, pow2(i));
            assert(v / (pow2(i) as int) == b0 / (pow2(i) as int) + m);
        } else {
            let j = (i - 8) as nat;
            lemma_pow2_adds(8, j);
            lemma_pow2_pos(j);
            lemma_le_value_split(bytes);
            lemma_div_denominator(v, 256, pow2(j) as int);
            assert(v / (pow2(i) as int) == rest / (pow2(j) as int));
            lemma_le_value_bit(bytes.skip(1), j);
            if j / 8 < bytes.skip(1).len() {
                assert(bytes.skip(1)[(j / 8) as int] == bytes[(i / 8) as int]);
            }
        }
    }
}

/// Bit `j` of a byte.
pub fn byte_bit(b: u8, j: u8) -> (r: bool)
    requires
        j < 8,
    ensures
        r == bit_of(b as nat, j as nat),
{
    let shifted = b >> j;
    proof {
        lemma_u8_shr_is_div(b, j);
        assert((shifted & 1 == 1) == (shifted % 2 == 1)) by (bit_vector);
    }
    shifted & 1 == 1
}

/// Whether two encodings of 32 bytes spell the same number.
pub fn le_bytes_equal(x: &[u8; 32], y: &[u8; 32]) -> (b: bool)
    ensures
        b == (le_value(x@) == le_value(y@)),
{
    let mut i: usize = 0;
    while i < 32
        invariant
            i <= 32,
            forall|j: int| 0 <= j < i ==> x@[j] == y@[j],
        decreases 32 - i,
    {
        if x[i] != y[i] {
            proof {
                if le_value(x@) == le_value(y@) {
                    lemma_le_value_injective(x@, y@);
                    assert(x@[i as int] == y@[i as int]);
                }
            }
            return false;
        }
        i += 1;
    }
    assert(x@ =~= y@);
    true
}

/// Bit `i` of the number that an encoding of 32 bytes spells.
pub fn le_bytes_bit(x: &[u8; 32], i: usize) -> (b: bool)
    ensures
        b == bit_of(le_value(x@), i as nat),
{
    proof {
        lemma_le_value_bit(x@, i as nat);
    }
    if i / 8 < 32 {
        byte_bit(x[i / 8], (i % 8) as u8)
    } else {
        false
    }
}

} // verus!

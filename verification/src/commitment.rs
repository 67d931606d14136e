//! The field-packed commitment to a digest: what a verifier is handed where
//! the digest itself stays a witness.

use vstd::prelude::*;
use vstd::arithmetic::power2::{
    lemma2_to64, lemma2_to64_rest, lemma_pow2_adds, lemma_pow2_strictly_increases, pow2,
};
use crate::bytes::le_value;
use crate::field::{add_mod, mul_mod, Field};

verus! {

/// The number of chunks of eight bytes that `len` bytes fill, the last one
/// maybe in part.
pub open spec fn chunk_count(len: nat) -> nat {
    (len + 7) / 8
}

/// Where chunk `i` of a string of `len` bytes ends.
pub open spec fn chunk_end(len: nat, i: int) -> int {
    if 8 * i + 8 <= len {
        8 * i + 8
    } else {
        len as int
    }
}

/// The number that chunk `i` spells, least significant byte first.
pub open spec fn chunk_value(hash: Seq<u8>, i: int) -> nat {
    le_value(hash.subrange(8 * i, chunk_end(hash.len(), i)))
}

/// The residue that chunk `i` contributes: the chunk itself for the first
/// chunk, and the chunk times `2^63` times two for every later one.
pub open spec fn weighted_chunk(hash: Seq<u8>, i: int, p: nat) -> nat {
    let c = chunk_value(hash, i) % p;
    if i > 0 {
        mul_mod(mul_mod(c, pow2(63) % p, p), 2nat % p, p)
    } else {
        c
    }
}

/// The field sum of the contributions of the first `chunks` chunks.
pub open spec fn packed_digest(hash: Seq<u8>, chunks: nat, p: nat) -> nat
    decreases chunks,
{
    if chunks == 0 {
        0
    } else {
        add_mod(
            packed_digest(hash, (chunks - 1) as nat, p),
            weighted_chunk(hash, chunks - 1, p),
            p,
        )
    }
}

/// A string of `n` bytes spells a number below `2^(8n)`.
pub proof fn lemma_le_value_bound(bytes: Seq<u8>)
    ensures
        le_value(bytes) < pow2(8 * bytes.len()),
    decreases bytes.len(),
{
    lemma2_to64();
    if bytes.len() > 0 {
        lemma_le_value_bound(bytes.skip(1));
        lemma_pow2_adds(8, 8 * bytes.skip(1).len());
        let rest = le_value(bytes.skip(1));
        let bound = pow2(8 * bytes.skip(1).len());
        assert(bytes[0] + 256 * rest < 256 * bound) by (nonlinear_arith)
            requires
                bytes[0] < 256,
                rest < bound,
        ;
    }
}

/// The number that the bytes `start .. end` spell, least significant byte
/// first.
pub fn le_u64(bytes: &[u8], start: usize, end: usize) -> (r: u64)
    requires
        start <= end <= bytes@.len(),
        end - start <= 8,
    ensures
        r == le_value(bytes@.subrange(start as int, end as int)),
{
    let mut acc: u64 = 0;
    let mut k: usize = end;
    assert(bytes@.subrange(end as int, end as int) =~= Seq::<u8>::empty());
    while k > start
        invariant
            start <= k <= end,
            end <= bytes@.len(),
            end - start <= 8,
            acc == le_value(bytes@.subrange(k as int, end as int)),
        decreases k - start,
    {
        k -= 1;
        proof {
            let tail = bytes@.subrange(k as int + 1, end as int);
            let next = bytes@.subrange(k as int, end as int);
            assert(next.skip(1) =~= tail);
            assert(next[0] == bytes@[k as int]);
            lemma_le_value_bound(tail);
            lemma_le_value_bound(next);
            lemma2_to64();
            lemma2_to64_rest();
            if 8 * next.len() < 64 {
                lemma_pow2_strictly_increases(8 * next.len(), 64);
            }
        }
        acc = acc * 256 + bytes[k] as u64;
    }
    acc
}

/// Packs a digest into one field element, chunk by chunk of eight bytes.
pub fn pack_digest<F: Field>(hash: &[u8]) -> (r: F)
    requires
        hash@.len() + 8 <= usize::MAX,
    ensures
        r.value() == packed_digest(hash@, chunk_count(hash@.len()), F::modulus()),
{
    let len = hash.len();
    let chunks = (len + 7) / 8;
    let mut acc = F::zero();
    let mut i: usize = 0;
    while i < chunks
        invariant
            i <= chunks,
            len == hash@.len(),
            len + 8 <= usize::MAX,
            chunks == chunk_count(len as nat),
            acc.value() == packed_digest(hash@, i as nat, F::modulus()),
        decreases chunks - i,
    {
        let start = 8 * i;
        let end = if start + 8 <= len {
            start + 8
        } else {
            len
        };
        let chunk = F::from_u64(le_u64(hash, start, end));
        let weighted = if i > 0 {
            proof {
                lemma2_to64_rest();
                assert(1u64 << 63 == 0x8000_0000_0000_0000u64) by (bit_vector);
            }
            chunk.mul(&F::from_u64(1u64 << 63)).mul(&F::from_u64(2))
        } else {
            chunk
        };
        acc = acc.add(&weighted);
        i += 1;
    }
    acc
}

} // verus!

//! SHA-256 as the hash-preimage circuits need it: the digest itself, which
//! the `sha2` crate computes, and the message padding, block words and bit
//! strings that are laid out around it.

use vstd::prelude::*;
use vstd::arithmetic::power2::pow2;
use vstd::bits::lemma_u64_shr_is_div;
use sha2::Digest;
use crate::bytes::byte_bit;
use crate::field::bit_of;

verus! {

/// The SHA-256 digest of a message, as the `sha2` crate computes it.
pub uninterp spec fn sha256_of(msg: Seq<u8>) -> Seq<u8>;

/// Hashes a message.
///
/// The body calls `sha2::Sha256::digest` (the one-shot form of
/// `digest::Digest`) and turns the fixed-size output into an array. The
/// contract claims only that the 32 bytes are a function of the message.
#[verifier::external_body]
fn sha2_digest(msg: &[u8]) -> (d: [u8; 32])
    ensures
        d@ == sha256_of(msg@),
{
    sha2::Sha256::digest(msg).into()
}

/// The SHA-256 digest of `msg`: 32 bytes.
pub fn sha256(msg: &[u8]) -> (d: [u8; 32])
    ensures
        d@ == sha256_of(msg@),
        sha256_of(msg@).len() == 32,
{
    sha2_digest(msg)
}

/// How many zero bytes the padding puts between the marker byte and the
/// length field of a message of `len` bytes.
pub open spec fn pad_zero_count(len: nat) -> nat {
    ((64 - (len + 9) % 64) % 64) as nat
}

/// Byte `i` of the big-endian encoding of the 64-bit number `x`.
pub open spec fn be_byte64(x: nat, i: int) -> u8 {
    ((x / pow2((8 * (7 - i)) as nat)) % 256) as u8
}

/// The big-endian encoding of the 64-bit number `x`.
pub open spec fn be_bytes64(x: nat) -> Seq<u8> {
    Seq::new(8, |i: int| be_byte64(x, i))
}

/// A run of `n` zero bytes.
pub open spec fn zero_bytes(n: nat) -> Seq<u8> {
    Seq::new(n, |i: int| 0u8)
}

/// A message with the SHA-256 padding: the marker byte `0x80`, zero bytes up
/// to eight short of a multiple of 64, and the bit length in eight bytes,
/// most significant first.
pub open spec fn sha256_padded(msg: Seq<u8>) -> Seq<u8> {
    msg + seq![0x80u8] + zero_bytes(pad_zero_count(msg.len())) + be_bytes64(8 * msg.len())
}

/// The padded message fills whole blocks of 64 bytes.
pub proof fn lemma_padded_length(msg: Seq<u8>)
    ensures
        sha256_padded(msg).len() == msg.len() + 9 + pad_zero_count(msg.len()),
        sha256_padded(msg).len() % 64 == 0,
{
}

/// Pads a message for SHA-256.
pub fn sha256_pad(msg: &[u8]) -> (out: Vec<u8>)
    requires
        msg@.len() < 0x2000_0000_0000_0000,
        msg@.len() + 72 <= usize::MAX,
    ensures
        out@ == sha256_padded(msg@),
{
    let len = msg.len();
    let bit_len: u64 = (len as u64) * 8;
    let mut out: Vec<u8> = Vec::new();
    let mut i: usize = 0;
    while i < len
        invariant
            i <= len,
            len == msg@.len(),
            out@ == msg@.take(i as int),
        decreases len - i,
    {
        out.push(msg[i]);
        assert(msg@.take(i as int + 1) =~= msg@.take(i as int).push(msg@[i as int]));
        i += 1;
    }
    assert(msg@.take(len as int) =~= msg@);
    out.push(0x80);
    let zeros = (64 - (len + 9) % 64) % 64;
    let mut k: usize = 0;
    while k < zeros
        invariant
            k <= zeros,
            out@ == msg@ + seq![0x80u8] + zero_bytes(k as nat),
        decreases zeros - k,
    {
        out.push(0);
        assert(zero_bytes(k as nat + 1) =~= zero_bytes(k as nat).push(0u8));
        assert(out@ =~= msg@ + seq![0x80u8] + zero_bytes(k as nat + 1));
        k += 1;
    }
    let mut j: usize = 0;
    let ghost head = out@;
    while j < 8
        invariant
            j <= 8,
            bit_len == 8 * msg@.len(),
            out@ == head + be_bytes64(bit_len as nat).take(j as int),
        decreases 8 - j,
    {
        let shift: u64 = 8 * (7 - j as u64);
        let byte = ((bit_len >> shift) & 0xff) as u8;
        proof {
            lemma_u64_shr_is_div(bit_len, shift);
            let s = bit_len >> shift;
            assert(s & 0xff == s % 256) by (bit_vector);
            assert(byte == be_byte64(bit_len as nat, j as int));
            let all = be_bytes64(bit_len as nat);
            assert(all.take(j as int + 1) =~= all.take(j as int).push(all[j as int]));
        }
        out.push(byte);
        j += 1;
    }
    assert(be_bytes64(bit_len as nat).take(8) =~= be_bytes64(bit_len as nat));
    out
}

/// Byte `i` of `s`, or zero past its end.
pub open spec fn byte_or_zero(s: Seq<u8>, i: int) -> u8 {
    if 0 <= i < s.len() {
        s[i]
    } else {
        0
    }
}

/// The 32-bit word that bytes `4i .. 4i + 4` of `s` spell, most significant
/// byte first, with zeros for bytes past the end.
pub open spec fn be_word(s: Seq<u8>, i: int) -> u32 {
    (byte_or_zero(s, 4 * i) * 0x100_0000 + byte_or_zero(s, 4 * i + 1) * 0x1_0000 + byte_or_zero(
        s,
        4 * i + 2,
    ) * 0x100 + byte_or_zero(s, 4 * i + 3)) as u32
}

/// The big-endian 32-bit words of a byte string, the last one filled up
/// with zeros.
pub open spec fn block_words_of(s: Seq<u8>) -> Seq<u32> {
    Seq::new(((s.len() + 3) / 4) as nat, |i: int| be_word(s, i))
}

/// The first sixteen words of `words`, with zeros where there are fewer.
pub open spec fn first_block_of(words: Seq<u32>) -> Seq<u32> {
    Seq::new(
        16,
        |i: int|
            if i < words.len() {
                words[i]
            } else {
                0u32
            },
    )
}

fn byte_at_or_zero(bytes: &[u8], i: usize) -> (b: u8)
    ensures
        b == byte_or_zero(bytes@, i as int),
{
    if i < bytes.len() {
        bytes[i]
    } else {
        0
    }
}

/// Splits a byte string into big-endian 32-bit words.
pub fn block_words(bytes: &[u8]) -> (words: Vec<u32>)
    requires
        bytes@.len() + 7 <= usize::MAX,
    ensures
        words@ == block_words_of(bytes@),
{
    let n = (bytes.len() + 3) / 4;
    let mut words: Vec<u32> = Vec::new();
    let mut i: usize = 0;
    while i < n
        invariant
            i <= n,
            n == (bytes@.len() + 3) / 4,
            bytes@.len() + 7 <= usize::MAX,
            words@ == block_words_of(bytes@).take(i as int),
        decreases n - i,
    {
        let b0 = byte_at_or_zero(bytes, 4 * i) as u32;
        let b1 = byte_at_or_zero(bytes, 4 * i + 1) as u32;
        let b2 = byte_at_or_zero(bytes, 4 * i + 2) as u32;
        let b3 = byte_at_or_zero(bytes, 4 * i + 3) as u32;
        let word: u32 = b0 * 0x100_0000 + b1 * 0x1_0000 + b2 * 0x100 + b3;
        proof {
            let all = block_words_of(bytes@);
            assert(all.take(i as int + 1) =~= all.take(i as int).push(all[i as int]));
        }
        words.push(word);
        i += 1;
    }
    assert(block_words_of(bytes@).take(n as int) =~= block_words_of(bytes@));
    words
}

/// The first block of sixteen words that the compression function takes.
pub fn first_block(words: &Vec<u32>) -> (block: [u32; 16])
    ensures
        block@ == first_block_of(words@),
{
    let mut block = [0u32; 16];
    let mut i: usize = 0;
    while i < 16
        invariant
            i <= 16,
            forall|j: int| 0 <= j < i ==> block@[j] == first_block_of(words@)[j],
            forall|j: int| i <= j < 16 ==> block@[j] == 0u32,
        decreases 16 - i,
    {
        if i < words.len() {
            block[i] = words[i];
        }
        i += 1;
    }
    assert(block@ =~= first_block_of(words@));
    block
}

/// Bit `k` of a byte string, where each byte's most significant bit comes
/// first.
pub open spec fn be_bit(bytes: Seq<u8>, k: int) -> bool {
    bit_of(bytes[k / 8] as nat, (7 - k % 8) as nat)
}

/// The bits of a byte string, each byte's most significant bit first.
pub open spec fn bits_of(bytes: Seq<u8>) -> Seq<bool> {
    Seq::new(8 * bytes.len(), |k: int| be_bit(bytes, k))
}

/// Turns a byte string into its bits, each byte's most significant bit
/// first.
pub fn array_to_bits(bytes: &[u8]) -> (bits: Vec<bool>)
    requires
        8 * bytes@.len() <= usize::MAX,
    ensures
        bits@ == bits_of(bytes@),
{
    let n = bytes.len();
    let mut bits: Vec<bool> = Vec::new();
    let mut i: usize = 0;
    assert(bits_of(bytes@).take(0) =~= Seq::<bool>::empty());
    while i < n
        invariant
            i <= n,
            n == bytes@.len(),
            8 * n <= usize::MAX,
            bits@ == bits_of(bytes@).take(8 * i as int),
        decreases n - i,
    {
        let byte = bytes[i];
        let mut j: u8 = 0;
        while j < 8
            invariant
                j <= 8,
                i < n,
                n == bytes@.len(),
                8 * n <= usize::MAX,
                byte == bytes@[i as int],
                bits@ == bits_of(bytes@).take(8 * i as int + j as int),
            decreases 8 - j,
        {
            let bit = byte_bit(byte, 7 - j);
            proof {
                let all = bits_of(bytes@);
                let k = 8 * i as int + j as int;
                assert(k / 8 == i as int && k % 8 == j as int);
                assert(all[k] == bit);
                assert(all.take(k + 1) =~= all.take(k).push(all[k]));
            }
            bits.push(bit);
            j += 1;
        }
        i += 1;
    }
    assert(bits_of(bytes@).take(8 * n as int) =~= bits_of(bytes@));
    bits
}

/// The number of 512-bit blocks that a message of `len` bytes fills once it
/// is padded.
pub fn sha256_block_count(len: usize) -> (n: usize)
    requires
        8 * len + 576 <= usize::MAX,
    ensures
        n == (8 * len + 65 + 511) / 512,
{
    (len * 8 + 65 + 511) / 512
}

} // verus!

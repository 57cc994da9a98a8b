//! Token keys: the length-tagged `BitmapHash` and the field/kind byte.
//!
//! A token of at most eight bytes is kept literally in the key, so that short
//! tokens match exactly; a longer token is replaced by an eight-byte digest
//! and tagged with the sentinel length `9`. Either way the key material is an
//! eight-byte word plus a length, which lets a range scan reconstruct the
//! hash from key bytes alone.

use vstd::prelude::*;

verus! {

/// Tokens longer than this are dropped by the tokenizers before they reach
/// the postings map.
pub const MAX_TOKEN_LENGTH: usize = 127;

/// Length tag meaning "the eight bytes are a digest of a long token".
pub const HASHED_TOKEN_LEN: u8 = 9;

/// Offset basis of the 64-bit FNV-1a digest.
pub const FNV_OFFSET: u64 = 0xcbf2_9ce4_8422_2325;

/// Prime of the 64-bit FNV-1a digest.
pub const FNV_PRIME: u64 = 0x0000_0100_0000_01b3;

/// One FNV-1a step: fold a byte into the running digest.
pub open spec fn spec_fnv1a_step(h: u64, b: u8) -> u64 {
    vstd::wrapping::u64_specs::wrapping_mul(h ^ (b as u64), FNV_PRIME)
}

/// FNV-1a digest of the first `n` bytes of `bytes`.
pub open spec fn spec_fnv1a_prefix(bytes: Seq<u8>, n: int) -> u64
    decreases n,
{
    if n <= 0 {
        FNV_OFFSET
    } else {
        spec_fnv1a_step(spec_fnv1a_prefix(bytes, n - 1), bytes[n - 1])
    }
}

/// FNV-1a digest of a byte sequence.
pub open spec fn spec_fnv1a(bytes: Seq<u8>) -> u64 {
    spec_fnv1a_prefix(bytes, bytes.len() as int)
}

/// 64-bit FNV-1a over `bytes`: the digest that stands in for tokens longer
/// than eight bytes.
pub fn fnv1a(bytes: &[u8]) -> (r: u64)
    ensures
        r == spec_fnv1a(bytes@),
{
    let mut h: u64 = FNV_OFFSET;
    let mut i: usize = 0;
    while i < bytes.len()
        invariant
            i <= bytes@.len(),
            h == spec_fnv1a_prefix(bytes@, i as int),
        decreases bytes@.len() - i,
    {
        h = (h ^ (bytes[i] as u64)).wrapping_mul(FNV_PRIME);
        i = i + 1;
    }
    h
}

/// Big-endian packing of eight bytes into one word.
pub open spec fn spec_pack64(b0: u8, b1: u8, b2: u8, b3: u8, b4: u8, b5: u8, b6: u8, b7: u8) -> u64 {
    ((b0 as u64) << 56) | ((b1 as u64) << 48) | ((b2 as u64) << 40) | ((b3 as u64) << 32) | ((
    b4 as u64) << 24) | ((b5 as u64) << 16) | ((b6 as u64) << 8) | (b7 as u64)
}

/// Byte `j` (big-endian, `0 <= j < 8`) of the word `h`.
pub open spec fn spec_byte64(h: u64, j: int) -> u8 {
    (h >> ((56 - 8 * j) as u64)) as u8
}

/// Packing eight bytes and reading a byte back returns that byte.
pub proof fn lemma_pack64_bytes(b0: u8, b1: u8, b2: u8, b3: u8, b4: u8, b5: u8, b6: u8, b7: u8)
    ensures
        spec_byte64(spec_pack64(b0, b1, b2, b3, b4, b5, b6, b7), 0) == b0,
        spec_byte64(spec_pack64(b0, b1, b2, b3, b4, b5, b6, b7), 1) == b1,
        spec_byte64(spec_pack64(b0, b1, b2, b3, b4, b5, b6, b7), 2) == b2,
        spec_byte64(spec_pack64(b0, b1, b2, b3, b4, b5, b6, b7), 3) == b3,
        spec_byte64(spec_pack64(b0, b1, b2, b3, b4, b5, b6, b7), 4) == b4,
        spec_byte64(spec_pack64(b0, b1, b2, b3, b4, b5, b6, b7), 5) == b5,
        spec_byte64(spec_pack64(b0, b1, b2, b3, b4, b5, b6, b7), 6) == b6,
        spec_byte64(spec_pack64(b0, b1, b2, b3, b4, b5, b6, b7), 7) == b7,
{
    let h = spec_pack64(b0, b1, b2, b3, b4, b5, b6, b7);
    assert((((b0 as u64) << 56 | (b1 as u64) << 48 | (b2 as u64) << 40 | (b3 as u64) << 32 | (
    b4 as u64) << 24 | (b5 as u64) << 16 | (b6 as u64) << 8 | (b7 as u64)) >> 56) as u8 == b0)
        by (bit_vector);
    assert((((b0 as u64) << 56 | (b1 as u64) << 48 | (b2 as u64) << 40 | (b3 as u64) << 32 | (
    b4 as u64) << 24 | (b5 as u64) << 16 | (b6 as u64) << 8 | (b7 as u64)) >> 48) as u8 == b1)
        by (bit_vector);
    assert((((b0 as u64) << 56 | (b1 as u64) << 48 | (b2 as u64) << 40 | (b3 as u64) << 32 | (
    b4 as u64) << 24 | (b5 as u64) << 16 | (b6 as u64) << 8 | (b7 as u64)) >> 40) as u8 == b2)
        by (bit_vector);
    assert((((b0 as u64) << 56 | (b1 as u64) << 48 | (b2 as u64) << 40 | (b3 as u64) << 32 | (
    b4 as u64) << 24 | (b5 as u64) << 16 | (b6 as u64) << 8 | (b7 as u64)) >> 32) as u8 == b3)
        by (bit_vector);
    assert((((b0 as u64) << 56 | (b1 as u64) << 48 | (b2 as u64) << 40 | (b3 as u64) << 32 | (
    b4 as u64) << 24 | (b5 as u64) << 16 | (b6 as u64) << 8 | (b7 as u64)) >> 24) as u8 == b4)
        by (bit_vector);
    assert((((b0 as u64) << 56 | (b1 as u64) << 48 | (b2 as u64) << 40 | (b3 as u64) << 32 | (
    b4 as u64) << 24 | (b5 as u64) << 16 | (b6 as u64) << 8 | (b7 as u64)) >> 16) as u8 == b5)
        by (bit_vector);
    assert((((b0 as u64) << 56 | (b1 as u64) << 48 | (b2 as u64) << 40 | (b3 as u64) << 32 | (
    b4 as u64) << 24 | (b5 as u64) << 16 | (b6 as u64) << 8 | (b7 as u64)) >> 8) as u8 == b6)
        by (bit_vector);
    assert((((b0 as u64) << 56 | (b1 as u64) << 48 | (b2 as u64) << 40 | (b3 as u64) << 32 | (
    b4 as u64) << 24 | (b5 as u64) << 16 | (b6 as u64) << 8 | (b7 as u64)) & 0xff) as u8 == b7)
        by (bit_vector);
    assert(h as u8 == (h & 0xff) as u8) by (bit_vector);
    assert(h >> 0 == h) by (bit_vector);
}

/// The bytes of `h`, most significant first.
pub open spec fn spec_word_bytes(h: u64) -> Seq<u8> {
    Seq::new(8, |j: int| spec_byte64(h, j))
}

/// The token key: up to eight literal bytes for a short token, or an
/// eight-byte digest tagged with length `9` for a long one.
#[derive(Debug, Clone, Copy, PartialEq, Eq, Hash, Structural)]
pub struct BitmapHash {
    /// The key material, big-endian; a literal token occupies the leading
    /// `len` bytes and the rest are zero.
    pub hash: u64,
    /// Number of literal bytes, `1..=8`, or `9` for a digest.
    pub len: u8,
}

impl BitmapHash {
    /// A hash is well formed when its length tag is in range and, for a
    /// literal token, the unused trailing bytes are zero.
    pub open spec fn wf(self) -> bool {
        &&& 1 <= self.len <= 9
        &&& self.len <= 8 ==> forall|j: int|
            self.len <= j < 8 ==> spec_byte64(self.hash, j) == 0
    }

    /// The hash that `new` assigns to a token.
    pub open spec fn spec_of(token: Seq<u8>) -> BitmapHash {
        if token.len() <= 8 {
            BitmapHash {
                hash: spec_pack64(
                    if token.len() > 0 { token[0] } else { 0 },
                    if token.len() > 1 { token[1] } else { 0 },
                    if token.len() > 2 { token[2] } else { 0 },
                    if token.len() > 3 { token[3] } else { 0 },
                    if token.len() > 4 { token[4] } else { 0 },
                    if token.len() > 5 { token[5] } else { 0 },
                    if token.len() > 6 { token[6] } else { 0 },
                    if token.len() > 7 { token[7] } else { 0 },
                ),
                len: token.len() as u8,
            }
        } else {
            BitmapHash { hash: spec_fnv1a(token), len: HASHED_TOKEN_LEN }
        }
    }

    /// Builds the key for `token`: literal bytes when the token is short,
    /// a digest otherwise.
    pub fn new(token: &[u8]) -> (r: BitmapHash)
        requires
            token@.len() >= 1,
        ensures
            r == BitmapHash::spec_of(token@),
            r.wf(),
    {
        if token.len() <= 8 {
            let n = token.len();
            let b0 = token[0];
            let b1 = if n > 1 { token[1] } else { 0 };
            let b2 = if n > 2 { token[2] } else { 0 };
            let b3 = if n > 3 { token[3] } else { 0 };
            let b4 = if n > 4 { token[4] } else { 0 };
            let b5 = if n > 5 { token[5] } else { 0 };
            let b6 = if n > 6 { token[6] } else { 0 };
            let b7 = if n > 7 { token[7] } else { 0 };
            let hash = ((b0 as u64) << 56u64) | ((b1 as u64) << 48u64) | ((b2 as u64) << 40u64) | ((
            b3 as u64) << 32u64) | ((b4 as u64) << 24u64) | ((b5 as u64) << 16u64) | ((b6 as u64)
                << 8u64) | (b7 as u64);
            let r = BitmapHash { hash, len: n as u8 };
            proof {
                lemma_pack64_bytes(b0, b1, b2, b3, b4, b5, b6, b7);
            }
            r
        } else {
            let r = BitmapHash { hash: fnv1a(token), len: HASHED_TOKEN_LEN };
            r
        }
    }

    /// Byte `j` of the key material.
    pub fn byte(&self, j: usize) -> (r: u8)
        requires
            j < 8,
        ensures
            r == spec_byte64(self.hash, j as int),
    {
        (self.hash >> (56 - 8 * (j as u64))) as u8
    }
}

/// A short token's hash keeps its bytes literally: byte `j` of the key
/// material is byte `j` of the token.
pub proof fn lemma_literal_hash_bytes(token: Seq<u8>)
    requires
        1 <= token.len() <= 8,
    ensures
        forall|j: int|
            0 <= j < 8 ==> spec_byte64(BitmapHash::spec_of(token).hash, j) == (if j < token.len() {
                token[j]
            } else {
                0
            }),
{
    let t = |j: int| if j < token.len() { token[j] } else { 0u8 };
    lemma_pack64_bytes(t(0), t(1), t(2), t(3), t(4), t(5), t(6), t(7));
}

/// The field/kind byte of a posting entry: the field identifier shifted left
/// once, with the low bit telling a stemmed form from a word form.
pub struct TokenType {}

impl TokenType {
    /// The byte recording a word-form occurrence in `field`.
    pub open spec fn spec_word(field: u8) -> u8 {
        field << 1
    }

    /// The byte recording a stemmed-form occurrence in `field`.
    pub open spec fn spec_stemmed(field: u8) -> u8 {
        (field << 1) | 1
    }

    /// Word-form byte for `field`.
    pub fn word(field: u8) -> (r: u8)
        ensures
            r == TokenType::spec_word(field),
    {
        field << 1u8
    }

    /// Stemmed-form byte for `field`.
    pub fn stemmed(field: u8) -> (r: u8)
        ensures
            r == TokenType::spec_stemmed(field),
    {
        (field << 1u8) | 1
    }
}

/// A word byte is even and a stemmed byte is odd, so the two kinds never
/// collide in the bitmap, whatever the fields.
pub proof fn lemma_token_type_disjoint(f1: u8, f2: u8)
    ensures
        TokenType::spec_word(f1) != TokenType::spec_stemmed(f2),
{
    assert(f1 << 1 != (f2 << 1) | 1) by (bit_vector);
}

} // verus!

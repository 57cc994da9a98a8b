//! The persistent key layout of the term index.
//!
//! A posting lives under
//! `[account:4 BE] [hash bytes] [len byte when the hash region is full]
//! [collection:1] [document:4 BE]`:
//! a literal token of `len <= 7` contributes exactly `len` hash bytes and no
//! length byte, while `len` of 8 (full literal) or 9 (digest) contributes all
//! eight bytes followed by the length byte. The removal scanner classifies a
//! key by `key.len() - 9` alone and rebuilds the hash from the key bytes.

use vstd::prelude::*;

use crate::hash::{spec_byte64, spec_pack64, spec_word_bytes, BitmapHash};

verus! {

/// Errors of the term-index store layer.
#[derive(Debug, Clone, Copy, PartialEq, Eq, Structural)]
pub enum Error {
    /// A scanned key's hash region has a length the layout cannot produce;
    /// the payload is that length.
    InvalidKeyLength(usize),
    /// The document's position counter would not fit the position encoding.
    DocumentTooLarge,
}

/// The four big-endian bytes of `v`.
pub open spec fn spec_be32(v: u32) -> Seq<u8> {
    seq![(v >> 24) as u8, (v >> 16) as u8, (v >> 8) as u8, v as u8]
}

/// The hash region of a key: literal bytes alone for a short token, all
/// eight bytes plus the length byte otherwise.
pub open spec fn spec_hash_region(h: BitmapHash) -> Seq<u8> {
    if h.len <= 7 {
        spec_word_bytes(h.hash).subrange(0, h.len as int)
    } else {
        spec_word_bytes(h.hash) + seq![h.len]
    }
}

/// The full key of one posting.
pub open spec fn spec_fts_key(account: u32, collection: u8, h: BitmapHash, doc: u32) -> Seq<u8> {
    spec_be32(account) + spec_hash_region(h) + seq![collection] + spec_be32(doc)
}

/// What the removal scanner reconstructs from a key: the document identifier
/// and the hash, or nothing when the length classification fails.
pub open spec fn spec_parse_fts_key(key: Seq<u8>) -> Option<(u32, BitmapHash)> {
    if key.len() < 10 {
        None
    } else {
        let l = key.len() - 9;
        let doc = spec_pack_be32(
            key[key.len() - 4],
            key[key.len() - 3],
            key[key.len() - 2],
            key[key.len() - 1],
        );
        if l == 9 {
            Some(
                (
                    doc,
                    BitmapHash {
                        hash: spec_pack64(
                            key[4],
                            key[5],
                            key[6],
                            key[7],
                            key[8],
                            key[9],
                            key[10],
                            key[11],
                        ),
                        len: key[key.len() - 6],
                    },
                ),
            )
        } else if 1 <= l <= 7 {
            Some(
                (
                    doc,
                    BitmapHash {
                        hash: spec_pack64(
                            key[4],
                            if l > 1 { key[5] } else { 0 },
                            if l > 2 { key[6] } else { 0 },
                            if l > 3 { key[7] } else { 0 },
                            if l > 4 { key[8] } else { 0 },
                            if l > 5 { key[9] } else { 0 },
                            if l > 6 { key[10] } else { 0 },
                            0,
                        ),
                        len: l as u8,
                    },
                ),
            )
        } else {
            None
        }
    }
}

/// The length classification the error message reports.
pub open spec fn spec_bad_len(key: Seq<u8>) -> usize {
    if key.len() < 9 {
        0
    } else {
        (key.len() - 9) as usize
    }
}

/// Big-endian packing of four bytes.
pub open spec fn spec_pack_be32(b0: u8, b1: u8, b2: u8, b3: u8) -> u32 {
    ((b0 as u32) << 24) | ((b1 as u32) << 16) | ((b2 as u32) << 8) | (b3 as u32)
}

/// Packing the four big-endian bytes of `v` gives back `v`.
pub proof fn lemma_be32_round_trip(v: u32)
    ensures
        spec_pack_be32((v >> 24) as u8, (v >> 16) as u8, (v >> 8) as u8, v as u8) == v,
{
    assert((((v >> 24) as u8 as u32) << 24) | (((v >> 16) as u8 as u32) << 16) | (((v >> 8) as u8
        as u32) << 8) | (v as u8 as u32) == v) by (bit_vector);
}

/// Packing the eight big-endian bytes of `h` gives back `h`.
pub proof fn lemma_pack64_of_bytes(h: u64)
    ensures
        spec_pack64(
            spec_byte64(h, 0),
            spec_byte64(h, 1),
            spec_byte64(h, 2),
            spec_byte64(h, 3),
            spec_byte64(h, 4),
            spec_byte64(h, 5),
            spec_byte64(h, 6),
            spec_byte64(h, 7),
        ) == h,
{
    assert((((h >> 56) as u8 as u64) << 56) | (((h >> 48) as u8 as u64) << 48) | (((h >> 40) as u8
        as u64) << 40) | (((h >> 32) as u8 as u64) << 32) | (((h >> 24) as u8 as u64) << 24) | (((h
        >> 16) as u8 as u64) << 16) | (((h >> 8) as u8 as u64) << 8) | ((h as u8) as u64) == h)
        by (bit_vector);
    assert(h >> 0 == h) by (bit_vector);
    assert((h >> 0) as u8 == h as u8);
}

/// Appends the four big-endian bytes of `v`.
fn push_be32(out: &mut Vec<u8>, v: u32)
    ensures
        final(out)@ == old(out)@ + spec_be32(v),
{
    out.push((v >> 24u32) as u8);
    out.push((v >> 16u32) as u8);
    out.push((v >> 8u32) as u8);
    out.push(v as u8);
    proof {
        assert(out@ =~= old(out)@ + spec_be32(v));
    }
}

/// Builds the key under which a posting for `h` in `doc` is stored.
pub fn serialize_fts_key(account: u32, collection: u8, h: &BitmapHash, doc: u32) -> (r: Vec<u8>)
    ensures
        r@ == spec_fts_key(account, collection, *h, doc),
{
    let mut out: Vec<u8> = Vec::new();
    push_be32(&mut out, account);
    if h.len <= 7 {
        let mut j: usize = 0;
        while j < h.len as usize
            invariant
                j <= h.len as usize,
                h.len <= 7,
                out@ == spec_be32(account) + spec_word_bytes(h.hash).subrange(0, j as int),
            decreases h.len as usize - j,
        {
            out.push(h.byte(j));
            proof {
                assert(spec_word_bytes(h.hash).subrange(0, j + 1) =~= spec_word_bytes(
                    h.hash,
                ).subrange(0, j as int) + seq![spec_byte64(h.hash, j as int)]);
            }
            j = j + 1;
        }
    } else {
        let mut j: usize = 0;
        while j < 8
            invariant
                j <= 8,
                out@ == spec_be32(account) + spec_word_bytes(h.hash).subrange(0, j as int),
            decreases 8 - j,
        {
            out.push(h.byte(j));
            proof {
                assert(spec_word_bytes(h.hash).subrange(0, j + 1) =~= spec_word_bytes(
                    h.hash,
                ).subrange(0, j as int) + seq![spec_byte64(h.hash, j as int)]);
            }
            j = j + 1;
        }
        proof {
            assert(spec_word_bytes(h.hash).subrange(0, 8) =~= spec_word_bytes(h.hash));
        }
        out.push(h.len);
    }
    out.push(collection);
    push_be32(&mut out, doc);
    proof {
        assert(out@ =~= spec_fts_key(account, collection, *h, doc));
    }
    out
}

/// Reconstructs document identifier and hash from a key, as the removal
/// scanner does.
pub fn parse_fts_key(key: &Vec<u8>) -> (r: Result<(u32, BitmapHash), Error>)
    ensures
        match r {
            Ok(p) => spec_parse_fts_key(key@) == Some(p),
            Err(e) => spec_parse_fts_key(key@) is None && e == Error::InvalidKeyLength(
                spec_bad_len(key@),
            ),
        },
{
    let n = key.len();
    if n < 10 {
        let l: usize = if n < 9 {
            0
        } else {
            n - 9
        };
        return Err(Error::InvalidKeyLength(l));
    }
    let doc = ((key[n - 4] as u32) << 24u32) | ((key[n - 3] as u32) << 16u32) | ((key[n - 2] as u32)
        << 8u32) | (key[n - 1] as u32);
    let l = n - 9;
    if l == 9 {
        let hash = ((key[4] as u64) << 56u64) | ((key[5] as u64) << 48u64) | ((key[6] as u64)
            << 40u64) | ((key[7] as u64) << 32u64) | ((key[8] as u64) << 24u64) | ((key[9] as u64)
            << 16u64) | ((key[10] as u64) << 8u64) | (key[11] as u64);
        Ok((doc, BitmapHash { hash, len: key[n - 6] }))
    } else if 1 <= l && l <= 7 {
        let b1 = if l > 1 { key[5] } else { 0 };
        let b2 = if l > 2 { key[6] } else { 0 };
        let b3 = if l > 3 { key[7] } else { 0 };
        let b4 = if l > 4 { key[8] } else { 0 };
        let b5 = if l > 5 { key[9] } else { 0 };
        let b6 = if l > 6 { key[10] } else { 0 };
        let hash = ((key[4] as u64) << 56u64) | ((b1 as u64) << 48u64) | ((b2 as u64) << 40u64) | ((
        b3 as u64) << 32u64) | ((b4 as u64) << 24u64) | ((b5 as u64) << 16u64) | ((b6 as u64)
            << 8u64);
        proof {
            assert(((key@[4] as u64) << 56u64) | ((b1 as u64) << 48u64) | ((b2 as u64) << 40u64)
                | ((b3 as u64) << 32u64) | ((b4 as u64) << 24u64) | ((b5 as u64) << 16u64) | ((
            b6 as u64) << 8u64) == ((key@[4] as u64) << 56u64) | ((b1 as u64) << 48u64) | ((
            b2 as u64) << 40u64) | ((b3 as u64) << 32u64) | ((b4 as u64) << 24u64) | ((b5 as u64)
                << 16u64) | ((b6 as u64) << 8u64) | (0u8 as u64)) by (bit_vector);
        }
        Ok((doc, BitmapHash { hash, len: l as u8 }))
    } else {
        Err(Error::InvalidKeyLength(l))
    }
}

/// Round trip through the scanner: parsing a key the layout built yields the
/// document and the hash the key was built from.
pub proof fn lemma_fts_key_round_trip(account: u32, collection: u8, h: BitmapHash, doc: u32)
    requires
        h.wf(),
    ensures
        spec_parse_fts_key(spec_fts_key(account, collection, h, doc)) == Some((doc, h)),
{
    let key = spec_fts_key(account, collection, h, doc);
    lemma_be32_round_trip(doc);
    lemma_pack64_of_bytes(h.hash);
    if h.len <= 7 {
        assert(key.len() == 9 + h.len);
        assert(key[key.len() - 4] == (doc >> 24) as u8);
        assert(key[key.len() - 3] == (doc >> 16) as u8);
        assert(key[key.len() - 2] == (doc >> 8) as u8);
        assert(key[key.len() - 1] == doc as u8);
        let l = key.len() - 9;
        assert forall|j: int| 0 <= j < l implies key[4 + j] == spec_byte64(h.hash, j) by {
            assert(spec_hash_region(h)[j] == spec_word_bytes(h.hash).subrange(0, h.len as int)[j]);
        }
        assert forall|j: int| l <= j < 8 implies spec_byte64(h.hash, j) == 0 by {}
        assert(spec_parse_fts_key(key) == Some((doc, h)));
    } else {
        assert(key.len() == 18);
        assert forall|j: int| 0 <= j < 8 implies key[4 + j] == spec_byte64(h.hash, j) by {
            assert(spec_hash_region(h)[j] == spec_word_bytes(h.hash)[j]);
        }
        assert(key[12] == h.len);
        assert(key[key.len() - 6] == h.len);
        assert(key[key.len() - 4] == (doc >> 24) as u8);
        assert(key[key.len() - 3] == (doc >> 16) as u8);
        assert(key[key.len() - 2] == (doc >> 8) as u8);
        assert(key[key.len() - 1] == doc as u8);
        assert(spec_parse_fts_key(key) == Some((doc, h)));
    }
}

} // verus!

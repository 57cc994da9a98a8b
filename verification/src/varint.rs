//! Variable-length integer encoding used by the postings container.
//!
//! A value is stored little-endian in groups of seven bits; every byte except
//! the last has its high bit set. This is the delta-compression primitive of
//! the position streams.

use vstd::prelude::*;

verus! {

/// The byte sequence that encodes `n`.
pub open spec fn spec_varint(n: nat) -> Seq<u8>
    decreases n,
{
    if n < 128 {
        seq![n as u8]
    } else {
        seq![(128 + n % 128) as u8] + spec_varint(n / 128)
    }
}

/// Decoding one value starting at index `i`: the value and the index of the
/// first byte after it, or `None` if the bytes end before the value does or
/// the value does not fit in 64 bits.
pub open spec fn spec_varint_decode(bytes: Seq<u8>, i: int) -> Option<(u64, int)>
    decreases bytes.len() - i,
{
    if i < 0 || i >= bytes.len() {
        None
    } else if bytes[i] < 128 {
        Some((bytes[i] as u64, i + 1))
    } else {
        match spec_varint_decode(bytes, i + 1) {
            Some((v, j)) => if (bytes[i] - 128) + 128 * v <= u64::MAX {
                Some((((bytes[i] - 128) + 128 * v) as u64, j))
            } else {
                None
            },
            None => None,
        }
    }
}

/// An encoded value is at least one byte long.
pub proof fn lemma_varint_len(n: nat)
    ensures
        spec_varint(n).len() >= 1,
    decreases n,
{
    if n >= 128 {
        lemma_varint_len(n / 128);
    }
}

/// A decoded value ends strictly after it starts and within the bytes.
pub proof fn lemma_varint_decode_range(bytes: Seq<u8>, i: int)
    ensures
        match spec_varint_decode(bytes, i) {
            Some(p) => i < p.1 <= bytes.len(),
            None => true,
        },
    decreases bytes.len() - i,
{
    if 0 <= i < bytes.len() && bytes[i] >= 128 {
        lemma_varint_decode_range(bytes, i + 1);
    }
}

/// Decoding starts over wherever an encoded value was laid down: if the bytes
/// at `i` hold exactly `spec_varint(n)`, decoding at `i` yields `n` and stops
/// right after it.
pub proof fn lemma_varint_round_trip(bytes: Seq<u8>, i: int, n: u64)
    requires
        0 <= i,
        i + spec_varint(n as nat).len() <= bytes.len(),
        bytes.subrange(i, i + spec_varint(n as nat).len() as int) == spec_varint(n as nat),
    ensures
        spec_varint_decode(bytes, i) == Some((n, i + spec_varint(n as nat).len())),
    decreases n,
{
    let enc = spec_varint(n as nat);
    assert(bytes[i] == enc[0]);
    if n < 128 {
        assert(bytes[i] == n as u8);
    } else {
        let rest = spec_varint((n / 128) as nat);
        lemma_varint_len((n / 128) as nat);
        assert(bytes.subrange(i + 1, i + 1 + rest.len() as int) == rest) by {
            assert forall|k: int| 0 <= k < rest.len() implies bytes.subrange(
                i + 1,
                i + 1 + rest.len() as int,
            )[k] == rest[k] by {
                assert(bytes[i + 1 + k] == enc[1 + k]);
            }
            assert(bytes.subrange(i + 1, i + 1 + rest.len() as int) =~= rest);
        }
        lemma_varint_round_trip(bytes, i + 1, n / 128);
        assert(bytes[i] == (128 + n % 128) as u8);
        assert((bytes[i] - 128) + 128 * ((n / 128) as int) == n);
    }
}

/// Appends the encoding of `n` to `out`.
pub fn write_varint(out: &mut Vec<u8>, n: u64)
    ensures
        final(out)@ == old(out)@ + spec_varint(n as nat),
{
    let ghost complete = old(out)@ + spec_varint(n as nat);
    let mut v: u64 = n;
    loop
        invariant_except_break
            complete == out@ + spec_varint(v as nat),
        ensures
            out@ == complete,
        decreases v,
    {
        if v < 128 {
            out.push(v as u8);
            proof {
                assert(complete =~= out@);
            }
            break ;
        } else {
            let ghost prev = v as nat;
            out.push((128 + v % 128) as u8);
            v = v / 128;
            proof {
                assert(spec_varint(prev) == seq![(128 + prev % 128) as u8] + spec_varint(
                    prev / 128,
                ));
                assert(complete =~= out@ + spec_varint(v as nat));
            }
        }
    }
}

/// Reads one encoded value at `pos`.
pub fn read_varint(bytes: &Vec<u8>, pos: usize) -> (r: Option<(u64, usize)>)
    ensures
        match r {
            Some(p) => spec_varint_decode(bytes@, pos as int) == Some((p.0, p.1 as int)),
            None => spec_varint_decode(bytes@, pos as int) is None,
        },
    decreases bytes@.len() - pos,
{
    if pos >= bytes.len() {
        return None;
    }
    let b = bytes[pos];
    if b < 128 {
        Some((b as u64, pos + 1))
    } else {
        match read_varint(bytes, pos + 1) {
            None => None,
            Some((v, j)) => {
                if v <= (u64::MAX - 127) / 128 {
                    assert((b - 128) + 128 * (v as int) <= u64::MAX) by (nonlinear_arith)
                        requires
                            v <= (u64::MAX - 127) / 128,
                            128 <= b,
                    ;
                    Some(((b - 128) as u64 + v * 128, j))
                } else {
                    assert((b - 128) + 128 * (v as int) > u64::MAX) by (nonlinear_arith)
                        requires
                            v > (u64::MAX - 127) / 128,
                            128 <= b <= 255,
                    ;
                    None
                }
            },
        }
    }
}

} // verus!

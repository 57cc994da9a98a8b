//! The word tokenizer.
//!
//! A token is a maximal run of word bytes — ASCII letters and digits,
//! lowercased, plus every non-ASCII byte, so that multi-byte characters stay
//! inside their token. Runs longer than `MAX_TOKEN_LENGTH` bytes are dropped
//! without taking a position.

use vstd::prelude::*;

use crate::hash::MAX_TOKEN_LENGTH;

verus! {

/// A byte that belongs to a word.
pub open spec fn is_word_byte(b: u8) -> bool {
    (48 <= b <= 57) || (65 <= b <= 90) || (97 <= b <= 122) || b >= 128
}

/// ASCII lowercasing of a single byte.
pub open spec fn spec_lower_byte(b: u8) -> u8 {
    if 65 <= b <= 90 {
        (b + 32) as u8
    } else {
        b
    }
}

/// What a finished run contributes: itself if it is a token of legal length,
/// nothing otherwise.
pub open spec fn spec_flush(run: Seq<u8>) -> Seq<Seq<u8>> {
    if 1 <= run.len() <= MAX_TOKEN_LENGTH {
        seq![run]
    } else {
        Seq::empty()
    }
}

/// Tokens of `s` from index `i` on, with `run` the word bytes read so far.
pub open spec fn spec_tokenize_from(s: Seq<u8>, i: int, run: Seq<u8>) -> Seq<Seq<u8>>
    decreases s.len() - i,
{
    if i < 0 || i >= s.len() {
        spec_flush(run)
    } else if is_word_byte(s[i]) {
        spec_tokenize_from(s, i + 1, run.push(spec_lower_byte(s[i])))
    } else {
        spec_flush(run) + spec_tokenize_from(s, i + 1, Seq::empty())
    }
}

/// The tokens of a byte sequence, in order.
pub open spec fn spec_tokenize(s: Seq<u8>) -> Seq<Seq<u8>> {
    spec_tokenize_from(s, 0, Seq::empty())
}

/// The views of a sequence of byte vectors.
pub open spec fn seq_views(vs: Seq<Vec<u8>>) -> Seq<Seq<u8>> {
    Seq::new(vs.len(), |i: int| vs[i]@)
}

/// Empty text yields no tokens.
pub proof fn lemma_tokenize_empty(s: Seq<u8>)
    requires
        s.len() == 0,
    ensures
        spec_tokenize(s).len() == 0,
{
}

/// Every token is non-empty and at most `MAX_TOKEN_LENGTH` bytes.
pub proof fn lemma_token_lengths(s: Seq<u8>, i: int, run: Seq<u8>)
    ensures
        forall|k: int|
            0 <= k < spec_tokenize_from(s, i, run).len() ==> 1 <= (#[trigger] spec_tokenize_from(
                s,
                i,
                run,
            )[k]).len() <= MAX_TOKEN_LENGTH,
    decreases s.len() - i,
{
    if i < 0 || i >= s.len() {
    } else if is_word_byte(s[i]) {
        lemma_token_lengths(s, i + 1, run.push(spec_lower_byte(s[i])));
        let rest = spec_tokenize_from(s, i + 1, run.push(spec_lower_byte(s[i])));
        let r = spec_tokenize_from(s, i, run);
        assert forall|k: int| 0 <= k < r.len() implies 1 <= (#[trigger] r[k]).len()
            <= MAX_TOKEN_LENGTH by {
            assert(r[k] == rest[k]);
        }
    } else {
        lemma_token_lengths(s, i + 1, Seq::empty());
        let a = spec_flush(run);
        let rest = spec_tokenize_from(s, i + 1, Seq::empty());
        let r = spec_tokenize_from(s, i, run);
        assert forall|k: int| 0 <= k < r.len() implies 1 <= (#[trigger] r[k]).len()
            <= MAX_TOKEN_LENGTH by {
            if k < a.len() {
                assert(r[k] == a[k]);
            } else {
                assert(r[k] == rest[k - a.len()]);
            }
        }
    }
}

/// Splits `bytes` into its tokens.
pub fn tokenize(bytes: &[u8]) -> (r: Vec<Vec<u8>>)
    ensures
        seq_views(r@) == spec_tokenize(bytes@),
{
    let mut out: Vec<Vec<u8>> = Vec::new();
    let mut run: Vec<u8> = Vec::new();
    let mut i: usize = 0;
    while i < bytes.len()
        invariant
            i <= bytes@.len(),
            spec_tokenize(bytes@) == seq_views(out@) + spec_tokenize_from(bytes@, i as int, run@),
        decreases bytes@.len() - i,
    {
        let b = bytes[i];
        if (48 <= b && b <= 57) || (65 <= b && b <= 90) || (97 <= b && b <= 122) || b >= 128 {
            let low = if 65 <= b && b <= 90 {
                b + 32
            } else {
                b
            };
            run.push(low);
        } else {
            let ghost old_out = seq_views(out@);
            let ghost old_run = run@;
            if run.len() >= 1 && run.len() <= MAX_TOKEN_LENGTH {
                out.push(run);
            }
            run = Vec::new();
            proof {
                assert(seq_views(out@) =~= old_out + spec_flush(old_run));
                assert(seq_views(out@) + spec_tokenize_from(bytes@, i + 1, run@) =~= old_out + (
                spec_flush(old_run) + spec_tokenize_from(bytes@, i + 1, Seq::empty())));
            }
        }
        i = i + 1;
    }
    let ghost old_out = seq_views(out@);
    let ghost old_run = run@;
    if run.len() >= 1 && run.len() <= MAX_TOKEN_LENGTH {
        out.push(run);
    }
    proof {
        assert(seq_views(out@) =~= old_out + spec_flush(old_run));
    }
    out
}

} // verus!

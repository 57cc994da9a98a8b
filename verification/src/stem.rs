//! The stemmer.
//!
//! The full-text pipeline records, beside each word, a canonical root form
//! when one exists. This crate carries a small English suffix stripper that
//! folds regular plural endings; for other languages no root form is
//! produced. A word's stemmed form, when present, always differs from the
//! word itself.

use vstd::prelude::*;

use crate::language::Language;

verus! {

/// The stemmed form of a lowercase English word, if the rules produce one.
pub open spec fn spec_stem(w: Seq<u8>) -> Option<Seq<u8>> {
    let n = w.len() as int;
    if n >= 5 && w[n - 4] == 115 && w[n - 3] == 115 && w[n - 2] == 101 && w[n - 1] == 115 {
        // -sses => -ss
        Some(w.subrange(0, n - 2))
    } else if n >= 5 && w[n - 3] == 105 && w[n - 2] == 101 && w[n - 1] == 115 {
        // -ies => -y
        Some(w.subrange(0, n - 3).push(121))
    } else if n >= 4 && w[n - 2] == 101 && w[n - 1] == 115 && (w[n - 3] == 120 || w[n - 3] == 122
        || w[n - 3] == 111 || (n >= 5 && w[n - 3] == 104 && (w[n - 4] == 99 || w[n - 4] == 115))) {
        // -xes, -zes, -oes, -ches, -shes => drop the es
        Some(w.subrange(0, n - 2))
    } else if n >= 4 && w[n - 1] == 115 && w[n - 2] != 115 && w[n - 2] != 117 {
        // plain plural -s, but not -ss or -us
        Some(w.subrange(0, n - 1))
    } else {
        None
    }
}

/// The stemmed form the pipeline records for `w` under `lang`.
pub open spec fn spec_stem_for(w: Seq<u8>, lang: Language) -> Option<Seq<u8>> {
    if lang == Language::English {
        spec_stem(w)
    } else {
        None
    }
}

/// Copies the first `k` bytes of `v`.
fn take_prefix(v: &Vec<u8>, k: usize) -> (r: Vec<u8>)
    requires
        k <= v@.len(),
    ensures
        r@ == v@.subrange(0, k as int),
{
    let mut r: Vec<u8> = Vec::new();
    let mut i: usize = 0;
    while i < k
        invariant
            i <= k <= v@.len(),
            r@ =~= v@.subrange(0, i as int),
        decreases k - i,
    {
        r.push(v[i]);
        proof {
            assert(v@.subrange(0, i + 1) =~= v@.subrange(0, i as int) + seq![v@[i as int]]);
        }
        i = i + 1;
    }
    r
}

/// Stems one word under `lang`.
pub fn stem(word: &Vec<u8>, lang: Language) -> (r: Option<Vec<u8>>)
    ensures
        match r {
            Some(s) => spec_stem_for(word@, lang) == Some(s@) && s@.len() >= 1,
            None => spec_stem_for(word@, lang) is None,
        },
{
    if lang != Language::English {
        return None;
    }
    let n = word.len();
    if n >= 5 && word[n - 4] == 115 && word[n - 3] == 115 && word[n - 2] == 101 && word[n - 1]
        == 115 {
        Some(take_prefix(word, n - 2))
    } else if n >= 5 && word[n - 3] == 105 && word[n - 2] == 101 && word[n - 1] == 115 {
        let mut r = take_prefix(word, n - 3);
        r.push(121);
        Some(r)
    } else if n >= 4 && word[n - 2] == 101 && word[n - 1] == 115 && (word[n - 3] == 120 || word[n
        - 3] == 122 || word[n - 3] == 111 || (n >= 5 && word[n - 3] == 104 && (word[n - 4] == 99
        || word[n - 4] == 115))) {
        Some(take_prefix(word, n - 2))
    } else if n >= 4 && word[n - 1] == 115 && word[n - 2] != 115 && word[n - 2] != 117 {
        Some(take_prefix(word, n - 1))
    } else {
        None
    }
}

/// A stemmed form is never the word itself: it is always shorter, or ends in
/// a byte the word does not end in at that length.
pub proof fn lemma_stem_changes(w: Seq<u8>)
    ensures
        match spec_stem(w) {
            Some(s) => s != w,
            None => true,
        },
{
    let n = w.len() as int;
    match spec_stem(w) {
        Some(s) => {
            assert(s.len() < n);
        },
        None => {},
    }
}

} // verus!

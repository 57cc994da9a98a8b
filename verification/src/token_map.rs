//! The per-document accumulation map from token hash to postings.
//!
//! The pipeline folds every token occurrence of one document into this map
//! before anything is serialized. Entries are kept in first-occurrence
//! order, which makes the whole pipeline deterministic.

use vstd::prelude::*;

use crate::hash::BitmapHash;
use crate::postings::{Postings, PostingsModel};

verus! {

/// The accumulation map.
#[derive(Debug)]
pub struct TokenMap {
    /// Hash/postings pairs, unique hashes, first-occurrence order.
    pub entries: Vec<(BitmapHash, Postings)>,
}

impl View for TokenMap {
    type V = Seq<(BitmapHash, PostingsModel)>;

    open spec fn view(&self) -> Seq<(BitmapHash, PostingsModel)> {
        Seq::new(self.entries@.len(), |i: int| (self.entries@[i].0, self.entries@[i].1@))
    }
}

/// Index of the entry for `h`, or `-1`.
pub open spec fn spec_tm_find(m: Seq<(BitmapHash, PostingsModel)>, h: BitmapHash) -> int
    decreases m.len(),
{
    if m.len() == 0 {
        -1
    } else if m[0].0 == h {
        0
    } else {
        let r = spec_tm_find(m.drop_first(), h);
        if r < 0 {
            -1
        } else {
            r + 1
        }
    }
}

/// What `spec_tm_find` returns.
pub proof fn lemma_tm_find(m: Seq<(BitmapHash, PostingsModel)>, h: BitmapHash)
    ensures
        spec_tm_find(m, h) == -1 ==> forall|k: int| 0 <= k < m.len() ==> (#[trigger] m[k]).0 != h,
        spec_tm_find(m, h) != -1 ==> {
            let r = spec_tm_find(m, h);
            &&& 0 <= r < m.len()
            &&& m[r].0 == h
            &&& forall|k: int| 0 <= k < r ==> (#[trigger] m[k]).0 != h
        },
    decreases m.len(),
{
    if m.len() > 0 && m[0].0 != h {
        let tail = m.drop_first();
        lemma_tm_find(tail, h);
        assert(forall|k: int| 0 <= k < tail.len() ==> tail[k] == m[k + 1]);
        let r = spec_tm_find(tail, h);
        if r < 0 {
            assert forall|k: int| 0 <= k < m.len() implies (#[trigger] m[k]).0 != h by {
                if k > 0 {
                    assert(m[k] == tail[k - 1]);
                }
            }
        } else {
            assert(m[r + 1] == tail[r]);
            assert forall|k: int| 0 <= k < r + 1 implies (#[trigger] m[k]).0 != h by {
                if k > 0 {
                    assert(m[k] == tail[k - 1]);
                }
            }
        }
    }
}

/// The map after a word-kind insert at (`h`, `t`, `pos`).
pub open spec fn spec_tm_insert(
    m: Seq<(BitmapHash, PostingsModel)>,
    h: BitmapHash,
    t: u8,
    pos: u32,
) -> Seq<(BitmapHash, PostingsModel)> {
    let r = spec_tm_find(m, h);
    if r == -1 {
        m.push((h, PostingsModel::empty().insert(t, pos)))
    } else {
        m.update(r, (h, m[r].1.insert(t, pos)))
    }
}

/// The map after a keyword-kind insert at (`h`, `t`).
pub open spec fn spec_tm_keyword(
    m: Seq<(BitmapHash, PostingsModel)>,
    h: BitmapHash,
    t: u8,
) -> Seq<(BitmapHash, PostingsModel)> {
    let r = spec_tm_find(m, h);
    if r == -1 {
        m.push((h, PostingsModel::empty().with_type(t)))
    } else {
        m.update(r, (h, m[r].1.with_type(t)))
    }
}

/// Map well-formedness: unique well-formed hashes, well-formed postings.
pub open spec fn spec_tm_wf(m: Seq<(BitmapHash, PostingsModel)>) -> bool {
    &&& forall|i: int, j: int| 0 <= i < j < m.len() ==> (#[trigger] m[i]).0 != (#[trigger] m[j]).0
    &&& forall|i: int| 0 <= i < m.len() ==> (#[trigger] m[i]).0.wf()
    &&& forall|i: int| 0 <= i < m.len() ==> (#[trigger] m[i]).1.wf()
}

/// Every position in every posting of the map is below `bound`.
pub open spec fn spec_tm_below(m: Seq<(BitmapHash, PostingsModel)>, bound: int) -> bool {
    forall|i: int| 0 <= i < m.len() ==> (#[trigger] m[i]).1.positions_below(bound)
}

impl TokenMap {
    /// An empty map.
    pub fn new() -> (r: TokenMap)
        ensures
            r@ == Seq::<(BitmapHash, PostingsModel)>::empty(),
            spec_tm_wf(r@),
    {
        let r = TokenMap { entries: Vec::new() };
        proof {
            assert(r@ =~= Seq::<(BitmapHash, PostingsModel)>::empty());
        }
        r
    }

    /// Number of entries.
    pub fn len(&self) -> (r: usize)
        ensures
            r == self@.len(),
    {
        self.entries.len()
    }

    /// Index of the entry for `h`, if present.
    fn find(&self, h: &BitmapHash) -> (r: Option<usize>)
        ensures
            match r {
                Some(i) => spec_tm_find(self@, *h) == i as int,
                None => spec_tm_find(self@, *h) == -1,
            },
    {
        proof {
            lemma_tm_find(self@, *h);
        }
        let mut i: usize = 0;
        while i < self.entries.len()
            invariant
                i <= self.entries@.len(),
                forall|k: int| 0 <= k < i ==> (#[trigger] self@[k]).0 != *h,
            decreases self.entries@.len() - i,
        {
            if self.entries[i].0 == *h {
                assert(self@[i as int].0 == *h);
                proof {
                    lemma_tm_find(self@, *h);
                }
                return Some(i);
            }
            assert(self@[i as int].0 != *h);
            i = i + 1;
        }
        None
    }

    /// Records a word occurrence of the token hashed to `h`.
    pub fn insert(&mut self, h: BitmapHash, t: u8, pos: u32)
        requires
            spec_tm_wf(old(self)@),
            spec_tm_below(old(self)@, pos as int),
            h.wf(),
        ensures
            final(self)@ == spec_tm_insert(old(self)@, h, t, pos),
            spec_tm_wf(final(self)@),
            spec_tm_below(final(self)@, pos as int + 1),
    {
        proof {
            lemma_tm_find(self@, h);
        }
        match self.find(&h) {
            Some(i) => {
                let ghost m0 = self@;
                let (h0, mut p) = self.entries.remove(i);
                p.insert(t, pos);
                self.entries.insert(i, (h0, p));
                proof {
                    assert(self@ =~= m0.update(i as int, (h, m0[i as int].1.insert(t, pos))));
                }
            },
            None => {
                let ghost m0 = self@;
                let mut p = Postings::new();
                p.insert(t, pos);
                self.entries.push((h, p));
                proof {
                    assert(self@ =~= m0.push((h, PostingsModel::empty().insert(t, pos))));
                }
            },
        }
    }

    /// Records a keyword or stemmed occurrence of the token hashed to `h`.
    pub fn insert_keyword(&mut self, h: BitmapHash, t: u8)
        requires
            spec_tm_wf(old(self)@),
            h.wf(),
        ensures
            final(self)@ == spec_tm_keyword(old(self)@, h, t),
            spec_tm_wf(final(self)@),
            forall|b: int| spec_tm_below(old(self)@, b) ==> spec_tm_below(final(self)@, b),
    {
        proof {
            lemma_tm_find(self@, h);
        }
        match self.find(&h) {
            Some(i) => {
                let ghost m0 = self@;
                let (h0, mut p) = self.entries.remove(i);
                p.insert_keyword(t);
                self.entries.insert(i, (h0, p));
                proof {
                    assert(self@ =~= m0.update(i as int, (h, m0[i as int].1.with_type(t))));
                    assert forall|b: int| spec_tm_below(m0, b) implies spec_tm_below(self@, b) by {
                        assert forall|q: int|
                            spec_tm_below(m0, b) && 0 <= q < self@.len() implies (
                        #[trigger] self@[q]).1.positions_below(b) by {
                            if q != i {
                                assert(self@[q] == m0[q]);
                            }
                        }
                    }
                }
            },
            None => {
                let ghost m0 = self@;
                let mut p = Postings::new();
                p.insert_keyword(t);
                self.entries.push((h, p));
                proof {
                    assert(self@ =~= m0.push((h, PostingsModel::empty().with_type(t))));
                    assert forall|b: int| spec_tm_below(m0, b) implies spec_tm_below(self@, b) by {
                        assert forall|q: int|
                            spec_tm_below(m0, b) && 0 <= q < self@.len() implies (
                        #[trigger] self@[q]).1.positions_below(b) by {
                            if q < m0.len() {
                                assert(self@[q] == m0[q]);
                            }
                        }
                    }
                }
            },
        }
    }
}

} // verus!

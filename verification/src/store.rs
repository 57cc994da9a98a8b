//! An in-memory key-value store holding the term index.
//!
//! The store abstracts the storage engine the index is written to: a map
//! from byte keys to byte values, written in batches and scanned by key
//! range. Entries are kept in insertion order with unique keys; the
//! mathematical view is the map itself.

use vstd::prelude::*;

use crate::batch::{spec_apply_ops, Batch, Operation, ValueClass, ValueOp};
use crate::keys::{serialize_fts_key, spec_be32};

verus! {

/// The key-value store.
#[derive(Debug)]
pub struct Store {
    /// Key-value pairs, unique keys, insertion order.
    pub entries: Vec<(Vec<u8>, Vec<u8>)>,
    /// Number of batches written so far, for observability.
    pub writes: usize,
}

/// The map described by the first `n` entries.
pub open spec fn spec_map_of(s: Seq<(Vec<u8>, Vec<u8>)>, n: int) -> Map<Seq<u8>, Seq<u8>>
    decreases n,
{
    if n <= 0 {
        Map::empty()
    } else {
        spec_map_of(s, n - 1).insert(s[n - 1].0@, s[n - 1].1@)
    }
}

/// Domain and values of `spec_map_of`: a key is present exactly when some
/// entry holds it, and the value is the last such entry's.
pub proof fn lemma_map_of(s: Seq<(Vec<u8>, Vec<u8>)>, n: int)
    requires
        0 <= n <= s.len(),
    ensures
        forall|k: Seq<u8>|
            #[trigger] spec_map_of(s, n).dom().contains(k) <==> exists|i: int|
                0 <= i < n && (#[trigger] s[i]).0@ == k,
        forall|i: int|
            0 <= i < n && (forall|j: int| i < j < n ==> (#[trigger] s[j]).0@ != s[i].0@)
                ==> spec_map_of(s, n)[(#[trigger] s[i]).0@] == s[i].1@,
    decreases n,
{
    if n > 0 {
        lemma_map_of(s, n - 1);
        let m = spec_map_of(s, n);
        let prev = spec_map_of(s, n - 1);
        assert forall|k: Seq<u8>| #[trigger] m.dom().contains(k) implies exists|i: int|
            0 <= i < n && (#[trigger] s[i]).0@ == k by {
            if k == s[n - 1].0@ {
                assert(s[n - 1].0@ == k);
            } else {
                assert(prev.dom().contains(k));
            }
        }
        assert forall|k: Seq<u8>| (exists|i: int| 0 <= i < n && (#[trigger] s[i]).0@ == k)
            implies #[trigger] m.dom().contains(k) by {
            let i = choose|i: int| 0 <= i < n && (#[trigger] s[i]).0@ == k;
            if i < n - 1 {
                assert(prev.dom().contains(k));
            }
        }
    }
}

/// `spec_map_of` looks only at the first `n` entries.
proof fn lemma_map_of_prefix(s: Seq<(Vec<u8>, Vec<u8>)>, t: Seq<(Vec<u8>, Vec<u8>)>, n: int)
    requires
        0 <= n <= s.len(),
        n <= t.len(),
        forall|j: int| 0 <= j < n ==> s[j] == t[j],
    ensures
        spec_map_of(s, n) == spec_map_of(t, n),
    decreases n,
{
    if n > 0 {
        lemma_map_of_prefix(s, t, n - 1);
    }
}

impl View for Store {
    type V = Map<Seq<u8>, Seq<u8>>;

    open spec fn view(&self) -> Map<Seq<u8>, Seq<u8>> {
        spec_map_of(self.entries@, self.entries@.len() as int)
    }
}

/// Compares two byte vectors.
pub fn bytes_eq(a: &Vec<u8>, b: &Vec<u8>) -> (r: bool)
    ensures
        r == (a@ == b@),
{
    if a.len() != b.len() {
        return false;
    }
    let mut i: usize = 0;
    while i < a.len()
        invariant
            a@.len() == b@.len(),
            i <= a@.len(),
            forall|k: int| 0 <= k < i ==> a@[k] == b@[k],
        decreases a@.len() - i,
    {
        if a[i] != b[i] {
            return false;
        }
        i = i + 1;
    }
    proof {
        assert(a@ =~= b@);
    }
    true
}

impl Store {
    /// Unique keys.
    pub open spec fn wf(self) -> bool {
        forall|i: int, j: int|
            0 <= i < j < self.entries@.len() ==> (#[trigger] self.entries@[i]).0@ != (
            #[trigger] self.entries@[j]).0@
    }

    /// An empty store.
    pub fn new() -> (r: Store)
        ensures
            r@ == Map::<Seq<u8>, Seq<u8>>::empty(),
            r.wf(),
            r.writes == 0,
    {
        Store { entries: Vec::new(), writes: 0 }
    }

    /// Index of the entry holding `key`, if any.
    fn find(&self, key: &Vec<u8>) -> (r: Option<usize>)
        ensures
            match r {
                Some(i) => i < self.entries@.len() && self.entries@[i as int].0@ == key@,
                None => forall|i: int|
                    0 <= i < self.entries@.len() ==> (#[trigger] self.entries@[i]).0@ != key@,
            },
    {
        let mut i: usize = 0;
        while i < self.entries.len()
            invariant
                i <= self.entries@.len(),
                forall|k: int| 0 <= k < i ==> (#[trigger] self.entries@[k]).0@ != key@,
            decreases self.entries@.len() - i,
        {
            if bytes_eq(&self.entries[i].0, key) {
                return Some(i);
            }
            i = i + 1;
        }
        None
    }

    /// The value stored under `key`, if any.
    pub fn get(&self, key: &Vec<u8>) -> (r: Option<&Vec<u8>>)
        requires
            self.wf(),
        ensures
            match r {
                Some(v) => self@.dom().contains(key@) && self@[key@] == v@,
                None => !self@.dom().contains(key@),
            },
    {
        proof {
            lemma_map_of(self.entries@, self.entries@.len() as int);
        }
        match self.find(key) {
            Some(i) => Some(&self.entries[i].1),
            None => None,
        }
    }

    /// Stores `val` under `key`, overwriting.
    pub fn set(&mut self, key: Vec<u8>, val: Vec<u8>)
        requires
            old(self).wf(),
        ensures
            final(self)@ == old(self)@.insert(key@, val@),
            final(self).wf(),
            final(self).writes == old(self).writes,
    {
        proof {
            lemma_map_of(self.entries@, self.entries@.len() as int);
        }
        match self.find(&key) {
            Some(i) => {
                let ghost olds = self.entries@;
                let ghost e = (key, val);
                self.entries.remove(i);
                self.entries.insert(i, (key, val));
                proof {
                    assert(self.entries@ =~= olds.update(i as int, e));
                    lemma_map_update(olds, i as int, e);
                    assert forall|a: int, b: int|
                        0 <= a < b < self.entries@.len() implies (
                    #[trigger] self.entries@[a]).0@ != (#[trigger] self.entries@[b]).0@ by {
                        assert(self.entries@[a].0@ == olds[a].0@);
                        assert(self.entries@[b].0@ == olds[b].0@);
                    }
                }
            },
            None => {
                let ghost olds = self.entries@;
                self.entries.push((key, val));
                proof {
                    lemma_map_of_prefix(olds, self.entries@, olds.len() as int);
                }
            },
        }
    }

    /// Removes `key` if present.
    pub fn clear(&mut self, key: &Vec<u8>)
        requires
            old(self).wf(),
        ensures
            final(self)@ == old(self)@.remove(key@),
            final(self).wf(),
            final(self).writes == old(self).writes,
    {
        proof {
            lemma_map_of(self.entries@, self.entries@.len() as int);
        }
        match self.find(key) {
            Some(i) => {
                let ghost olds = self.entries@;
                self.entries.remove(i);
                proof {
                    assert(self.entries@ =~= olds.remove(i as int));
                    lemma_map_remove(olds, i as int);
                }
            },
            None => {
                proof {
                    assert(self@ =~= old(self)@.remove(key@)) by {
                        lemma_map_of(self.entries@, self.entries@.len() as int);
                    }
                }
            },
        }
    }

    /// Applies one batch: headers set the scope, value operations write or
    /// clear posting keys.
    pub fn write(&mut self, batch: Batch) -> (r: Result<(), crate::keys::Error>)
        requires
            old(self).wf(),
        ensures
            r is Ok,
            final(self)@ == crate::batch::spec_apply_batch(old(self)@, batch.ops@),
            final(self).wf(),
            final(self).writes == if old(self).writes < usize::MAX {
                (old(self).writes + 1) as usize
            } else {
                old(self).writes
            },
    {
        if self.writes < usize::MAX {
            self.writes = self.writes + 1;
        }
        let ghost writes_now = self.writes;
        let mut account: u32 = 0;
        let mut collection: u8 = 0;
        let mut document: u32 = 0;
        let ghost ops = batch.ops@;
        let ghost m0 = self@;
        let mut n: usize = 0;
        while n < batch.ops.len()
            invariant
                n <= ops.len(),
                batch.ops@ == ops,
                self.writes == writes_now,
                self.wf(),
                self@ == spec_apply_ops(m0, ops, n as int, 0, 0, 0),
                account == crate::batch::spec_ctx_account(ops, n as int, 0),
                collection == crate::batch::spec_ctx_collection(ops, n as int, 0),
                document == crate::batch::spec_ctx_document(ops, n as int, 0),
            decreases ops.len() - n,
        {
            match &batch.ops[n] {
                Operation::AccountId(a) => {
                    account = *a;
                },
                Operation::Collection(c) => {
                    collection = *c;
                },
                Operation::DocumentId(d) => {
                    document = *d;
                },
                Operation::Value { class: ValueClass::FtsIndex(h), op } => {
                    assert(ops[n as int] matches Operation::Value { class: ValueClass::FtsIndex(hh), .. } && hh == *h);
                    let key = serialize_fts_key(account, collection, h, document);
                    match op {
                        ValueOp::Put(v) => {
                            let value = v.clone();
                            assert(value@ =~= v@);
                            self.set(key, value);
                        },
                        ValueOp::Clear => {
                            self.clear(&key);
                        },
                    }
                },
            }
            n = n + 1;
        }
        Ok(())
    }

    /// The keys whose first four bytes name `account`, in entry order.
    pub fn account_keys(&self, account: u32) -> (r: Vec<Vec<u8>>)
        ensures
            r@.map_values(|v: Vec<u8>| v@) == spec_account_scan(
                self.entries@,
                self.entries@.len() as int,
                account,
            ),
    {
        let mut out: Vec<Vec<u8>> = Vec::new();
        let mut i: usize = 0;
        while i < self.entries.len()
            invariant
                i <= self.entries@.len(),
                out@.map_values(|v: Vec<u8>| v@) =~= spec_account_scan(
                    self.entries@,
                    i as int,
                    account,
                ),
            decreases self.entries@.len() - i,
        {
            let ghost before = out@.map_values(|v: Vec<u8>| v@);
            let key = &self.entries[i].0;
            if key.len() >= 4 && key[0] == (account >> 24u32) as u8 && key[1] == (account
                >> 16u32) as u8 && key[2] == (account >> 8u32) as u8 && key[3] == account as u8 {
                let copy = key.clone();
                assert(copy@ =~= key@);
                out.push(copy);
                proof {
                    assert(key@.subrange(0, 4) =~= spec_be32(account));
                    assert(spec_key_in_account(self.entries@[i as int].0@, account));
                }
            } else {
                proof {
                    if key@.len() >= 4 {
                        assert(key@.subrange(0, 4)[0] == key@[0]);
                        assert(key@.subrange(0, 4)[1] == key@[1]);
                        assert(key@.subrange(0, 4)[2] == key@[2]);
                        assert(key@.subrange(0, 4)[3] == key@[3]);
                    }
                    assert(!spec_key_in_account(self.entries@[i as int].0@, account));
                }
            }
            proof {
                assert(out@.map_values(|v: Vec<u8>| v@) =~= spec_account_scan(
                    self.entries@,
                    i + 1,
                    account,
                ));
            }
            i = i + 1;
        }
        out
    }
}

/// A key that belongs to `account`: at least four bytes, the first four
/// being the account in big-endian order.
pub open spec fn spec_key_in_account(key: Seq<u8>, account: u32) -> bool {
    key.len() >= 4 && key.subrange(0, 4) == spec_be32(account)
}

/// The keys of the first `n` entries that belong to `account`, in order.
pub open spec fn spec_account_scan(s: Seq<(Vec<u8>, Vec<u8>)>, n: int, account: u32) -> Seq<
    Seq<u8>,
>
    decreases n,
{
    if n <= 0 {
        Seq::empty()
    } else {
        spec_account_scan(s, n - 1, account) + (if spec_key_in_account(s[n - 1].0@, account) {
            seq![s[n - 1].0@]
        } else {
            Seq::empty()
        })
    }
}

/// With unique keys, overwriting entry `i` in place overwrites exactly its
/// key in the map.
proof fn lemma_map_update(s: Seq<(Vec<u8>, Vec<u8>)>, i: int, e: (Vec<u8>, Vec<u8>))
    requires
        0 <= i < s.len(),
        e.0@ == s[i].0@,
        forall|a: int, b: int| 0 <= a < b < s.len() ==> (#[trigger] s[a]).0@ != (#[trigger] s[b]).0@,
    ensures
        spec_map_of(s.update(i, e), s.len() as int) == spec_map_of(s, s.len() as int).insert(
            e.0@,
            e.1@,
        ),
    decreases s.len(),
{
    let n = s.len() as int;
    let t = s.update(i, e);
    if i == n - 1 {
        lemma_map_of_prefix(t, s, n - 1);
        assert(spec_map_of(t, n) == spec_map_of(s, n - 1).insert(e.0@, e.1@));
        assert(spec_map_of(s, n - 1).insert(e.0@, e.1@) =~= spec_map_of(s, n - 1).insert(
            s[n - 1].0@,
            s[n - 1].1@,
        ).insert(e.0@, e.1@));
    } else {
        let s1 = s.subrange(0, n - 1);
        assert forall|a: int, b: int|
            0 <= a < b < s1.len() implies (#[trigger] s1[a]).0@ != (#[trigger] s1[b]).0@ by {
            assert(s1[a] == s[a] && s1[b] == s[b]);
        }
        assert(s1[i] == s[i]);
        lemma_map_update(s1, i, e);
        lemma_map_of_prefix(s1.update(i, e), t, n - 1);
        lemma_map_of_prefix(s1, s, n - 1);
        assert(spec_map_of(t, n) == spec_map_of(s, n - 1).insert(e.0@, e.1@).insert(
            s[n - 1].0@,
            s[n - 1].1@,
        ));
        assert(s[n - 1].0@ != e.0@);
        assert(spec_map_of(s, n - 1).insert(e.0@, e.1@).insert(s[n - 1].0@, s[n - 1].1@)
            =~= spec_map_of(s, n - 1).insert(s[n - 1].0@, s[n - 1].1@).insert(e.0@, e.1@));
    }
}

/// With unique keys, removing entry `i` removes exactly its key from the
/// map.
proof fn lemma_map_remove(s: Seq<(Vec<u8>, Vec<u8>)>, i: int)
    requires
        0 <= i < s.len(),
        forall|a: int, b: int| 0 <= a < b < s.len() ==> (#[trigger] s[a]).0@ != (#[trigger] s[b]).0@,
    ensures
        spec_map_of(s.remove(i), s.len() - 1) == spec_map_of(s, s.len() as int).remove(s[i].0@),
    decreases s.len(),
{
    let n = s.len() as int;
    let t = s.remove(i);
    if i == n - 1 {
        lemma_map_of_prefix(t, s, n - 1);
        lemma_map_of(s, n - 1);
        assert(!spec_map_of(s, n - 1).dom().contains(s[i].0@));
        assert(spec_map_of(t, n - 1) =~= spec_map_of(s, n).remove(s[i].0@));
    } else {
        let s1 = s.subrange(0, n - 1);
        assert forall|a: int, b: int|
            0 <= a < b < s1.len() implies (#[trigger] s1[a]).0@ != (#[trigger] s1[b]).0@ by {
            assert(s1[a] == s[a] && s1[b] == s[b]);
        }
        assert(s1[i] == s[i]);
        lemma_map_remove(s1, i);
        assert forall|j: int| 0 <= j < n - 2 implies s1.remove(i)[j] == t[j] by {
            if j < i {
                assert(s1.remove(i)[j] == s[j] && t[j] == s[j]);
            } else {
                assert(s1.remove(i)[j] == s[j + 1] && t[j] == s[j + 1]);
            }
        }
        lemma_map_of_prefix(s1.remove(i), t, n - 2);
        lemma_map_of_prefix(s1, s, n - 1);
        assert(t[n - 2] == s[n - 1]);
        assert(spec_map_of(t, n - 1) == spec_map_of(s, n - 1).remove(s[i].0@).insert(
            s[n - 1].0@,
            s[n - 1].1@,
        ));
        assert(s[n - 1].0@ != s[i].0@);
        assert(spec_map_of(s, n - 1).remove(s[i].0@).insert(s[n - 1].0@, s[n - 1].1@)
            =~= spec_map_of(s, n - 1).insert(s[n - 1].0@, s[n - 1].1@).remove(s[i].0@));
    }
}


/// Every scanned key lies in the account's range; every key of an entry in
/// the range is scanned.
pub proof fn lemma_account_scan(s: Seq<(Vec<u8>, Vec<u8>)>, n: int, account: u32)
    requires
        0 <= n <= s.len(),
    ensures
        forall|q: int|
            0 <= q < spec_account_scan(s, n, account).len() ==> spec_key_in_account(
                #[trigger] spec_account_scan(s, n, account)[q],
                account,
            ) && exists|i: int| 0 <= i < n && (#[trigger] s[i]).0@ == spec_account_scan(
                s,
                n,
                account,
            )[q],
        forall|i: int|
            0 <= i < n && spec_key_in_account((#[trigger] s[i]).0@, account) ==> spec_account_scan(
                s,
                n,
                account,
            ).contains(s[i].0@),
    decreases n,
{
    if n > 0 {
        lemma_account_scan(s, n - 1, account);
        let prev = spec_account_scan(s, n - 1, account);
        let cur = spec_account_scan(s, n, account);
        assert forall|q: int|
            0 <= q < cur.len() implies spec_key_in_account(#[trigger] cur[q], account) && exists|
            i: int,
        | 0 <= i < n && (#[trigger] s[i]).0@ == cur[q] by {
            if q < prev.len() {
                assert(cur[q] == prev[q]);
            } else {
                assert(cur[q] == s[n - 1].0@);
            }
        }
        assert forall|i: int|
            0 <= i < n && spec_key_in_account((#[trigger] s[i]).0@, account) implies cur.contains(
            s[i].0@,
        ) by {
            if i < n - 1 {
                assert(prev.contains(s[i].0@));
                let q = choose|q: int| 0 <= q < prev.len() && prev[q] == s[i].0@;
                assert(cur[q] == s[i].0@);
            } else {
                assert(cur[cur.len() - 1] == s[i].0@);
            }
        }
    }
}

} // verus!

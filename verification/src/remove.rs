//! The removal scanner.
//!
//! `Store::fts_remove` enumerates every posting key of an account,
//! reconstructs the token hash from the key bytes, and clears, in batches,
//! the postings of the documents a caller-supplied set selects.
//! `fts_remove_all` is deliberately a no-op: a bulk account wipe is handled
//! by the subsystem that deletes the account's whole key range, term index
//! included.

use vstd::prelude::*;

use crate::batch::{
    spec_apply_batch, spec_apply_ops, spec_ctx_account, spec_ctx_collection, spec_ctx_document,
    BatchBuilder, Operation, ValueClass, ValueOp, BATCH_FLUSH_LIMIT,
};
use crate::hash::BitmapHash;
use crate::keys::{parse_fts_key, spec_fts_key, spec_pack_be32, spec_parse_fts_key, Error};
use crate::store::{spec_key_in_account, Store};

verus! {

/// A caller-supplied selection of document identifiers.
pub trait DocumentSet {
    /// Whether `id` is selected.
    spec fn spec_contains(&self, id: u32) -> bool;

    /// Tests whether `id` is selected.
    fn contains(&self, id: u32) -> (r: bool)
        ensures
            r == self.spec_contains(id),
    ;
}

/// A document set backed by a list of identifiers.
#[derive(Debug, Clone, PartialEq, Eq)]
pub struct DocumentIdSet {
    /// The selected identifiers.
    pub ids: Vec<u32>,
}

impl DocumentSet for DocumentIdSet {
    open spec fn spec_contains(&self, id: u32) -> bool {
        self.ids@.contains(id)
    }

    fn contains(&self, id: u32) -> (r: bool) {
        let mut i: usize = 0;
        while i < self.ids.len()
            invariant
                i <= self.ids@.len(),
                forall|k: int| 0 <= k < i ==> self.ids@[k] != id,
            decreases self.ids@.len() - i,
        {
            if self.ids[i] == id {
                return true;
            }
            i = i + 1;
        }
        false
    }
}

/// The document identifier in a key's trailing four bytes.
pub open spec fn spec_key_doc(k: Seq<u8>) -> u32 {
    spec_pack_be32(k[k.len() - 4], k[k.len() - 3], k[k.len() - 2], k[k.len() - 1])
}

/// A key the scanner selects: in the account's range, with a selected
/// document identifier.
pub open spec fn spec_key_selected<S: DocumentSet>(k: Seq<u8>, account: u32, dset: S) -> bool {
    spec_key_in_account(k, account) && dset.spec_contains(spec_key_doc(k))
}

/// A selected key whose hash region cannot be classified: removal fails on
/// it.
pub open spec fn spec_remove_bad<S: DocumentSet>(
    m: Map<Seq<u8>, Seq<u8>>,
    account: u32,
    dset: S,
) -> bool {
    exists|k: Seq<u8>|
        #[trigger] m.dom().contains(k) && spec_key_selected(k, account, dset)
            && spec_parse_fts_key(k) is None
}

/// The clear keys removal issues: each selected, classifiable key of the
/// account, rebuilt under the passed collection.
pub open spec fn spec_cleared_keys<S: DocumentSet>(
    m: Map<Seq<u8>, Seq<u8>>,
    account: u32,
    collection: u8,
    dset: S,
) -> Set<Seq<u8>> {
    Set::new(
        |rk: Seq<u8>|
            exists|k: Seq<u8>|
                #[trigger] m.dom().contains(k) && spec_key_selected(k, account, dset)
                    && (spec_parse_fts_key(k) matches Some(p) && spec_fts_key(
                    account,
                    collection,
                    p.1,
                    p.0,
                ) == rk),
    )
}

/// What `fts_remove` leaves in the store on success.
pub open spec fn spec_fts_remove<S: DocumentSet>(
    m: Map<Seq<u8>, Seq<u8>>,
    account: u32,
    collection: u8,
    dset: S,
) -> Map<Seq<u8>, Seq<u8>> {
    m.remove_keys(spec_cleared_keys(m, account, collection, dset))
}

/// Removing one more key folds into the removed set.
proof fn lemma_remove_keys_step(m: Map<Seq<u8>, Seq<u8>>, s: Set<Seq<u8>>, k: Seq<u8>)
    ensures
        m.remove_keys(s).remove(k) == m.remove_keys(s.insert(k)),
{
    assert(m.remove_keys(s).remove(k) =~= m.remove_keys(s.insert(k)));
}


/// The view of the grouped delete list.
pub open spec fn spec_groups_view(gs: Seq<(u32, Vec<BitmapHash>)>) -> Seq<(u32, Seq<BitmapHash>)> {
    Seq::new(gs.len(), |i: int| (gs[i].0, gs[i].1@))
}

/// Whether the grouped delete list names the rebuilt key `rk`.
pub open spec fn spec_groups_has(
    gs: Seq<(u32, Seq<BitmapHash>)>,
    account: u32,
    collection: u8,
    rk: Seq<u8>,
) -> bool {
    exists|a: int, b: int|
        0 <= a < gs.len() && 0 <= b < gs[a].1.len() && rk == spec_fts_key(
            account,
            collection,
            gs[a].1[b],
            gs[a].0,
        )
}

impl Store {
    /// Clears every posting of the selected documents in `account_id`,
    /// scanning the account's key range and rebuilding each token hash from
    /// the key bytes.
    ///
    /// Fails, leaving the store untouched, exactly when a selected key's
    /// hash region cannot be classified.
    pub fn fts_remove<S: DocumentSet>(
        &mut self,
        account_id: u32,
        collection: u8,
        document_ids: &S,
    ) -> (r: Result<(), Error>)
        requires
            old(self).wf(),
        ensures
            final(self).wf(),
            r is Ok <==> !spec_remove_bad(old(self)@, account_id, *document_ids),
            r is Ok ==> final(self)@ == spec_fts_remove(
                old(self)@,
                account_id,
                collection,
                *document_ids,
            ),
            r is Err ==> final(self)@ == old(self)@ && final(self).writes == old(self).writes && (
            r matches Err(e) && e is InvalidKeyLength),
    {
        let ghost m0 = self@;
        let ghost entries0 = self.entries@;
        let keys = self.account_keys(account_id);
        let ghost kseq = keys@.map_values(|v: Vec<u8>| v@);
        proof {
            crate::store::lemma_account_scan(entries0, entries0.len() as int, account_id);
            crate::store::lemma_map_of(entries0, entries0.len() as int);
        }

        // Scan: collect the hashes to clear, grouped by document.
        let mut groups: Vec<(u32, Vec<BitmapHash>)> = Vec::new();
        let mut q: usize = 0;
        while q < keys.len()
            invariant
                q <= keys@.len(),
                kseq == keys@.map_values(|v: Vec<u8>| v@),
                kseq == crate::store::spec_account_scan(entries0, entries0.len() as int, account_id),
                entries0 == self.entries@,
                self == old(self),
                old(self).wf(),
                m0 == self@,
                forall|p: int|
                    0 <= p < kseq.len() ==> spec_key_in_account(#[trigger] kseq[p], account_id)
                        && m0.dom().contains(kseq[p]),
                // every recorded hash comes from a scanned, selected, parsed key
                forall|a: int, b: int|
                    #![trigger spec_groups_view(groups@)[a].1[b]]
                    0 <= a < spec_groups_view(groups@).len() && 0 <= b < spec_groups_view(
                        groups@,
                    )[a].1.len() ==> exists|p: int|
                        0 <= p < q && spec_key_selected(#[trigger] kseq[p], account_id, *document_ids)
                            && spec_parse_fts_key(kseq[p]) == Some(
                            (
                                spec_groups_view(groups@)[a].0,
                                spec_groups_view(groups@)[a].1[b],
                            ),
                        ),
                // every scanned, selected key so far parsed and is recorded
                forall|p: int|
                    0 <= p < q && spec_key_selected(#[trigger] kseq[p], account_id, *document_ids)
                        ==> (spec_parse_fts_key(kseq[p]) matches Some(pr) && spec_groups_has(
                        spec_groups_view(groups@),
                        account_id,
                        collection,
                        spec_fts_key(account_id, collection, pr.1, pr.0),
                    )),
            decreases keys@.len() - q,
        {
            let key = &keys[q];
            proof {
                assert(kseq[q as int] == key@);
                assert(spec_key_in_account(key@, account_id));
            }
            let n = key.len();
            let doc = ((key[n - 4] as u32) << 24u32) | ((key[n - 3] as u32) << 16u32) | ((key[n
                - 2] as u32) << 8u32) | (key[n - 1] as u32);
            assert(doc == spec_key_doc(key@));
            if document_ids.contains(doc) {
                match parse_fts_key(key) {
                    Err(e) => {
                        proof {
                            assert(m0.dom().contains(kseq[q as int]));
                            assert(spec_key_selected(kseq[q as int], account_id, *document_ids));
                            assert(spec_remove_bad(m0, account_id, *document_ids));
                        }
                        return Err(e);
                    },
                    Ok((d, h)) => {
                        let ghost gv_old = spec_groups_view(groups@);
                        let mut gi: usize = 0;
                        let mut found: bool = false;
                        while gi < groups.len() && !found
                            invariant
                                gi <= groups@.len(),
                                found ==> gi < groups@.len() && groups@[gi as int].0 == d,
                                !found ==> forall|a: int| 0 <= a < gi ==> groups@[a].0 != d,
                            decreases groups@.len() - gi, (if found { 0int } else { 1int }),
                        {
                            if groups[gi].0 == d {
                                found = true;
                            } else {
                                gi = gi + 1;
                            }
                        }
                        if found {
                            let (d0, mut hs) = groups.remove(gi);
                            hs.push(h);
                            groups.insert(gi, (d0, hs));
                            proof {
                                assert(spec_groups_view(groups@) =~= gv_old.update(
                                    gi as int,
                                    (d, gv_old[gi as int].1.push(h)),
                                ));
                            }
                        } else {
                            let mut hs: Vec<BitmapHash> = Vec::new();
                            hs.push(h);
                            groups.push((d, hs));
                            proof {
                                assert(spec_groups_view(groups@) =~= gv_old.push((d, seq![h])));
                            }
                        }
                        proof {
                            let gv = spec_groups_view(groups@);
                            assert forall|a: int, b: int|
                                #![trigger gv[a].1[b]]
                                0 <= a < gv.len() && 0 <= b < gv[a].1.len() implies exists|p: int|
                                0 <= p < q + 1 && spec_key_selected(
                                    #[trigger] kseq[p],
                                    account_id,
                                    *document_ids,
                                ) && spec_parse_fts_key(kseq[p]) == Some(
                                    (gv[a].0, gv[a].1[b]),
                                ) by {
                                if found && a == gi && b == gv[a].1.len() - 1 {
                                    assert(spec_key_selected(kseq[q as int], account_id, *document_ids));
                                    assert(spec_parse_fts_key(kseq[q as int]) == Some((d, h)));
                                    assert(gv[a].0 == d && gv[a].1[b] == h);
                                } else if !found && a == gv.len() - 1 {
                                    assert(gv[a].0 == d && gv[a].1[b] == h);
                                    assert(spec_key_selected(kseq[q as int], account_id, *document_ids));
                                } else {
                                    assert(0 <= a < gv_old.len() && 0 <= b < gv_old[a].1.len()
                                        && gv[a].0 == gv_old[a].0 && gv[a].1[b] == gv_old[a].1[b]);
                                }
                            }
                            assert forall|p: int|
                                0 <= p < q + 1 && spec_key_selected(
                                    #[trigger] kseq[p],
                                    account_id,
                                    *document_ids,
                                ) implies (spec_parse_fts_key(kseq[p]) matches Some(pr)
                                && spec_groups_has(
                                gv,
                                account_id,
                                collection,
                                spec_fts_key(account_id, collection, pr.1, pr.0),
                            )) by {
                                if p < q {
                                    let pr = spec_parse_fts_key(kseq[p])->Some_0;
                                    assert(spec_groups_has(
                                        gv_old,
                                        account_id,
                                        collection,
                                        spec_fts_key(account_id, collection, pr.1, pr.0),
                                    ));
                                    let (a, b) = choose|a: int, b: int|
                                        0 <= a < gv_old.len() && 0 <= b < gv_old[a].1.len()
                                            && spec_fts_key(account_id, collection, pr.1, pr.0)
                                            == spec_fts_key(
                                            account_id,
                                            collection,
                                            gv_old[a].1[b],
                                            gv_old[a].0,
                                        );
                                    if found && a == gi {
                                        assert(gv[a].1[b] == gv_old[a].1[b]);
                                        assert(gv[a].0 == gv_old[a].0);
                                    } else {
                                        assert(gv[a].1[b] == gv_old[a].1[b] && gv[a].0 == gv_old[a].0);
                                    }
                                } else {
                                    if found {
                                        let a = gi as int;
                                        let b = spec_groups_view(groups@)[a].1.len() - 1;
                                        assert(gv[a].0 == d && gv[a].1[b] == h);
                                    } else {
                                        let a = gv.len() - 1;
                                        assert(gv[a].0 == d && gv[a].1[0] == h);
                                    }
                                }
                            }
                        }
                    },
                }
            }
            q = q + 1;
        }

        proof {
            // No selected key is malformed, and the recorded hashes cover
            // exactly the cleared keys.
            assert(!spec_remove_bad(m0, account_id, *document_ids)) by {
                if spec_remove_bad(m0, account_id, *document_ids) {
                    let k = choose|k: Seq<u8>|
                        #[trigger] m0.dom().contains(k) && spec_key_selected(
                            k,
                            account_id,
                            *document_ids,
                        ) && spec_parse_fts_key(k) is None;
                    let i = choose|i: int|
                        0 <= i < entries0.len() && (#[trigger] entries0[i]).0@ == k;
                    assert(kseq.contains(k));
                    let p = choose|p: int| 0 <= p < kseq.len() && kseq[p] == k;
                }
            }
        }
        let ghost gv = spec_groups_view(groups@);
        let ghost cleared = spec_cleared_keys(m0, account_id, collection, *document_ids);
        proof {
            assert forall|rk: Seq<u8>| #[trigger] cleared.contains(rk) implies spec_groups_has(
                gv,
                account_id,
                collection,
                rk,
            ) by {
                let k = choose|k: Seq<u8>|
                    #[trigger] m0.dom().contains(k) && spec_key_selected(
                        k,
                        account_id,
                        *document_ids,
                    ) && (spec_parse_fts_key(k) matches Some(p) && spec_fts_key(
                        account_id,
                        collection,
                        p.1,
                        p.0,
                    ) == rk);
                let i = choose|i: int| 0 <= i < entries0.len() && (#[trigger] entries0[i]).0@ == k;
                assert(kseq.contains(k));
                let p = choose|p: int| 0 <= p < kseq.len() && kseq[p] == k;
            }
            assert forall|rk: Seq<u8>|
                spec_groups_has(gv, account_id, collection, rk) implies #[trigger] cleared.contains(
                rk,
            ) by {
                let (a, b) = choose|a: int, b: int|
                    0 <= a < gv.len() && 0 <= b < gv[a].1.len() && rk == spec_fts_key(
                        account_id,
                        collection,
                        gv[a].1[b],
                        gv[a].0,
                    );
                let p = choose|p: int|
                    0 <= p < kseq.len() && spec_key_selected(
                        #[trigger] kseq[p],
                        account_id,
                        *document_ids,
                    ) && spec_parse_fts_key(kseq[p]) == Some((gv[a].0, gv[a].1[b]));
            }
        }

        // Clear, in batches scoped per document.
        let mut batch = BatchBuilder::new();
        batch.with_account_id(account_id);
        batch.with_collection(collection);
        let ghost two = batch.ops@;
        proof {
            assert(spec_apply_ops(m0, two, 0, 0, 0, 0) == m0);
            assert(spec_apply_ops(m0, two, 1, 0, 0, 0) == m0);
            assert(spec_apply_ops(m0, two, 2, 0, 0, 0) == m0);
            assert(spec_ctx_account(two, 1, 0) == account_id);
            assert(spec_ctx_account(two, 2, 0) == account_id);
            assert(spec_ctx_collection(two, 2, 0) == collection);
            assert(m0.remove_keys(Set::<Seq<u8>>::empty()) =~= m0);
        }
        let ghost done: Set<Seq<u8>> = Set::empty();
        let mut done_track: Ghost<Set<Seq<u8>>> = Ghost(Set::empty());
        let ngroups = groups.len();
        let mut a: usize = 0;
        while a < ngroups
            invariant
                a <= ngroups == groups@.len(),
                gv == spec_groups_view(groups@),
                self.wf(),
                spec_apply_batch(self@, batch.ops@) == m0.remove_keys(done_track@),
                spec_ctx_account(batch.ops@, batch.ops@.len() as int, 0) == account_id,
                spec_ctx_collection(batch.ops@, batch.ops@.len() as int, 0) == collection,
                forall|rk: Seq<u8>| #[trigger] done_track@.contains(rk) <==> exists|x: int, y: int|
                    0 <= x < a && 0 <= y < gv[x].1.len() && rk == spec_fts_key(
                        account_id,
                        collection,
                        gv[x].1[y],
                        gv[x].0,
                    ),
            decreases ngroups - a,
        {
            let doc = groups[a].0;
            let ghost ops_bd = batch.ops@;
            batch.update_document(doc);
            proof {
                crate::batch::lemma_ops_prefix(self@, ops_bd, batch.ops@, ops_bd.len() as int);
            }
            let nh = groups[a].1.len();
            let mut b: usize = 0;
            while b < nh
                invariant
                    b <= nh == gv[a as int].1.len(),
                    a < ngroups == groups@.len(),
                    gv == spec_groups_view(groups@),
                    doc == gv[a as int].0,
                    self.wf(),
                    spec_apply_batch(self@, batch.ops@) == m0.remove_keys(done_track@),
                    spec_ctx_account(batch.ops@, batch.ops@.len() as int, 0) == account_id,
                    spec_ctx_collection(batch.ops@, batch.ops@.len() as int, 0) == collection,
                    spec_ctx_document(batch.ops@, batch.ops@.len() as int, 0) == doc,
                    forall|rk: Seq<u8>| #[trigger] done_track@.contains(rk) <==> exists|
                        x: int,
                        y: int,
                    |
                        0 <= x < ngroups && (x < a || (x == a && y < b)) && 0 <= y < gv[x].1.len()
                            && rk == spec_fts_key(
                            account_id,
                            collection,
                            gv[x].1[y],
                            gv[x].0,
                        ),
                decreases nh - b,
            {
                if batch.len() >= BATCH_FLUSH_LIMIT {
                    let built = batch.build();
                    let _ = self.write(built);
                    batch = BatchBuilder::new();
                    batch.with_account_id(account_id);
                    batch.with_collection(collection);
                    batch.update_document(doc);
                    proof {
                        crate::index::lemma_header_batch(
                            self@,
                            batch.ops@,
                            account_id,
                            collection,
                            doc,
                        );
                    }
                }
                let h = groups[a].1[b];
                let ghost ops_old = batch.ops@;
                batch.push_op(
                    Operation::Value { class: ValueClass::FtsIndex(h), op: ValueOp::Clear },
                );
                proof {
                    crate::batch::lemma_ops_prefix(self@, ops_old, batch.ops@, ops_old.len() as int);
                    let rk = spec_fts_key(account_id, collection, h, doc);
                    lemma_remove_keys_step(m0, done_track@, rk);
                    assert(spec_apply_ops(self@, batch.ops@, batch.ops@.len() as int, 0, 0, 0)
                        == m0.remove_keys(done_track@).remove(rk));
                }
                proof {
                    let ghost old_done = done_track@;
                    done_track@ = done_track@.insert(spec_fts_key(account_id, collection, h, doc));
                }
                b = b + 1;
            }
            a = a + 1;
        }
        proof {
            assert(done_track@ =~= cleared);
        }
        if !batch.is_empty() {
            let built = batch.build();
            let _ = self.write(built);
        } else {
            proof {
                crate::batch::lemma_apply_ops_no_value(self@, batch.ops@, batch.ops@.len() as int);
            }
        }
        Ok(())
    }

    /// Intentionally a no-op: the term index shares the document key range,
    /// which the account-wide deletion path sweeps as a whole.
    pub fn fts_remove_all(&mut self, account_id: u32) -> (r: Result<(), Error>)
        ensures
            r is Ok,
            *final(self) == *old(self),
    {
        let _ = account_id;
        Ok(())
    }
}

} // verus!

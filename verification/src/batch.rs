//! Batched store operations.
//!
//! A batch is a stream of operations: scope headers naming the account,
//! collection and document, followed by value operations on posting keys.
//! The pipeline flushes a batch whenever it holds `BATCH_FLUSH_LIMIT`
//! operations and seeds the next one with the same scope headers.

use vstd::prelude::*;

use crate::hash::BitmapHash;
use crate::keys::spec_fts_key;

verus! {

/// Number of buffered operations that triggers a flush.
pub const BATCH_FLUSH_LIMIT: usize = 1000;

/// What a value operation does to its key.
#[derive(Debug, Clone, PartialEq, Eq)]
pub enum ValueOp {
    /// Store these bytes under the key.
    Put(Vec<u8>),
    /// Remove the key.
    Clear,
}

/// The key class a value operation addresses.
#[derive(Debug, Clone, Copy, PartialEq, Eq, Structural)]
pub enum ValueClass {
    /// A posting of the term index, keyed by its token hash.
    FtsIndex(BitmapHash),
}

/// One operation of a batch.
#[derive(Debug, Clone, PartialEq, Eq)]
pub enum Operation {
    /// Scope header: the account the following operations belong to.
    AccountId(u32),
    /// Scope header: the collection.
    Collection(u8),
    /// Scope header: the document.
    DocumentId(u32),
    /// A value operation under the current scope.
    Value {
        /// The key class.
        class: ValueClass,
        /// What to do at that key.
        op: ValueOp,
    },
}

/// A finished batch, ready for `Store::write`.
#[derive(Debug, Clone, PartialEq, Eq)]
pub struct Batch {
    /// The operations, in order.
    pub ops: Vec<Operation>,
}

/// Accumulates operations for one batch.
#[derive(Debug)]
pub struct BatchBuilder {
    /// The operations buffered so far.
    pub ops: Vec<Operation>,
}

impl BatchBuilder {
    /// An empty builder.
    pub fn new() -> (r: BatchBuilder)
        ensures
            r.ops@.len() == 0,
    {
        BatchBuilder { ops: Vec::new() }
    }

    /// Emits the account scope header.
    pub fn with_account_id(&mut self, account_id: u32)
        ensures
            final(self).ops@ == old(self).ops@.push(Operation::AccountId(account_id)),
    {
        self.ops.push(Operation::AccountId(account_id));
    }

    /// Emits the collection scope header.
    pub fn with_collection(&mut self, collection: u8)
        ensures
            final(self).ops@ == old(self).ops@.push(Operation::Collection(collection)),
    {
        self.ops.push(Operation::Collection(collection));
    }

    /// Emits the document scope header.
    pub fn update_document(&mut self, document_id: u32)
        ensures
            final(self).ops@ == old(self).ops@.push(Operation::DocumentId(document_id)),
    {
        self.ops.push(Operation::DocumentId(document_id));
    }

    /// Number of buffered operations.
    pub fn len(&self) -> (r: usize)
        ensures
            r == self.ops@.len(),
    {
        self.ops.len()
    }

    /// Appends a value operation.
    pub fn push_op(&mut self, op: Operation)
        ensures
            final(self).ops@ == old(self).ops@.push(op),
    {
        self.ops.push(op);
    }

    /// A builder with no value operation buffered carries nothing worth
    /// writing.
    pub fn is_empty(&self) -> (r: bool)
        ensures
            r == !spec_has_value_op(self.ops@),
    {
        let mut i: usize = 0;
        while i < self.ops.len()
            invariant
                i <= self.ops@.len(),
                forall|k: int| 0 <= k < i ==> !((#[trigger] self.ops@[k]) is Value),
            decreases self.ops@.len() - i,
        {
            match &self.ops[i] {
                Operation::Value { .. } => {
                    return false;
                },
                _ => {},
            }
            i = i + 1;
        }
        true
    }

    /// Finishes the batch.
    pub fn build(self) -> (r: Batch)
        ensures
            r.ops@ == self.ops@,
    {
        Batch { ops: self.ops }
    }
}

/// Whether any operation of the stream is a value operation.
pub open spec fn spec_has_value_op(ops: Seq<Operation>) -> bool {
    exists|k: int| 0 <= k < ops.len() && (#[trigger] ops[k]) is Value
}

/// The effect of the operations `ops[0..n]` on a key-value map, threading
/// the scope headers.
pub open spec fn spec_apply_ops(
    m: Map<Seq<u8>, Seq<u8>>,
    ops: Seq<Operation>,
    n: int,
    account: u32,
    collection: u8,
    document: u32,
) -> Map<Seq<u8>, Seq<u8>>
    decreases n,
{
    if n <= 0 {
        m
    } else {
        let prev = spec_apply_ops(m, ops, n - 1, account, collection, document);
        let a = spec_ctx_account(ops, n - 1, account);
        let c = spec_ctx_collection(ops, n - 1, collection);
        let d = spec_ctx_document(ops, n - 1, document);
        match ops[n - 1] {
            Operation::Value { class: ValueClass::FtsIndex(h), op: ValueOp::Put(v) } => prev.insert(
                spec_fts_key(a, c, h, d),
                v@,
            ),
            Operation::Value { class: ValueClass::FtsIndex(h), op: ValueOp::Clear } => prev.remove(
                spec_fts_key(a, c, h, d),
            ),
            _ => prev,
        }
    }
}

/// The account scope in force just before operation `n`.
pub open spec fn spec_ctx_account(ops: Seq<Operation>, n: int, account: u32) -> u32
    decreases n,
{
    if n <= 0 {
        account
    } else {
        match ops[n - 1] {
            Operation::AccountId(a) => a,
            _ => spec_ctx_account(ops, n - 1, account),
        }
    }
}

/// The collection scope in force just before operation `n`.
pub open spec fn spec_ctx_collection(ops: Seq<Operation>, n: int, collection: u8) -> u8
    decreases n,
{
    if n <= 0 {
        collection
    } else {
        match ops[n - 1] {
            Operation::Collection(c) => c,
            _ => spec_ctx_collection(ops, n - 1, collection),
        }
    }
}

/// The document scope in force just before operation `n`.
pub open spec fn spec_ctx_document(ops: Seq<Operation>, n: int, document: u32) -> u32
    decreases n,
{
    if n <= 0 {
        document
    } else {
        match ops[n - 1] {
            Operation::DocumentId(d) => d,
            _ => spec_ctx_document(ops, n - 1, document),
        }
    }
}

/// The effect of a whole batch on a key-value map, with zeroed initial
/// scope.
pub open spec fn spec_apply_batch(m: Map<Seq<u8>, Seq<u8>>, ops: Seq<Operation>) -> Map<
    Seq<u8>,
    Seq<u8>,
> {
    spec_apply_ops(m, ops, ops.len() as int, 0, 0, 0)
}

/// The effect of a sequence of batches, in order.
pub open spec fn spec_apply_batches(m: Map<Seq<u8>, Seq<u8>>, batches: Seq<Batch>, n: int) -> Map<
    Seq<u8>,
    Seq<u8>,
>
    decreases n,
{
    if n <= 0 {
        m
    } else {
        spec_apply_batch(spec_apply_batches(m, batches, n - 1), batches[n - 1].ops@)
    }
}


/// `spec_apply_ops` and the scope functions read only the first `n`
/// operations.
pub proof fn lemma_ops_prefix(
    m: Map<Seq<u8>, Seq<u8>>,
    ops1: Seq<Operation>,
    ops2: Seq<Operation>,
    n: int,
)
    requires
        0 <= n <= ops1.len(),
        n <= ops2.len(),
        forall|j: int| 0 <= j < n ==> ops1[j] == ops2[j],
    ensures
        spec_apply_ops(m, ops1, n, 0, 0, 0) == spec_apply_ops(m, ops2, n, 0, 0, 0),
        spec_ctx_account(ops1, n, 0) == spec_ctx_account(ops2, n, 0),
        spec_ctx_collection(ops1, n, 0) == spec_ctx_collection(ops2, n, 0),
        spec_ctx_document(ops1, n, 0) == spec_ctx_document(ops2, n, 0),
    decreases n,
{
    if n > 0 {
        lemma_ops_prefix(m, ops1, ops2, n - 1);
    }
}

/// A stream without value operations leaves the map unchanged.
pub proof fn lemma_apply_ops_no_value(
    m: Map<Seq<u8>, Seq<u8>>,
    ops: Seq<Operation>,
    n: int,
)
    requires
        0 <= n <= ops.len(),
        !spec_has_value_op(ops),
    ensures
        spec_apply_ops(m, ops, n, 0, 0, 0) == m,
    decreases n,
{
    if n > 0 {
        lemma_apply_ops_no_value(m, ops, n - 1);
        assert(!(ops[n - 1] is Value));
    }
}

} // verus!

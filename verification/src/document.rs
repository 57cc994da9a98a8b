//! The transient document handed to the indexing pipeline.
//!
//! A caller builds an `FtsDocument` out of parts — plain text with a
//! language, pre-tokenized text, or a single keyword — and hands it to
//! `Store::fts_index`, which consumes it.

use vstd::prelude::*;

use crate::language::Language;

verus! {

/// Where a token came from within the document.
#[derive(Debug, Clone, Copy, PartialEq, Eq, Hash, Structural)]
pub enum Field {
    /// The message body.
    Body,
    /// An attachment.
    Attachment,
    /// A keyword slot.
    Keyword,
    /// A header, by caller-supplied header identifier.
    Header(u8),
}

impl Field {
    /// A field is valid when a header identifier leaves room in the one-byte
    /// encoding.
    pub open spec fn wf(self) -> bool {
        match self {
            Field::Header(h) => h < 253,
            _ => true,
        }
    }

    /// The one-byte field identifier.
    pub open spec fn spec_id(self) -> u8 {
        match self {
            Field::Body => 0,
            Field::Attachment => 1,
            Field::Keyword => 2,
            Field::Header(h) => (3 + h) as u8,
        }
    }

    /// Collapses the field to its one-byte identifier.
    pub fn id(&self) -> (r: u8)
        requires
            self.wf(),
        ensures
            r == self.spec_id(),
    {
        match self {
            Field::Body => 0,
            Field::Attachment => 1,
            Field::Keyword => 2,
            Field::Header(h) => 3 + *h,
        }
    }
}

/// How a part's text is to be processed.
#[derive(Debug, Clone, Copy, PartialEq, Eq, Structural)]
pub enum Type {
    /// Natural-language text: tokenized and stemmed under the given
    /// language, detection deciding when it is `Unknown`.
    Text(Language),
    /// Pre-structured text: tokenized, never stemmed.
    Tokenize,
    /// A single keyword stored verbatim, with no position.
    Keyword,
}

/// One part of a document.
#[derive(Debug, Clone, PartialEq, Eq)]
pub struct Text {
    /// The field the part belongs to.
    pub field: Field,
    /// The part's text.
    pub text: String,
    /// How the text is to be processed.
    pub typ: Type,
}

/// A document under construction: parts in insertion order plus the keys
/// under which its postings will be stored.
#[derive(Debug)]
pub struct FtsDocument {
    /// The parts, in the order the caller appended them.
    pub parts: Vec<Text>,
    /// The language assumed when neither a part nor detection settles one.
    pub default_language: Language,
    /// The owning account.
    pub account_id: u32,
    /// The collection within the account.
    pub collection: u8,
    /// The document identifier within the collection.
    pub document_id: u32,
}

impl FtsDocument {
    /// All fields of all parts are valid.
    pub open spec fn wf(self) -> bool {
        forall|i: int| 0 <= i < self.parts@.len() ==> (#[trigger] self.parts@[i]).field.wf()
    }

    /// Starts a document with the given fallback language and zeroed keys.
    pub fn with_default_language(default_language: Language) -> (r: FtsDocument)
        ensures
            r.parts@.len() == 0,
            r.default_language == default_language,
            r.account_id == 0,
            r.collection == 0,
            r.document_id == 0,
            r.wf(),
    {
        FtsDocument {
            parts: Vec::new(),
            default_language,
            account_id: 0,
            document_id: 0,
            collection: 0,
        }
    }

    /// Sets the owning account.
    pub fn with_account_id(self, account_id: u32) -> (r: FtsDocument)
        ensures
            r == (FtsDocument { account_id, ..self }),
    {
        FtsDocument { account_id, ..self }
    }

    /// Sets the document identifier.
    pub fn with_document_id(self, document_id: u32) -> (r: FtsDocument)
        ensures
            r == (FtsDocument { document_id, ..self }),
    {
        FtsDocument { document_id, ..self }
    }

    /// Sets the collection.
    pub fn with_collection(self, collection: u8) -> (r: FtsDocument)
        ensures
            r == (FtsDocument { collection, ..self }),
    {
        FtsDocument { collection, ..self }
    }

    /// Appends a natural-language text part.
    pub fn index(&mut self, field: Field, text: String, language: Language)
        requires
            field.wf(),
        ensures
            final(self).parts@ == old(self).parts@.push(
                Text { field, text, typ: Type::Text(language) },
            ),
            final(self).default_language == old(self).default_language,
            final(self).account_id == old(self).account_id,
            final(self).collection == old(self).collection,
            final(self).document_id == old(self).document_id,
            old(self).wf() ==> final(self).wf(),
    {
        self.parts.push(Text { field, text, typ: Type::Text(language) });
    }

    /// Appends a pre-tokenized text part.
    pub fn index_tokenized(&mut self, field: Field, text: String)
        requires
            field.wf(),
        ensures
            final(self).parts@ == old(self).parts@.push(Text { field, text, typ: Type::Tokenize }),
            final(self).default_language == old(self).default_language,
            final(self).account_id == old(self).account_id,
            final(self).collection == old(self).collection,
            final(self).document_id == old(self).document_id,
            old(self).wf() ==> final(self).wf(),
    {
        self.parts.push(Text { field, text, typ: Type::Tokenize });
    }

    /// Appends a keyword part.
    pub fn index_keyword(&mut self, field: Field, text: String)
        requires
            field.wf(),
        ensures
            final(self).parts@ == old(self).parts@.push(Text { field, text, typ: Type::Keyword }),
            final(self).default_language == old(self).default_language,
            final(self).account_id == old(self).account_id,
            final(self).collection == old(self).collection,
            final(self).document_id == old(self).document_id,
            old(self).wf() ==> final(self).wf(),
    {
        self.parts.push(Text { field, text, typ: Type::Keyword });
    }
}

} // verus!

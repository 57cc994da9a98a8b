//! The indexing pipeline.
//!
//! `Store::fts_index` consumes an `FtsDocument` and makes every token
//! posting of the document visible in the store. It runs in two passes:
//! pre-tokenized and keyword parts are folded into the token map first,
//! while natural-language parts wait for the document-level language
//! reconciliation and are stemmed in a second pass. A single position
//! counter spans both passes, bumped by `PART_POSITION_GAP` between parts so
//! that phrase queries cannot match across a part boundary.

use vstd::prelude::*;

use crate::batch::{
    spec_apply_batch, spec_apply_ops, spec_ctx_account, spec_ctx_collection, spec_ctx_document,
    BatchBuilder, Operation, ValueClass, ValueOp, BATCH_FLUSH_LIMIT,
};
use crate::detect::LanguageDetector;
use crate::document::{FtsDocument, Text, Type};
use crate::hash::{BitmapHash, TokenType};
use crate::keys::{serialize_fts_key, spec_fts_key, Error};
use crate::language::Language;
use crate::postings::{spec_serialize, PostingsModel};
use crate::stem::{spec_stem_for, stem};
use crate::store::Store;
use crate::token_map::{
    spec_tm_below, spec_tm_insert, spec_tm_keyword, spec_tm_wf, TokenMap,
};
use crate::tokenize::{seq_views, spec_tokenize, tokenize, lemma_token_lengths};

verus! {

/// Positions advance by this much between parts.
pub const PART_POSITION_GAP: u32 = 10;

/// The bytes of a part's text.
pub open spec fn spec_part_bytes(p: Text) -> Seq<u8> {
    vstd::utf8::encode_utf8(p.text@)
}

/// Folds a token list into the map as word occurrences at consecutive
/// positions, as the pre-tokenized pass does.
pub open spec fn spec_add_words(
    m: Seq<(BitmapHash, PostingsModel)>,
    toks: Seq<Seq<u8>>,
    k: int,
    t: u8,
    pos: nat,
) -> (Seq<(BitmapHash, PostingsModel)>, nat)
    decreases toks.len() - k,
{
    if k < 0 || k >= toks.len() {
        (m, pos)
    } else {
        let m1 = spec_tm_insert(m, BitmapHash::spec_of(toks[k]), t, pos as u32);
        spec_add_words(m1, toks, k + 1, t, pos + 1)
    }
}

/// Folds a token list into the map as word occurrences plus stemmed keyword
/// occurrences, as the stemming pass does.
pub open spec fn spec_add_stemmed(
    m: Seq<(BitmapHash, PostingsModel)>,
    toks: Seq<Seq<u8>>,
    k: int,
    field: u8,
    lang: Language,
    pos: nat,
) -> (Seq<(BitmapHash, PostingsModel)>, nat)
    decreases toks.len() - k,
{
    if k < 0 || k >= toks.len() {
        (m, pos)
    } else {
        let m1 = spec_tm_insert(m, BitmapHash::spec_of(toks[k]), TokenType::spec_word(field), pos as u32);
        let m2 = match spec_stem_for(toks[k], lang) {
            Some(st) => spec_tm_keyword(m1, BitmapHash::spec_of(st), TokenType::spec_stemmed(field)),
            None => m1,
        };
        spec_add_stemmed(m2, toks, k + 1, field, lang, pos + 1)
    }
}

/// Map and position after the first pass has handled `parts[0..n]`.
pub open spec fn spec_pass1(parts: Seq<Text>, n: int) -> (Seq<(BitmapHash, PostingsModel)>, nat)
    decreases n,
{
    if n <= 0 {
        (Seq::empty(), 0)
    } else {
        let prev = spec_pass1(parts, n - 1);
        let part = parts[n - 1];
        match part.typ {
            Type::Text(_) => prev,
            Type::Tokenize => {
                let toks = spec_tokenize(spec_part_bytes(part));
                let step = spec_add_words(
                    prev.0,
                    toks,
                    0,
                    TokenType::spec_word(part.field.spec_id()),
                    prev.1,
                );
                (step.0, (step.1 + PART_POSITION_GAP) as nat)
            },
            Type::Keyword => {
                let bytes = spec_part_bytes(part);
                if bytes.len() >= 1 {
                    (
                        spec_tm_keyword(
                            prev.0,
                            BitmapHash::spec_of(bytes),
                            TokenType::spec_word(part.field.spec_id()),
                        ),
                        prev.1,
                    )
                } else {
                    prev
                }
            },
        }
    }
}

/// The document-level language: what the detector's majority vote would give,
/// or the document default. Every sample scores below the confidence floor
/// here, so the default always decides.
pub open spec fn spec_doc_language(doc: FtsDocument) -> Language {
    doc.default_language
}

/// The language the stemming pass uses for a part declared `lang`.
pub open spec fn spec_resolved_language(lang: Language, doc_lang: Language) -> Language {
    if lang != Language::Unknown {
        lang
    } else {
        doc_lang
    }
}

/// Map and position after the stemming pass has handled the text parts of
/// `parts[0..n]`, starting from the first pass's outcome.
pub open spec fn spec_pass2(
    parts: Seq<Text>,
    n: int,
    doc_lang: Language,
    start: (Seq<(BitmapHash, PostingsModel)>, nat),
) -> (Seq<(BitmapHash, PostingsModel)>, nat)
    decreases n,
{
    if n <= 0 {
        start
    } else {
        let prev = spec_pass2(parts, n - 1, doc_lang, start);
        let part = parts[n - 1];
        match part.typ {
            Type::Text(lang) => {
                let rl = spec_resolved_language(lang, doc_lang);
                let toks = spec_tokenize(spec_part_bytes(part));
                let step = spec_add_stemmed(prev.0, toks, 0, part.field.spec_id(), rl, prev.1);
                (step.0, (step.1 + PART_POSITION_GAP) as nat)
            },
            _ => prev,
        }
    }
}

/// The whole pipeline's token map and final position.
pub open spec fn spec_pipeline(doc: FtsDocument) -> (Seq<(BitmapHash, PostingsModel)>, nat) {
    spec_pass2(
        doc.parts@,
        doc.parts@.len() as int,
        spec_doc_language(doc),
        spec_pass1(doc.parts@, doc.parts@.len() as int),
    )
}

/// The token map the pipeline accumulates for `doc`.
pub open spec fn spec_token_map(doc: FtsDocument) -> Seq<(BitmapHash, PostingsModel)> {
    spec_pipeline(doc).0
}

/// The position counter after the whole pipeline.
pub open spec fn spec_final_position(doc: FtsDocument) -> nat {
    spec_pipeline(doc).1
}

/// The position counter stays within the position encoding.
pub open spec fn spec_positions_bounded(doc: FtsDocument) -> bool {
    spec_final_position(doc) <= u32::MAX
}

/// The store contents after writing the first `n` accumulated postings of
/// `doc`.
pub open spec fn spec_index_map(
    m: Map<Seq<u8>, Seq<u8>>,
    account: u32,
    collection: u8,
    document: u32,
    tm: Seq<(BitmapHash, PostingsModel)>,
    n: int,
) -> Map<Seq<u8>, Seq<u8>>
    decreases n,
{
    if n <= 0 {
        m
    } else {
        spec_index_map(m, account, collection, document, tm, n - 1).insert(
            spec_fts_key(account, collection, tm[n - 1].0, document),
            spec_serialize(tm[n - 1].1),
        )
    }
}

/// What `fts_index(doc)` leaves in the store.
pub open spec fn spec_fts_index(m: Map<Seq<u8>, Seq<u8>>, doc: FtsDocument) -> Map<
    Seq<u8>,
    Seq<u8>,
> {
    spec_index_map(
        m,
        doc.account_id,
        doc.collection,
        doc.document_id,
        spec_token_map(doc),
        spec_token_map(doc).len() as int,
    )
}

/// The word fold advances the position by exactly one per token.
pub proof fn lemma_add_words_pos(
    m: Seq<(BitmapHash, PostingsModel)>,
    toks: Seq<Seq<u8>>,
    k: int,
    t: u8,
    pos: nat,
)
    requires
        0 <= k <= toks.len(),
    ensures
        spec_add_words(m, toks, k, t, pos).1 == pos + toks.len() - k,
    decreases toks.len() - k,
{
    if k < toks.len() {
        lemma_add_words_pos(
            spec_tm_insert(m, BitmapHash::spec_of(toks[k]), t, pos as u32),
            toks,
            k + 1,
            t,
            pos + 1,
        );
    }
}

/// The stemming fold advances the position by exactly one per token.
pub proof fn lemma_add_stemmed_pos(
    m: Seq<(BitmapHash, PostingsModel)>,
    toks: Seq<Seq<u8>>,
    k: int,
    field: u8,
    lang: Language,
    pos: nat,
)
    requires
        0 <= k <= toks.len(),
    ensures
        spec_add_stemmed(m, toks, k, field, lang, pos).1 == pos + toks.len() - k,
    decreases toks.len() - k,
{
    if k < toks.len() {
        let m1 = spec_tm_insert(m, BitmapHash::spec_of(toks[k]), TokenType::spec_word(field), pos as u32);
        let m2 = match spec_stem_for(toks[k], lang) {
            Some(st) => spec_tm_keyword(m1, BitmapHash::spec_of(st), TokenType::spec_stemmed(field)),
            None => m1,
        };
        lemma_add_stemmed_pos(m2, toks, k + 1, field, lang, pos + 1);
    }
}

/// Positions never move backwards across first-pass steps.
pub proof fn lemma_pass1_monotone(parts: Seq<Text>, n1: int, n2: int)
    requires
        0 <= n1 <= n2 <= parts.len(),
    ensures
        spec_pass1(parts, n1).1 <= spec_pass1(parts, n2).1,
    decreases n2 - n1,
{
    if n1 < n2 {
        lemma_pass1_monotone(parts, n1, n2 - 1);
        let prev = spec_pass1(parts, n2 - 1);
        match parts[n2 - 1].typ {
            Type::Tokenize => {
                let toks = spec_tokenize(spec_part_bytes(parts[n2 - 1]));
                lemma_add_words_pos(
                    prev.0,
                    toks,
                    0,
                    TokenType::spec_word(parts[n2 - 1].field.spec_id()),
                    prev.1,
                );
            },
            _ => {},
        }
    }
}

/// Positions never move backwards across stemming-pass steps.
pub proof fn lemma_pass2_monotone(
    parts: Seq<Text>,
    n1: int,
    n2: int,
    doc_lang: Language,
    start: (Seq<(BitmapHash, PostingsModel)>, nat),
)
    requires
        0 <= n1 <= n2 <= parts.len(),
    ensures
        spec_pass2(parts, n1, doc_lang, start).1 <= spec_pass2(parts, n2, doc_lang, start).1,
    decreases n2 - n1,
{
    if n1 < n2 {
        lemma_pass2_monotone(parts, n1, n2 - 1, doc_lang, start);
        let prev = spec_pass2(parts, n2 - 1, doc_lang, start);
        match parts[n2 - 1].typ {
            Type::Text(lang) => {
                let toks = spec_tokenize(spec_part_bytes(parts[n2 - 1]));
                lemma_add_stemmed_pos(
                    prev.0,
                    toks,
                    0,
                    parts[n2 - 1].field.spec_id(),
                    spec_resolved_language(lang, doc_lang),
                    prev.1,
                );
            },
            _ => {},
        }
    }
}


impl Store {
    /// Indexes `document`: tokenizes, stems and accumulates its parts, then
    /// writes one posting per distinct token under the document's keys, in
    /// batches of at most `BATCH_FLUSH_LIMIT` operations.
    ///
    /// Succeeds exactly when the document's position counter stays within
    /// the position encoding; a document too large to number leaves the
    /// store untouched. A document without any token performs no write at
    /// all.
    pub fn fts_index(&mut self, document: FtsDocument) -> (r: Result<(), Error>)
        requires
            old(self).wf(),
            document.wf(),
        ensures
            final(self).wf(),
            r is Ok <==> spec_positions_bounded(document),
            r is Ok ==> final(self)@ == spec_fts_index(old(self)@, document),
            r is Err ==> final(self)@ == old(self)@ && final(self).writes == old(self).writes
                && (r matches Err(e) && e == Error::DocumentTooLarge),
            spec_token_map(document).len() == 0 ==> final(self)@ == old(self)@
                && final(self).writes == old(self).writes,
    {
        let ghost parts = document.parts@;
        let nparts = document.parts.len();
        let mut detect = LanguageDetector::new();
        let mut tokens = TokenMap::new();
        let mut position: u32 = 0;

        // First pass: pre-tokenized and keyword parts; language samples for
        // unresolved text parts.
        let mut i: usize = 0;
        while i < nparts
            invariant
                i <= nparts == parts.len(),
                document.parts@ == parts,
                document.wf(),
                spec_tm_wf(tokens@),
                spec_tm_below(tokens@, position as int),
                tokens@ == spec_pass1(parts, i as int).0,
                position as nat == spec_pass1(parts, i as int).1,
                self == old(self),
                old(self).wf(),
            decreases nparts - i,
        {
            let part = &document.parts[i];
            assert(parts[i as int].field.wf());
            match &part.typ {
                Type::Text(language) => {
                    if *language == Language::Unknown {
                        let _ = detect.detect(part.text.as_str());
                    }
                },
                Type::Tokenize => {
                    let field = part.field.id();
                    let t = TokenType::word(field);
                    let bytes = part.text.as_str().as_bytes();
                    let toks = tokenize(bytes);
                    let ghost tokspec = spec_tokenize(spec_part_bytes(parts[i as int]));
                    proof {
                        assert(bytes@ == spec_part_bytes(parts[i as int]));
                        lemma_token_lengths(bytes@, 0, Seq::empty());
                        lemma_add_words_pos(tokens@, tokspec, 0, t, position as nat);
                    }
                    let ghost m_start = tokens@;
                    let ghost pos_start = position as nat;
                    let mut j: usize = 0;
                    while j < toks.len()
                        invariant
                            j <= toks@.len(),
                            seq_views(toks@) == tokspec,
                            forall|q: int|
                                0 <= q < tokspec.len() ==> 1 <= (#[trigger] tokspec[q]).len()
                                    <= crate::hash::MAX_TOKEN_LENGTH,
                            spec_tm_wf(tokens@),
                            spec_tm_below(tokens@, position as int),
                            position as nat == pos_start + j,
                            spec_add_words(m_start, tokspec, 0, t, pos_start) == spec_add_words(
                                tokens@,
                                tokspec,
                                j as int,
                                t,
                                position as nat,
                            ),
                            document.parts@ == parts,
                            i < parts.len(),
                            parts[i as int].typ is Tokenize,
                            t == TokenType::spec_word(parts[i as int].field.spec_id()),
                            tokspec == spec_tokenize(spec_part_bytes(parts[i as int])),
                            m_start == spec_pass1(parts, i as int).0,
                            pos_start == spec_pass1(parts, i as int).1,
                            self == old(self),
                            old(self).wf(),
                        decreases toks@.len() - j,
                    {
                        let tok = &toks[j];
                        proof {
                            assert(tok@ == seq_views(toks@)[j as int]);
                        }
                        let h = BitmapHash::new(tok.as_slice());
                        let ghost m_before = tokens@;
                        tokens.insert(h, t, position);
                        proof {
                            assert(spec_add_words(m_before, tokspec, j as int, t, position as nat)
                                == spec_add_words(tokens@, tokspec, j + 1, t, position as nat + 1));
                        }
                        position = match position.checked_add(1) {
                            Some(p) => p,
                            None => {
                                proof {
                                    lemma_add_words_pos(m_start, tokspec, 0, t, pos_start);
                                    assert(spec_pass1(parts, i + 1).1 > u32::MAX);
                                    lemma_pass1_monotone(parts, i + 1, parts.len() as int);
                                    lemma_pass2_monotone(
                                        parts,
                                        0,
                                        parts.len() as int,
                                        spec_doc_language(document),
                                        spec_pass1(parts, parts.len() as int),
                                    );
                                }
                                return Err(Error::DocumentTooLarge);
                            },
                        };
                        j = j + 1;
                    }
                    proof {
                        lemma_add_words_pos(m_start, tokspec, 0, t, pos_start);
                    }
                    position = match position.checked_add(PART_POSITION_GAP) {
                        Some(p) => p,
                        None => {
                            proof {
                                assert(spec_pass1(parts, i + 1).1 > u32::MAX);
                                lemma_pass1_monotone(parts, i + 1, parts.len() as int);
                                lemma_pass2_monotone(
                                    parts,
                                    0,
                                    parts.len() as int,
                                    spec_doc_language(document),
                                    spec_pass1(parts, parts.len() as int),
                                );
                            }
                            return Err(Error::DocumentTooLarge);
                        },
                    };
                    proof {
                        assert(tokens@ == spec_pass1(parts, i + 1).0);
                        assert(position as nat == spec_pass1(parts, i + 1).1);
                    }
                },
                Type::Keyword => {
                    let field = part.field.id();
                    let t = TokenType::word(field);
                    let bytes = part.text.as_str().as_bytes();
                    proof {
                        assert(bytes@ == spec_part_bytes(parts[i as int]));
                    }
                    if bytes.len() >= 1 {
                        let h = BitmapHash::new(bytes);
                        tokens.insert_keyword(h, t);
                    }
                },
            }
            i = i + 1;
        }

        // Document-level language reconciliation.
        let doc_language = match detect.most_frequent_language() {
            Some(l) => l,
            None => document.default_language,
        };
        assert(doc_language == spec_doc_language(document));
        let ghost start = spec_pass1(parts, parts.len() as int);

        // Second pass: text parts, with stemming under the resolved
        // language.
        let mut i: usize = 0;
        while i < nparts
            invariant
                i <= nparts == parts.len(),
                document.parts@ == parts,
                document.wf(),
                doc_language == spec_doc_language(document),
                start == spec_pass1(parts, parts.len() as int),
                spec_tm_wf(tokens@),
                spec_tm_below(tokens@, position as int),
                tokens@ == spec_pass2(parts, i as int, doc_language, start).0,
                position as nat == spec_pass2(parts, i as int, doc_language, start).1,
                self == old(self),
                old(self).wf(),
            decreases nparts - i,
        {
            let part = &document.parts[i];
            assert(parts[i as int].field.wf());
            match &part.typ {
                Type::Text(language) => {
                    let resolved = if *language != Language::Unknown {
                        *language
                    } else {
                        doc_language
                    };
                    let field = part.field.id();
                    let t = TokenType::word(field);
                    let ts = TokenType::stemmed(field);
                    let bytes = part.text.as_str().as_bytes();
                    let toks = tokenize(bytes);
                    let ghost tokspec = spec_tokenize(spec_part_bytes(parts[i as int]));
                    proof {
                        assert(bytes@ == spec_part_bytes(parts[i as int]));
                        lemma_token_lengths(bytes@, 0, Seq::empty());
                    }
                    let ghost m_start = tokens@;
                    let ghost pos_start = position as nat;
                    let mut j: usize = 0;
                    while j < toks.len()
                        invariant
                            j <= toks@.len(),
                            seq_views(toks@) == tokspec,
                            forall|q: int|
                                0 <= q < tokspec.len() ==> 1 <= (#[trigger] tokspec[q]).len()
                                    <= crate::hash::MAX_TOKEN_LENGTH,
                            spec_tm_wf(tokens@),
                            spec_tm_below(tokens@, position as int),
                            position as nat == pos_start + j,
                            spec_add_stemmed(m_start, tokspec, 0, field, resolved, pos_start)
                                == spec_add_stemmed(
                                tokens@,
                                tokspec,
                                j as int,
                                field,
                                resolved,
                                position as nat,
                            ),
                            document.parts@ == parts,
                            i < parts.len(),
                            parts[i as int].typ matches Type::Text(lg) && resolved
                                == spec_resolved_language(lg, doc_language),
                            field == parts[i as int].field.spec_id(),
                            t == TokenType::spec_word(field),
                            ts == TokenType::spec_stemmed(field),
                            tokspec == spec_tokenize(spec_part_bytes(parts[i as int])),
                            doc_language == spec_doc_language(document),
                            start == spec_pass1(parts, parts.len() as int),
                            m_start == spec_pass2(parts, i as int, doc_language, start).0,
                            pos_start == spec_pass2(parts, i as int, doc_language, start).1,
                            self == old(self),
                            old(self).wf(),
                        decreases toks@.len() - j,
                    {
                        let tok = &toks[j];
                        proof {
                            assert(tok@ == seq_views(toks@)[j as int]);
                        }
                        let h = BitmapHash::new(tok.as_slice());
                        let ghost m_before = tokens@;
                        tokens.insert(h, t, position);
                        match stem(tok, resolved) {
                            Some(st) => {
                                let hs = BitmapHash::new(st.as_slice());
                                tokens.insert_keyword(hs, ts);
                            },
                            None => {},
                        }
                        proof {
                            assert(spec_add_stemmed(
                                m_before,
                                tokspec,
                                j as int,
                                field,
                                resolved,
                                position as nat,
                            ) == spec_add_stemmed(
                                tokens@,
                                tokspec,
                                j + 1,
                                field,
                                resolved,
                                position as nat + 1,
                            ));
                        }
                        position = match position.checked_add(1) {
                            Some(p) => p,
                            None => {
                                proof {
                                    lemma_add_stemmed_pos(
                                        m_start,
                                        tokspec,
                                        0,
                                        field,
                                        resolved,
                                        pos_start,
                                    );
                                    assert(spec_pass2(parts, i + 1, doc_language, start).1
                                        > u32::MAX);
                                    lemma_pass2_monotone(
                                        parts,
                                        i + 1,
                                        parts.len() as int,
                                        doc_language,
                                        start,
                                    );
                                }
                                return Err(Error::DocumentTooLarge);
                            },
                        };
                        j = j + 1;
                    }
                    proof {
                        lemma_add_stemmed_pos(m_start, tokspec, 0, field, resolved, pos_start);
                    }
                    position = match position.checked_add(PART_POSITION_GAP) {
                        Some(p) => p,
                        None => {
                            proof {
                                assert(spec_pass2(parts, i + 1, doc_language, start).1 > u32::MAX);
                                lemma_pass2_monotone(
                                    parts,
                                    i + 1,
                                    parts.len() as int,
                                    doc_language,
                                    start,
                                );
                            }
                            return Err(Error::DocumentTooLarge);
                        },
                    };
                    proof {
                        assert(tokens@ == spec_pass2(parts, i + 1, doc_language, start).0);
                        assert(position as nat == spec_pass2(parts, i + 1, doc_language, start).1);
                    }
                },
                _ => {},
            }
            i = i + 1;
        }

        let ghost tm = spec_token_map(document);
        proof {
            assert(tokens@ == tm);
            assert(spec_positions_bounded(document));
        }
        if tokens.len() == 0 {
            proof {
                assert(tm.len() == 0);
                assert(spec_fts_index(old(self)@, document) == old(self)@);
            }
            return Ok(());
        }

        // Serialize and commit, flushing every BATCH_FLUSH_LIMIT operations.
        let account_id = document.account_id;
        let collection = document.collection;
        let document_id = document.document_id;
        let ghost m0 = self@;
        let mut batch = BatchBuilder::new();
        batch.with_account_id(account_id);
        batch.with_collection(collection);
        batch.update_document(document_id);
        proof {
            lemma_header_batch(self@, batch.ops@, account_id, collection, document_id);
        }
        let total = tokens.len();
        let mut k: usize = 0;
        while k < total
            invariant
                k <= total == tm.len(),
                tokens@ == tm,
                spec_tm_wf(tm),
                self.wf(),
                spec_apply_batch(self@, batch.ops@) == spec_index_map(
                    m0,
                    account_id,
                    collection,
                    document_id,
                    tm,
                    k as int,
                ),
                spec_ctx_account(batch.ops@, batch.ops@.len() as int, 0) == account_id,
                spec_ctx_collection(batch.ops@, batch.ops@.len() as int, 0) == collection,
                spec_ctx_document(batch.ops@, batch.ops@.len() as int, 0) == document_id,
            decreases total - k,
        {
            if batch.len() >= BATCH_FLUSH_LIMIT {
                let b = batch.build();
                let _ = self.write(b);
                batch = BatchBuilder::new();
                batch.with_account_id(account_id);
                batch.with_collection(collection);
                batch.update_document(document_id);
                proof {
                    lemma_header_batch(self@, batch.ops@, account_id, collection, document_id);
                }
            }
            proof {
                assert(tm[k as int] == (tokens.entries@[k as int].0, tokens.entries@[k as int].1@));
                assert(tokens.entries@[k as int].1@.wf());
                assert(tokens.entries@[k as int].0.wf());
            }
            let value = tokens.entries[k].1.serialize();
            let h = tokens.entries[k].0;
            let ghost ops_old = batch.ops@;
            let ghost store_now = self@;
            batch.push_op(Operation::Value { class: ValueClass::FtsIndex(h), op: ValueOp::Put(value) });
            proof {
                crate::batch::lemma_ops_prefix(store_now, ops_old, batch.ops@, ops_old.len() as int);
                assert(spec_apply_ops(store_now, batch.ops@, batch.ops@.len() as int, 0, 0, 0)
                    == spec_apply_ops(store_now, ops_old, ops_old.len() as int, 0, 0, 0).insert(
                    spec_fts_key(account_id, collection, h, document_id),
                    spec_serialize(tm[k as int].1),
                ));
            }
            k = k + 1;
        }
        if !batch.is_empty() {
            let b = batch.build();
            let _ = self.write(b);
        } else {
            proof {
                crate::batch::lemma_apply_ops_no_value(self@, batch.ops@, batch.ops@.len() as int);
            }
        }
        proof {
            assert(self@ == spec_fts_index(m0, document));
        }
        Ok(())
    }
}

/// A fresh batch holding exactly the three scope headers: applying it
/// changes nothing, and it leaves the scope set to the three values.
pub proof fn lemma_header_batch(
    m: Map<Seq<u8>, Seq<u8>>,
    ops: Seq<Operation>,
    account: u32,
    collection: u8,
    document: u32,
)
    requires
        ops.len() == 3,
        ops[0] == Operation::AccountId(account),
        ops[1] == Operation::Collection(collection),
        ops[2] == Operation::DocumentId(document),
    ensures
        spec_apply_batch(m, ops) == m,
        spec_ctx_account(ops, 3, 0) == account,
        spec_ctx_collection(ops, 3, 0) == collection,
        spec_ctx_document(ops, 3, 0) == document,
{
    assert(spec_apply_ops(m, ops, 0, 0, 0, 0) == m);
    assert(spec_apply_ops(m, ops, 1, 0, 0, 0) == m);
    assert(spec_apply_ops(m, ops, 2, 0, 0, 0) == m);
    assert(spec_apply_ops(m, ops, 3, 0, 0, 0) == m);
    assert(spec_ctx_account(ops, 1, 0) == account);
    assert(spec_ctx_account(ops, 2, 0) == account);
    assert(spec_ctx_account(ops, 3, 0) == account);
    assert(spec_ctx_collection(ops, 2, 0) == collection);
    assert(spec_ctx_collection(ops, 3, 0) == collection);
    assert(spec_ctx_document(ops, 3, 0) == document);
}

} // verus!

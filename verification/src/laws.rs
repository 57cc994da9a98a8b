//! Laws of the indexing pipeline and the removal scanner, stated over the
//! same specification functions the executable contracts use.

use vstd::prelude::*;

use crate::document::{FtsDocument, Type};
use crate::hash::{BitmapHash, TokenType};
use crate::index::{
    lemma_add_stemmed_pos, lemma_add_words_pos, lemma_pass1_monotone, lemma_pass2_monotone,
    spec_add_stemmed, spec_add_words, spec_part_bytes, spec_pass1, spec_pass2, spec_doc_language,
};
use crate::postings::{spec_find_group, PostingsModel};
use crate::token_map::{
    lemma_tm_find, spec_tm_below, spec_tm_find, spec_tm_insert, spec_tm_keyword, spec_tm_wf,
};
use crate::remove::{spec_cleared_keys, spec_fts_remove, spec_key_selected, DocumentSet};
use crate::tokenize::spec_tokenize;

verus! {

/// Removing a document set twice leaves the store as removing it once
/// does: the second scan finds no posting of the selected documents that
/// the first did not already clear, and clearing an absent key changes
/// nothing.
pub proof fn lemma_fts_remove_idempotent<S: DocumentSet>(
    m: Map<Seq<u8>, Seq<u8>>,
    account: u32,
    collection: u8,
    dset: S,
)
    ensures
        spec_fts_remove(spec_fts_remove(m, account, collection, dset), account, collection, dset)
            == spec_fts_remove(m, account, collection, dset),
{
    let c1 = spec_cleared_keys(m, account, collection, dset);
    let m1 = spec_fts_remove(m, account, collection, dset);
    let c2 = spec_cleared_keys(m1, account, collection, dset);
    assert forall|rk: Seq<u8>| #[trigger] c2.contains(rk) implies c1.contains(rk) by {
        let k = choose|k: Seq<u8>|
            #[trigger] m1.dom().contains(k) && spec_key_selected(k, account, dset) && (
            crate::keys::spec_parse_fts_key(k) matches Some(p) && crate::keys::spec_fts_key(
                account,
                collection,
                p.1,
                p.0,
            ) == rk);
        assert(m.dom().contains(k));
    }
    assert(m1.remove_keys(c2) =~= m1);
}

/// The words of a pre-tokenized part take consecutive positions from the
/// part's starting counter, and a later pre-tokenized part starts at least
/// the inter-part gap past the end of an earlier one: a phrase can never
/// match across a part boundary.
pub proof fn lemma_inter_part_gap(parts: Seq<crate::document::Text>, i1: int, i2: int)
    requires
        0 <= i1 < i2 < parts.len(),
        parts[i1].typ is Tokenize,
        parts[i2].typ is Tokenize,
        spec_tokenize(spec_part_bytes(parts[i1])).len() >= 1,
    ensures
        // Part i1 occupies positions start1 .. start1 + n1 - 1 and part i2
        // starts at or beyond that end plus the gap.
        spec_pass1(parts, i2).1 >= spec_pass1(parts, i1).1 + spec_tokenize(
            spec_part_bytes(parts[i1]),
        ).len() - 1 + 1 + crate::index::PART_POSITION_GAP,
{
    let toks1 = spec_tokenize(spec_part_bytes(parts[i1]));
    let t1 = TokenType::spec_word(parts[i1].field.spec_id());
    let prev = spec_pass1(parts, i1);
    lemma_add_words_pos(prev.0, toks1, 0, t1, prev.1);
    assert(spec_pass1(parts, i1 + 1).1 == prev.1 + toks1.len() + crate::index::PART_POSITION_GAP);
    lemma_pass1_monotone(parts, i1 + 1, i2);
}

/// The same gap law for the stemming pass: a later text part starts at
/// least the inter-part gap past the end of an earlier text part.
pub proof fn lemma_inter_part_gap_text(
    parts: Seq<crate::document::Text>,
    i1: int,
    i2: int,
    doc_lang: crate::language::Language,
    start: (Seq<(BitmapHash, PostingsModel)>, nat),
)
    requires
        0 <= i1 < i2 < parts.len(),
        parts[i1].typ is Text,
        parts[i2].typ is Text,
        spec_tokenize(spec_part_bytes(parts[i1])).len() >= 1,
    ensures
        spec_pass2(parts, i2, doc_lang, start).1 >= spec_pass2(parts, i1, doc_lang, start).1
            + spec_tokenize(spec_part_bytes(parts[i1])).len() - 1 + 1
            + crate::index::PART_POSITION_GAP,
{
    let toks1 = spec_tokenize(spec_part_bytes(parts[i1]));
    let prev = spec_pass2(parts, i1, doc_lang, start);
    let lang = parts[i1].typ->Text_0;
    lemma_add_stemmed_pos(
        prev.0,
        toks1,
        0,
        parts[i1].field.spec_id(),
        crate::index::spec_resolved_language(lang, doc_lang),
        prev.1,
    );
    assert(spec_pass2(parts, i1 + 1, doc_lang, start).1 == prev.1 + toks1.len()
        + crate::index::PART_POSITION_GAP);
    lemma_pass2_monotone(parts, i1 + 1, i2, doc_lang, start);
}


/// The token map records kind byte `t` for the token hashed to `h`.
pub open spec fn tm_has_type(m: Seq<(BitmapHash, PostingsModel)>, h: BitmapHash, t: u8) -> bool {
    exists|i: int| 0 <= i < m.len() && (#[trigger] m[i]).0 == h && m[i].1.types.contains(t)
}

/// A word-kind insert records its byte and loses nothing.
proof fn lemma_tm_insert_has(m: Seq<(BitmapHash, PostingsModel)>, h: BitmapHash, t: u8, pos: u32)
    ensures
        tm_has_type(spec_tm_insert(m, h, t, pos), h, t),
        forall|h0: BitmapHash, t0: u8|
            tm_has_type(m, h0, t0) ==> #[trigger] tm_has_type(spec_tm_insert(m, h, t, pos), h0, t0),
{
    let r = spec_tm_find(m, h);
    lemma_tm_find(m, h);
    let out = spec_tm_insert(m, h, t, pos);
    if r == -1 {
        assert(out[m.len() as int].0 == h);
        assert(out[m.len() as int].1.types.contains(t)) by {
            let base = PostingsModel::empty().with_type(t);
            assert(base.types[0] == t);
            assert(out[m.len() as int].1.types.contains(t)) by {
                assert(out[m.len() as int].1 == base.insert(t, pos));
                assert(base.insert(t, pos).types == base.types);
            }
        }
    } else {
        assert(out[r].0 == h);
        let p = m[r].1;
        assert(out[r].1 == p.insert(t, pos));
        assert(p.insert(t, pos).types == p.with_type(t).types);
        if p.types.contains(t) {
        } else {
            assert(p.with_type(t).types[p.types.len() as int] == t);
        }
    }
    assert forall|h0: BitmapHash, t0: u8| tm_has_type(m, h0, t0) implies #[trigger] tm_has_type(
        out,
        h0,
        t0,
    ) by {
        let i = choose|i: int| 0 <= i < m.len() && (#[trigger] m[i]).0 == h0 && m[i].1.types.contains(t0);
        if r == i {
            assert(out[i].0 == h0);
            let p = m[i].1;
            assert(out[i].1.types == p.with_type(t).types);
            if p.types.contains(t) {
                assert(out[i].1.types.contains(t0));
            } else {
                let w = choose|w: int| 0 <= w < p.types.len() && p.types[w] == t0;
                assert(p.with_type(t).types[w] == t0);
            }
        } else {
            assert(out[i] == m[i]);
        }
    }
}

/// A keyword-kind insert records its byte and loses nothing.
proof fn lemma_tm_keyword_has(m: Seq<(BitmapHash, PostingsModel)>, h: BitmapHash, t: u8)
    ensures
        tm_has_type(spec_tm_keyword(m, h, t), h, t),
        forall|h0: BitmapHash, t0: u8|
            tm_has_type(m, h0, t0) ==> #[trigger] tm_has_type(spec_tm_keyword(m, h, t), h0, t0),
{
    let r = spec_tm_find(m, h);
    lemma_tm_find(m, h);
    let out = spec_tm_keyword(m, h, t);
    if r == -1 {
        assert(out[m.len() as int].0 == h);
        assert(PostingsModel::empty().with_type(t).types[0] == t);
    } else {
        assert(out[r].0 == h);
        let p = m[r].1;
        if p.types.contains(t) {
        } else {
            assert(p.with_type(t).types[p.types.len() as int] == t);
        }
    }
    assert forall|h0: BitmapHash, t0: u8| tm_has_type(m, h0, t0) implies #[trigger] tm_has_type(
        out,
        h0,
        t0,
    ) by {
        let i = choose|i: int| 0 <= i < m.len() && (#[trigger] m[i]).0 == h0 && m[i].1.types.contains(t0);
        if r == i {
            let p = m[i].1;
            if p.types.contains(t) {
            } else {
                let w = choose|w: int| 0 <= w < p.types.len() && p.types[w] == t0;
                assert(p.with_type(t).types[w] == t0);
            }
        } else {
            assert(out[i] == m[i]);
        }
    }
}

/// The word fold records every token from `k` on and loses nothing.
proof fn lemma_add_words_has(
    m: Seq<(BitmapHash, PostingsModel)>,
    toks: Seq<Seq<u8>>,
    k: int,
    t: u8,
    pos: nat,
)
    requires
        0 <= k <= toks.len(),
    ensures
        forall|j: int|
            k <= j < toks.len() ==> tm_has_type(
                spec_add_words(m, toks, k, t, pos).0,
                BitmapHash::spec_of(#[trigger] toks[j]),
                t,
            ),
        forall|h0: BitmapHash, t0: u8|
            tm_has_type(m, h0, t0) ==> #[trigger] tm_has_type(
                spec_add_words(m, toks, k, t, pos).0,
                h0,
                t0,
            ),
    decreases toks.len() - k,
{
    if k < toks.len() {
        let m1 = spec_tm_insert(m, BitmapHash::spec_of(toks[k]), t, pos as u32);
        lemma_tm_insert_has(m, BitmapHash::spec_of(toks[k]), t, pos as u32);
        lemma_add_words_has(m1, toks, k + 1, t, pos + 1);
        let out = spec_add_words(m, toks, k, t, pos).0;
        assert(out == spec_add_words(m1, toks, k + 1, t, pos + 1).0);
        assert forall|j: int|
            k <= j < toks.len() implies tm_has_type(
            out,
            BitmapHash::spec_of(#[trigger] toks[j]),
            t,
        ) by {
            if j == k {
                assert(tm_has_type(m1, BitmapHash::spec_of(toks[k]), t));
                assert(tm_has_type(out, BitmapHash::spec_of(toks[k]), t));
            }
        }
        assert forall|h0: BitmapHash, t0: u8| tm_has_type(m, h0, t0) implies #[trigger] tm_has_type(
            out,
            h0,
            t0,
        ) by {
            assert(tm_has_type(m1, h0, t0));
        }
    }
}

/// The stemming fold records every word, records every stemmed root as a
/// keyword, and loses nothing.
proof fn lemma_add_stemmed_has(
    m: Seq<(BitmapHash, PostingsModel)>,
    toks: Seq<Seq<u8>>,
    k: int,
    field: u8,
    lang: crate::language::Language,
    pos: nat,
)
    requires
        0 <= k <= toks.len(),
    ensures
        forall|j: int|
            k <= j < toks.len() ==> tm_has_type(
                spec_add_stemmed(m, toks, k, field, lang, pos).0,
                BitmapHash::spec_of(#[trigger] toks[j]),
                TokenType::spec_word(field),
            ),
        forall|j: int|
            k <= j < toks.len() && crate::stem::spec_stem_for(#[trigger] toks[j], lang) is Some
                ==> tm_has_type(
                spec_add_stemmed(m, toks, k, field, lang, pos).0,
                BitmapHash::spec_of(crate::stem::spec_stem_for(toks[j], lang)->Some_0),
                TokenType::spec_stemmed(field),
            ),
        forall|h0: BitmapHash, t0: u8|
            tm_has_type(m, h0, t0) ==> #[trigger] tm_has_type(
                spec_add_stemmed(m, toks, k, field, lang, pos).0,
                h0,
                t0,
            ),
    decreases toks.len() - k,
{
    if k < toks.len() {
        let m1 = spec_tm_insert(
            m,
            BitmapHash::spec_of(toks[k]),
            TokenType::spec_word(field),
            pos as u32,
        );
        lemma_tm_insert_has(m, BitmapHash::spec_of(toks[k]), TokenType::spec_word(field), pos as u32);
        let m2 = match crate::stem::spec_stem_for(toks[k], lang) {
            Some(st) => spec_tm_keyword(m1, BitmapHash::spec_of(st), TokenType::spec_stemmed(field)),
            None => m1,
        };
        match crate::stem::spec_stem_for(toks[k], lang) {
            Some(st) => {
                lemma_tm_keyword_has(m1, BitmapHash::spec_of(st), TokenType::spec_stemmed(field));
            },
            None => {},
        }
        lemma_add_stemmed_has(m2, toks, k + 1, field, lang, pos + 1);
        let out = spec_add_stemmed(m, toks, k, field, lang, pos).0;
        assert(out == spec_add_stemmed(m2, toks, k + 1, field, lang, pos + 1).0);
        let tw = TokenType::spec_word(field);
        let ts = TokenType::spec_stemmed(field);
        assert forall|j: int|
            k <= j < toks.len() implies tm_has_type(
            out,
            BitmapHash::spec_of(#[trigger] toks[j]),
            tw,
        ) by {
            if j == k {
                assert(tm_has_type(m1, BitmapHash::spec_of(toks[k]), tw));
                assert(tm_has_type(m2, BitmapHash::spec_of(toks[k]), tw));
                assert(tm_has_type(out, BitmapHash::spec_of(toks[k]), tw));
            }
        }
        assert forall|j: int|
            k <= j < toks.len() && crate::stem::spec_stem_for(#[trigger] toks[j], lang)
                is Some implies tm_has_type(
            out,
            BitmapHash::spec_of(crate::stem::spec_stem_for(toks[j], lang)->Some_0),
            ts,
        ) by {
            if j == k {
                let st = crate::stem::spec_stem_for(toks[k], lang)->Some_0;
                assert(tm_has_type(m2, BitmapHash::spec_of(st), ts));
                assert(tm_has_type(out, BitmapHash::spec_of(st), ts));
            }
        }
        assert forall|h0: BitmapHash, t0: u8| tm_has_type(m, h0, t0) implies #[trigger] tm_has_type(
            out,
            h0,
            t0,
        ) by {
            assert(tm_has_type(m1, h0, t0));
            assert(tm_has_type(m2, h0, t0));
        }
    }
}

/// The first pass loses nothing across steps.
proof fn lemma_pass1_preserves(
    parts: Seq<crate::document::Text>,
    n1: int,
    n2: int,
    h: BitmapHash,
    t: u8,
)
    requires
        0 <= n1 <= n2 <= parts.len(),
        tm_has_type(spec_pass1(parts, n1).0, h, t),
    ensures
        tm_has_type(spec_pass1(parts, n2).0, h, t),
    decreases n2 - n1,
{
    if n1 < n2 {
        let prev = spec_pass1(parts, n2 - 1);
        lemma_pass1_preserves(parts, n1, n2 - 1, h, t);
        let part = parts[n2 - 1];
        match part.typ {
            Type::Tokenize => {
                lemma_add_words_has(
                    prev.0,
                    spec_tokenize(spec_part_bytes(part)),
                    0,
                    TokenType::spec_word(part.field.spec_id()),
                    prev.1,
                );
            },
            Type::Keyword => {
                let bytes = spec_part_bytes(part);
                if bytes.len() >= 1 {
                    lemma_tm_keyword_has(
                        prev.0,
                        BitmapHash::spec_of(bytes),
                        TokenType::spec_word(part.field.spec_id()),
                    );
                }
            },
            _ => {},
        }
    }
}

/// The stemming pass loses nothing across steps.
proof fn lemma_pass2_preserves(
    parts: Seq<crate::document::Text>,
    n1: int,
    n2: int,
    doc_lang: crate::language::Language,
    start: (Seq<(BitmapHash, PostingsModel)>, nat),
    h: BitmapHash,
    t: u8,
)
    requires
        0 <= n1 <= n2 <= parts.len(),
        tm_has_type(spec_pass2(parts, n1, doc_lang, start).0, h, t),
    ensures
        tm_has_type(spec_pass2(parts, n2, doc_lang, start).0, h, t),
    decreases n2 - n1,
{
    if n1 < n2 {
        let prev = spec_pass2(parts, n2 - 1, doc_lang, start);
        lemma_pass2_preserves(parts, n1, n2 - 1, doc_lang, start, h, t);
        let part = parts[n2 - 1];
        match part.typ {
            Type::Text(lang) => {
                lemma_add_stemmed_has(
                    prev.0,
                    spec_tokenize(spec_part_bytes(part)),
                    0,
                    part.field.spec_id(),
                    crate::index::spec_resolved_language(lang, doc_lang),
                    prev.1,
                );
            },
            _ => {},
        }
    }
}

/// Every word of a pre-tokenized part of an indexed document is recorded in
/// the accumulated postings under its token hash, with the word kind byte
/// of its field.
pub proof fn lemma_indexed_word_in_bitmap(doc: FtsDocument, i: int, j: int)
    requires
        0 <= i < doc.parts@.len(),
        doc.parts@[i].typ is Tokenize,
        0 <= j < spec_tokenize(spec_part_bytes(doc.parts@[i])).len(),
    ensures
        tm_has_type(
            crate::index::spec_token_map(doc),
            BitmapHash::spec_of(spec_tokenize(spec_part_bytes(doc.parts@[i]))[j]),
            TokenType::spec_word(doc.parts@[i].field.spec_id()),
        ),
{
    let parts = doc.parts@;
    let part = parts[i];
    let toks = spec_tokenize(spec_part_bytes(part));
    let t = TokenType::spec_word(part.field.spec_id());
    let prev = spec_pass1(parts, i);
    lemma_add_words_has(prev.0, toks, 0, t, prev.1);
    assert(tm_has_type(spec_pass1(parts, i + 1).0, BitmapHash::spec_of(toks[j]), t));
    lemma_pass1_preserves(parts, i + 1, parts.len() as int, BitmapHash::spec_of(toks[j]), t);
    lemma_pass2_preserves(
        parts,
        0,
        parts.len() as int,
        spec_doc_language(doc),
        spec_pass1(parts, parts.len() as int),
        BitmapHash::spec_of(toks[j]),
        t,
    );
}

/// Every word of a text part is recorded with its field's word kind byte,
/// and every stemmed root the stemmer produces is recorded, under its own
/// hash, with the stemmed kind byte.
pub proof fn lemma_indexed_text_word_in_bitmap(doc: FtsDocument, i: int, j: int)
    requires
        0 <= i < doc.parts@.len(),
        doc.parts@[i].typ is Text,
        0 <= j < spec_tokenize(spec_part_bytes(doc.parts@[i])).len(),
    ensures
        tm_has_type(
            crate::index::spec_token_map(doc),
            BitmapHash::spec_of(spec_tokenize(spec_part_bytes(doc.parts@[i]))[j]),
            TokenType::spec_word(doc.parts@[i].field.spec_id()),
        ),
        ({
            let lang = crate::index::spec_resolved_language(
                doc.parts@[i].typ->Text_0,
                spec_doc_language(doc),
            );
            crate::stem::spec_stem_for(
                spec_tokenize(spec_part_bytes(doc.parts@[i]))[j],
                lang,
            ) is Some ==> tm_has_type(
                crate::index::spec_token_map(doc),
                BitmapHash::spec_of(
                    crate::stem::spec_stem_for(
                        spec_tokenize(spec_part_bytes(doc.parts@[i]))[j],
                        lang,
                    )->Some_0,
                ),
                TokenType::spec_stemmed(doc.parts@[i].field.spec_id()),
            )
        }),
{
    let parts = doc.parts@;
    let part = parts[i];
    let toks = spec_tokenize(spec_part_bytes(part));
    let dl = spec_doc_language(doc);
    let start = spec_pass1(parts, parts.len() as int);
    let lang = crate::index::spec_resolved_language(part.typ->Text_0, dl);
    let prev = spec_pass2(parts, i, dl, start);
    lemma_add_stemmed_has(prev.0, toks, 0, part.field.spec_id(), lang, prev.1);
    lemma_pass2_preserves(
        parts,
        i + 1,
        parts.len() as int,
        dl,
        start,
        BitmapHash::spec_of(toks[j]),
        TokenType::spec_word(part.field.spec_id()),
    );
    match crate::stem::spec_stem_for(toks[j], lang) {
        Some(st) => {
            lemma_pass2_preserves(
                parts,
                i + 1,
                parts.len() as int,
                dl,
                start,
                BitmapHash::spec_of(st),
                TokenType::spec_stemmed(part.field.spec_id()),
            );
        },
        None => {},
    }
}

/// The accumulated postings carry positions only under word kind bytes:
/// every position group's byte is even, while every stemmed kind byte is
/// odd. A stemmed root therefore never has positions.
pub open spec fn tm_word_groups_only(m: Seq<(BitmapHash, PostingsModel)>) -> bool {
    forall|i: int, g: int|
        #![trigger m[i].1.groups[g]]
        0 <= i < m.len() && 0 <= g < m[i].1.groups.len() ==> m[i].1.groups[g].ttype % 2 == 0
}

/// A word-kind insert keeps all group bytes even when its own byte is even.
proof fn lemma_tm_insert_even(m: Seq<(BitmapHash, PostingsModel)>, h: BitmapHash, t: u8, pos: u32)
    requires
        tm_word_groups_only(m),
        t % 2 == 0,
    ensures
        tm_word_groups_only(spec_tm_insert(m, h, t, pos)),
{
    let r = spec_tm_find(m, h);
    lemma_tm_find(m, h);
    let out = spec_tm_insert(m, h, t, pos);
    assert forall|i: int, g: int|
        #![trigger out[i].1.groups[g]]
        0 <= i < out.len() && 0 <= g < out[i].1.groups.len() implies out[i].1.groups[g].ttype % 2
        == 0 by {
        if r == -1 && i == m.len() {
            let base = PostingsModel::empty().with_type(t);
            crate::postings::lemma_find_group(base.groups, t);
            assert(out[i].1.groups[g].ttype == t);
        } else if r == i {
            let p = m[i].1.with_type(t);
            crate::postings::lemma_find_group(p.groups, t);
            let fg = spec_find_group(p.groups, t);
            if fg == -1 {
                if g < p.groups.len() {
                    assert(out[i].1.groups[g] == m[i].1.groups[g]);
                } else {
                    assert(out[i].1.groups[g].ttype == t);
                }
            } else {
                if g == fg {
                    assert(out[i].1.groups[g].ttype == t);
                } else {
                    assert(out[i].1.groups[g] == m[i].1.groups[g]);
                }
            }
        } else {
            assert(out[i] == m[i]);
        }
    }
}

/// A keyword-kind insert never touches the groups.
proof fn lemma_tm_keyword_even(m: Seq<(BitmapHash, PostingsModel)>, h: BitmapHash, t: u8)
    requires
        tm_word_groups_only(m),
    ensures
        tm_word_groups_only(spec_tm_keyword(m, h, t)),
{
    let r = spec_tm_find(m, h);
    lemma_tm_find(m, h);
    let out = spec_tm_keyword(m, h, t);
    assert forall|i: int, g: int|
        #![trigger out[i].1.groups[g]]
        0 <= i < out.len() && 0 <= g < out[i].1.groups.len() implies out[i].1.groups[g].ttype % 2
        == 0 by {
        if r == -1 && i == m.len() {
            assert(out[i].1.groups.len() == 0);
        } else if r == i {
            assert(out[i].1.groups[g] == m[i].1.groups[g]);
        } else {
            assert(out[i] == m[i]);
        }
    }
}

/// The word folds keep all group bytes even.
proof fn lemma_add_words_even(
    m: Seq<(BitmapHash, PostingsModel)>,
    toks: Seq<Seq<u8>>,
    k: int,
    t: u8,
    pos: nat,
)
    requires
        tm_word_groups_only(m),
        t % 2 == 0,
    ensures
        tm_word_groups_only(spec_add_words(m, toks, k, t, pos).0),
    decreases toks.len() - k,
{
    if 0 <= k < toks.len() {
        lemma_tm_insert_even(m, BitmapHash::spec_of(toks[k]), t, pos as u32);
        lemma_add_words_even(
            spec_tm_insert(m, BitmapHash::spec_of(toks[k]), t, pos as u32),
            toks,
            k + 1,
            t,
            pos + 1,
        );
    }
}

/// The stemming fold keeps all group bytes even.
proof fn lemma_add_stemmed_even(
    m: Seq<(BitmapHash, PostingsModel)>,
    toks: Seq<Seq<u8>>,
    k: int,
    field: u8,
    lang: crate::language::Language,
    pos: nat,
)
    requires
        tm_word_groups_only(m),
    ensures
        tm_word_groups_only(spec_add_stemmed(m, toks, k, field, lang, pos).0),
    decreases toks.len() - k,
{
    if 0 <= k < toks.len() {
        let t = TokenType::spec_word(field);
        assert((field << 1) % 2 == 0) by (bit_vector);
        assert(t % 2 == 0);
        let m1 = spec_tm_insert(m, BitmapHash::spec_of(toks[k]), t, pos as u32);
        lemma_tm_insert_even(m, BitmapHash::spec_of(toks[k]), t, pos as u32);
        let m2 = match crate::stem::spec_stem_for(toks[k], lang) {
            Some(st) => spec_tm_keyword(m1, BitmapHash::spec_of(st), TokenType::spec_stemmed(field)),
            None => m1,
        };
        match crate::stem::spec_stem_for(toks[k], lang) {
            Some(st) => {
                lemma_tm_keyword_even(m1, BitmapHash::spec_of(st), TokenType::spec_stemmed(field));
            },
            None => {},
        }
        lemma_add_stemmed_even(m2, toks, k + 1, field, lang, pos + 1);
    }
}

/// Both passes keep all group bytes even.
proof fn lemma_pass1_even(parts: Seq<crate::document::Text>, n: int)
    requires
        0 <= n <= parts.len(),
    ensures
        tm_word_groups_only(spec_pass1(parts, n).0),
    decreases n,
{
    if n > 0 {
        lemma_pass1_even(parts, n - 1);
        let prev = spec_pass1(parts, n - 1);
        let part = parts[n - 1];
        match part.typ {
            Type::Tokenize => {
                let t = TokenType::spec_word(part.field.spec_id());
                let f = part.field.spec_id();
                assert((f << 1) % 2 == 0) by (bit_vector);
                assert(t % 2 == 0);
                lemma_add_words_even(prev.0, spec_tokenize(spec_part_bytes(part)), 0, t, prev.1);
            },
            Type::Keyword => {
                let bytes = spec_part_bytes(part);
                if bytes.len() >= 1 {
                    lemma_tm_keyword_even(
                        prev.0,
                        BitmapHash::spec_of(bytes),
                        TokenType::spec_word(part.field.spec_id()),
                    );
                }
            },
            _ => {},
        }
    }
}

/// A stemmed kind byte never carries positions in any indexed document's
/// accumulated postings: all position groups sit under even (word) bytes,
/// and a stemmed byte is odd.
pub proof fn lemma_stemmed_has_no_positions(doc: FtsDocument)
    ensures
        tm_word_groups_only(crate::index::spec_token_map(doc)),
        forall|f: u8| (#[trigger] TokenType::spec_stemmed(f)) % 2 == 1,
{
    let parts = doc.parts@;
    lemma_pass1_even(parts, parts.len() as int);
    lemma_pass2_even_all(
        parts,
        parts.len() as int,
        spec_doc_language(doc),
        spec_pass1(parts, parts.len() as int),
    );
    assert forall|f: u8| (#[trigger] TokenType::spec_stemmed(f)) % 2 == 1 by {
        assert(((f << 1) | 1) % 2 == 1) by (bit_vector);
    }
}

/// The stemming pass keeps all group bytes even.
proof fn lemma_pass2_even_all(
    parts: Seq<crate::document::Text>,
    n: int,
    doc_lang: crate::language::Language,
    start: (Seq<(BitmapHash, PostingsModel)>, nat),
)
    requires
        0 <= n <= parts.len(),
        tm_word_groups_only(start.0),
    ensures
        tm_word_groups_only(spec_pass2(parts, n, doc_lang, start).0),
    decreases n,
{
    if n > 0 {
        lemma_pass2_even_all(parts, n - 1, doc_lang, start);
        let prev = spec_pass2(parts, n - 1, doc_lang, start);
        let part = parts[n - 1];
        match part.typ {
            Type::Text(lang) => {
                lemma_add_stemmed_even(
                    prev.0,
                    spec_tokenize(spec_part_bytes(part)),
                    0,
                    part.field.spec_id(),
                    crate::index::spec_resolved_language(lang, doc_lang),
                    prev.1,
                );
            },
            _ => {},
        }
    }
}


/// The hash of a non-empty token is well formed.
proof fn lemma_spec_of_wf(token: Seq<u8>)
    requires
        token.len() >= 1,
    ensures
        BitmapHash::spec_of(token).wf(),
{
    if token.len() <= 8 {
        crate::hash::lemma_literal_hash_bytes(token);
    }
}

/// Recording a bitmap byte keeps a posting well formed.
proof fn lemma_postings_with_type_wf(p: PostingsModel, t: u8)
    requires
        p.wf(),
    ensures
        p.with_type(t).wf(),
        p.with_type(t).types.contains(t),
        forall|b: int| p.positions_below(b) ==> #[trigger] p.with_type(t).positions_below(b),
{
    if !p.types.contains(t) {
        let q = p.with_type(t);
        assert(q.types[p.types.len() as int] == t);
        assert forall|i: int|
            0 <= i < q.groups.len() implies q.types.contains(#[trigger] q.groups[i].ttype) by {
            let w = choose|w: int| 0 <= w < p.types.len() && p.types[w] == q.groups[i].ttype;
            assert(q.types[w] == q.groups[i].ttype);
        }
    } else {
        assert(p.with_type(t) == p);
    }
}

/// A positional insert above every recorded position keeps a posting well
/// formed and bounded by the next position.
proof fn lemma_postings_insert_wf(p: PostingsModel, t: u8, pos: u32)
    requires
        p.wf(),
        p.positions_below(pos as int),
    ensures
        p.insert(t, pos).wf(),
        p.insert(t, pos).positions_below(pos as int + 1),
{
    lemma_postings_with_type_wf(p, t);
    let base = p.with_type(t);
    crate::postings::lemma_find_group(base.groups, t);
    let r = spec_find_group(base.groups, t);
    let q = p.insert(t, pos);
    if r == -1 {
        assert(q.groups[base.groups.len() as int].ttype == t);
        assert(base.types.contains(t));
    } else {
        assert(q.groups[r].wf()) by {
            let old_ps = base.groups[r].positions;
            assert(forall|a: int| 0 <= a < old_ps.len() ==> old_ps[a] < pos);
        }
    }
}

/// The token-map inserts keep the map well formed and bounded.
proof fn lemma_tm_insert_wf(m: Seq<(BitmapHash, PostingsModel)>, h: BitmapHash, t: u8, pos: u32)
    requires
        spec_tm_wf(m),
        spec_tm_below(m, pos as int),
        h.wf(),
    ensures
        spec_tm_wf(spec_tm_insert(m, h, t, pos)),
        spec_tm_below(spec_tm_insert(m, h, t, pos), pos as int + 1),
{
    let r = spec_tm_find(m, h);
    lemma_tm_find(m, h);
    let out = spec_tm_insert(m, h, t, pos);
    if r == -1 {
        lemma_postings_insert_wf(PostingsModel::empty(), t, pos);
    } else {
        lemma_postings_insert_wf(m[r].1, t, pos);
    }
    assert forall|i: int| 0 <= i < out.len() implies (#[trigger] out[i]).1.positions_below(
        pos as int + 1,
    ) by {
        if r == -1 && i == m.len() {
        } else if i == r {
        } else {
            assert(out[i] == m[i]);
        }
    }
}

/// The keyword insert keeps the map well formed and never adds a position.
proof fn lemma_tm_keyword_wf(m: Seq<(BitmapHash, PostingsModel)>, h: BitmapHash, t: u8)
    requires
        spec_tm_wf(m),
        h.wf(),
    ensures
        spec_tm_wf(spec_tm_keyword(m, h, t)),
        forall|b: int| spec_tm_below(m, b) ==> #[trigger] spec_tm_below(spec_tm_keyword(m, h, t), b),
{
    let r = spec_tm_find(m, h);
    lemma_tm_find(m, h);
    let out = spec_tm_keyword(m, h, t);
    if r == -1 {
        lemma_postings_with_type_wf(PostingsModel::empty(), t);
    } else {
        lemma_postings_with_type_wf(m[r].1, t);
    }
    assert forall|b: int| spec_tm_below(m, b) implies #[trigger] spec_tm_below(out, b) by {
        assert forall|i: int|
            spec_tm_below(m, b) && 0 <= i < out.len() implies (#[trigger] out[i]).1.positions_below(
            b,
        ) by {
            if r == -1 && i == m.len() {
                assert(out[i].1.groups == PostingsModel::empty().groups);
            } else if i == r {
                assert(out[i].1.groups == m[i].1.groups);
            } else {
                assert(out[i] == m[i]);
            }
        }
    }
}

/// The word fold keeps the map well formed and bounded by its final
/// position.
proof fn lemma_add_words_wf(
    m: Seq<(BitmapHash, PostingsModel)>,
    toks: Seq<Seq<u8>>,
    k: int,
    t: u8,
    pos: nat,
)
    requires
        0 <= k <= toks.len(),
        spec_tm_wf(m),
        spec_tm_below(m, pos as int),
        pos + toks.len() - k <= u32::MAX,
        forall|j: int| 0 <= j < toks.len() ==> (#[trigger] toks[j]).len() >= 1,
    ensures
        spec_tm_wf(spec_add_words(m, toks, k, t, pos).0),
        spec_tm_below(spec_add_words(m, toks, k, t, pos).0, spec_add_words(m, toks, k, t, pos).1 as int),
    decreases toks.len() - k,
{
    lemma_add_words_pos(m, toks, k, t, pos);
    if k < toks.len() {
        lemma_spec_of_wf(toks[k]);
        let m1 = spec_tm_insert(m, BitmapHash::spec_of(toks[k]), t, pos as u32);
        lemma_tm_insert_wf(m, BitmapHash::spec_of(toks[k]), t, pos as u32);
        lemma_add_words_wf(m1, toks, k + 1, t, pos + 1);
    }
}

/// A stemmed root is never empty.
proof fn lemma_stem_nonempty(w: Seq<u8>, lang: crate::language::Language)
    ensures
        crate::stem::spec_stem_for(w, lang) matches Some(st) ==> st.len() >= 1,
{
}

/// The stemming fold keeps the map well formed and bounded.
proof fn lemma_add_stemmed_wf(
    m: Seq<(BitmapHash, PostingsModel)>,
    toks: Seq<Seq<u8>>,
    k: int,
    field: u8,
    lang: crate::language::Language,
    pos: nat,
)
    requires
        0 <= k <= toks.len(),
        spec_tm_wf(m),
        spec_tm_below(m, pos as int),
        pos + toks.len() - k <= u32::MAX,
        forall|j: int| 0 <= j < toks.len() ==> (#[trigger] toks[j]).len() >= 1,
    ensures
        spec_tm_wf(spec_add_stemmed(m, toks, k, field, lang, pos).0),
        spec_tm_below(
            spec_add_stemmed(m, toks, k, field, lang, pos).0,
            spec_add_stemmed(m, toks, k, field, lang, pos).1 as int,
        ),
    decreases toks.len() - k,
{
    lemma_add_stemmed_pos(m, toks, k, field, lang, pos);
    if k < toks.len() {
        lemma_spec_of_wf(toks[k]);
        let tw = TokenType::spec_word(field);
        let m1 = spec_tm_insert(m, BitmapHash::spec_of(toks[k]), tw, pos as u32);
        lemma_tm_insert_wf(m, BitmapHash::spec_of(toks[k]), tw, pos as u32);
        let m2 = match crate::stem::spec_stem_for(toks[k], lang) {
            Some(st) => spec_tm_keyword(m1, BitmapHash::spec_of(st), TokenType::spec_stemmed(field)),
            None => m1,
        };
        match crate::stem::spec_stem_for(toks[k], lang) {
            Some(st) => {
                lemma_stem_nonempty(toks[k], lang);
                lemma_spec_of_wf(st);
                lemma_tm_keyword_wf(m1, BitmapHash::spec_of(st), TokenType::spec_stemmed(field));
            },
            None => {},
        }
        lemma_add_stemmed_wf(m2, toks, k + 1, field, lang, pos + 1);
    }
}

/// The first pass keeps the map well formed and bounded, as long as the
/// final position fits the encoding.
proof fn lemma_pass1_wf(parts: Seq<crate::document::Text>, n: int)
    requires
        0 <= n <= parts.len(),
        spec_pass1(parts, parts.len() as int).1 <= u32::MAX,
    ensures
        spec_tm_wf(spec_pass1(parts, n).0),
        spec_tm_below(spec_pass1(parts, n).0, spec_pass1(parts, n).1 as int),
    decreases n,
{
    if n > 0 {
        lemma_pass1_wf(parts, n - 1);
        let prev = spec_pass1(parts, n - 1);
        let part = parts[n - 1];
        match part.typ {
            Type::Tokenize => {
                let toks = spec_tokenize(spec_part_bytes(part));
                let t = TokenType::spec_word(part.field.spec_id());
                crate::tokenize::lemma_token_lengths(spec_part_bytes(part), 0, Seq::empty());
                lemma_pass1_monotone(parts, n, parts.len() as int);
                lemma_add_words_pos(prev.0, toks, 0, t, prev.1);
                lemma_add_words_wf(prev.0, toks, 0, t, prev.1);
            },
            Type::Keyword => {
                let bytes = spec_part_bytes(part);
                if bytes.len() >= 1 {
                    lemma_spec_of_wf(bytes);
                    lemma_tm_keyword_wf(
                        prev.0,
                        BitmapHash::spec_of(bytes),
                        TokenType::spec_word(part.field.spec_id()),
                    );
                }
            },
            _ => {},
        }
    }
}

/// The stemming pass keeps the map well formed and bounded under the same
/// condition.
proof fn lemma_pass2_wf(
    parts: Seq<crate::document::Text>,
    n: int,
    doc_lang: crate::language::Language,
    start: (Seq<(BitmapHash, PostingsModel)>, nat),
)
    requires
        0 <= n <= parts.len(),
        spec_tm_wf(start.0),
        spec_tm_below(start.0, start.1 as int),
        spec_pass2(parts, parts.len() as int, doc_lang, start).1 <= u32::MAX,
    ensures
        spec_tm_wf(spec_pass2(parts, n, doc_lang, start).0),
        spec_tm_below(
            spec_pass2(parts, n, doc_lang, start).0,
            spec_pass2(parts, n, doc_lang, start).1 as int,
        ),
    decreases n,
{
    if n > 0 {
        lemma_pass2_wf(parts, n - 1, doc_lang, start);
        let prev = spec_pass2(parts, n - 1, doc_lang, start);
        let part = parts[n - 1];
        match part.typ {
            Type::Text(lang) => {
                let toks = spec_tokenize(spec_part_bytes(part));
                let rl = crate::index::spec_resolved_language(lang, doc_lang);
                crate::tokenize::lemma_token_lengths(spec_part_bytes(part), 0, Seq::empty());
                lemma_pass2_monotone(parts, n, parts.len() as int, doc_lang, start);
                lemma_add_stemmed_pos(prev.0, toks, 0, part.field.spec_id(), rl, prev.1);
                lemma_add_stemmed_wf(prev.0, toks, 0, part.field.spec_id(), rl, prev.1);
            },
            _ => {},
        }
    }
}

/// For a document whose positions fit the encoding, the accumulated token
/// map is well formed: distinct well-formed hashes, and postings whose
/// position groups strictly increase.
pub proof fn lemma_pipeline_wf(doc: FtsDocument)
    requires
        crate::index::spec_positions_bounded(doc),
    ensures
        spec_tm_wf(crate::index::spec_token_map(doc)),
{
    let parts = doc.parts@;
    let start = spec_pass1(parts, parts.len() as int);
    lemma_pass2_monotone(
        parts,
        0,
        parts.len() as int,
        spec_doc_language(doc),
        start,
    );
    lemma_pass1_wf(parts, parts.len() as int);
    lemma_pass2_wf(parts, parts.len() as int, spec_doc_language(doc), start);
}

/// Within every accumulated posting of an indexed document, the positions
/// recorded for each field/kind byte strictly increase in insertion order,
/// and the posting survives serialization unchanged.
pub proof fn lemma_positions_strictly_increasing(doc: FtsDocument, e: int)
    requires
        crate::index::spec_positions_bounded(doc),
        0 <= e < crate::index::spec_token_map(doc).len(),
        crate::postings::len_fits(crate::index::spec_token_map(doc)[e].1),
    ensures
        ({
            let p = crate::index::spec_token_map(doc)[e].1;
            &&& forall|g: int, a: int, b: int|
                #![trigger p.groups[g].positions[a], p.groups[g].positions[b]]
                0 <= g < p.groups.len() && 0 <= a < b < p.groups[g].positions.len()
                    ==> p.groups[g].positions[a] < p.groups[g].positions[b]
            &&& crate::postings::spec_deserialize(crate::postings::spec_serialize(p)) == Some(p)
        }),
{
    lemma_pipeline_wf(doc);
    let p = crate::index::spec_token_map(doc)[e].1;
    crate::postings::lemma_postings_round_trip(p);
}

/// Distinct well-formed hashes build distinct keys: the scanner's
/// reconstruction inverts the layout.
proof fn lemma_fts_key_injective(account: u32, collection: u8, h1: BitmapHash, h2: BitmapHash, doc: u32)
    requires
        h1.wf(),
        h2.wf(),
        h1 != h2,
    ensures
        crate::keys::spec_fts_key(account, collection, h1, doc) != crate::keys::spec_fts_key(
            account,
            collection,
            h2,
            doc,
        ),
{
    crate::keys::lemma_fts_key_round_trip(account, collection, h1, doc);
    crate::keys::lemma_fts_key_round_trip(account, collection, h2, doc);
}

/// After writing the accumulated postings, the store holds, under the key
/// of entry `e`, exactly that entry's serialized posting.
proof fn lemma_index_map_at(
    m: Map<Seq<u8>, Seq<u8>>,
    account: u32,
    collection: u8,
    document: u32,
    tm: Seq<(BitmapHash, PostingsModel)>,
    n: int,
    e: int,
)
    requires
        0 <= e < n <= tm.len(),
        spec_tm_wf(tm),
    ensures
        crate::index::spec_index_map(m, account, collection, document, tm, n).dom().contains(
            crate::keys::spec_fts_key(account, collection, tm[e].0, document),
        ),
        crate::index::spec_index_map(m, account, collection, document, tm, n)[crate::keys::spec_fts_key(
            account,
            collection,
            tm[e].0,
            document,
        )] == crate::postings::spec_serialize(tm[e].1),
    decreases n,
{
    if e == n - 1 {
    } else {
        lemma_index_map_at(m, account, collection, document, tm, n - 1, e);
        lemma_fts_key_injective(account, collection, tm[e].0, tm[n - 1].0, document);
    }
}

/// A keyword part's text is recorded in the accumulated postings under its
/// hash, with the word kind byte of its field.
pub proof fn lemma_indexed_keyword_in_bitmap(doc: FtsDocument, i: int)
    requires
        0 <= i < doc.parts@.len(),
        doc.parts@[i].typ is Keyword,
        spec_part_bytes(doc.parts@[i]).len() >= 1,
    ensures
        tm_has_type(
            crate::index::spec_token_map(doc),
            BitmapHash::spec_of(spec_part_bytes(doc.parts@[i])),
            TokenType::spec_word(doc.parts@[i].field.spec_id()),
        ),
{
    let parts = doc.parts@;
    let part = parts[i];
    let bytes = spec_part_bytes(part);
    let t = TokenType::spec_word(part.field.spec_id());
    let prev = spec_pass1(parts, i);
    lemma_tm_keyword_has(prev.0, BitmapHash::spec_of(bytes), t);
    lemma_pass1_preserves(parts, i + 1, parts.len() as int, BitmapHash::spec_of(bytes), t);
    lemma_pass2_preserves(
        parts,
        0,
        parts.len() as int,
        spec_doc_language(doc),
        spec_pass1(parts, parts.len() as int),
        BitmapHash::spec_of(bytes),
        t,
    );
}

/// After `fts_index`, every token the accumulated postings record — a
/// tokenized or text word, a stemmed root, or a keyword — has a posting in
/// the store, under the document's key for its hash, that decodes to a
/// bitmap containing the recorded kind byte.
pub proof fn lemma_indexed_posting(
    m: Map<Seq<u8>, Seq<u8>>,
    doc: FtsDocument,
    h: BitmapHash,
    t: u8,
)
    requires
        crate::index::spec_positions_bounded(doc),
        tm_has_type(crate::index::spec_token_map(doc), h, t),
        forall|e: int|
            0 <= e < crate::index::spec_token_map(doc).len() ==> crate::postings::len_fits(
                (#[trigger] crate::index::spec_token_map(doc)[e]).1,
            ),
    ensures
        ({
            let key = crate::keys::spec_fts_key(doc.account_id, doc.collection, h, doc.document_id);
            let out = crate::index::spec_fts_index(m, doc);
            &&& out.dom().contains(key)
            &&& (crate::postings::spec_deserialize(out[key]) matches Some(p) && p.types.contains(t))
        }),
{
    lemma_pipeline_wf(doc);
    let tm = crate::index::spec_token_map(doc);
    let e = choose|e: int| 0 <= e < tm.len() && (#[trigger] tm[e]).0 == h && tm[e].1.types.contains(t);
    lemma_index_map_at(m, doc.account_id, doc.collection, doc.document_id, tm, tm.len() as int, e);
    crate::postings::lemma_postings_round_trip(tm[e].1);
}

} // verus!

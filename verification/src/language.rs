//! Languages a document part can declare.
//!
//! The pipeline only branches on whether a part's language is known; the
//! stemmer consumes the resolved language. `Unknown` asks the pipeline to
//! fall back to detection and then to the document default.

use vstd::prelude::*;

verus! {

/// Language tag of a text part or of a whole document.
#[derive(Debug, Clone, Copy, PartialEq, Eq, Hash, Structural)]
pub enum Language {
    Esperanto,
    English,
    Russian,
    Mandarin,
    Spanish,
    Portuguese,
    Italian,
    Bengali,
    French,
    German,
    Ukrainian,
    Arabic,
    Hindi,
    Japanese,
    Hebrew,
    Polish,
    Korean,
    Danish,
    Swedish,
    Finnish,
    Turkish,
    Dutch,
    Hungarian,
    Czech,
    Greek,
    Bulgarian,
    Romanian,
    Lithuanian,
    Vietnamese,
    Thai,
    Indonesian,
    Persian,
    Unknown,
}

} // verus!

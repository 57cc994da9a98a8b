//! The language detector consulted for `Text` parts whose language is
//! `Unknown`.
//!
//! The original pipeline feeds such parts to a statistical detector and asks
//! it afterwards for the document's dominant language. This crate carries no
//! statistical model, so every sample scores below the confidence floor: the
//! per-part answer is `Unknown` and there is no dominant language, which
//! makes the pipeline fall back to the document's default language. The
//! pipeline is written against these two contracts alone, so a richer
//! detector would slot in by widening them.

use vstd::prelude::*;

use crate::language::Language;

verus! {

/// Detector instance owned by one `fts_index` run.
pub struct LanguageDetector {
    /// Number of samples fed so far.
    pub samples: usize,
}

impl LanguageDetector {
    /// A fresh detector that has seen nothing.
    pub fn new() -> (r: LanguageDetector)
        ensures
            r.samples == 0,
    {
        LanguageDetector { samples: 0 }
    }

    /// Guesses the language of `text`; below the confidence floor the answer
    /// is `Unknown`.
    pub fn detect(&mut self, text: &str) -> (r: Language)
        ensures
            r == Language::Unknown,
            final(self).samples == if old(self).samples < usize::MAX {
                (old(self).samples + 1) as usize
            } else {
                old(self).samples
            },
    {
        let _ = text;
        if self.samples < usize::MAX {
            self.samples = self.samples + 1;
        }
        Language::Unknown
    }

    /// The language most of the fed samples agreed on, when any detection
    /// met the confidence floor.
    pub fn most_frequent_language(&self) -> (r: Option<Language>)
        ensures
            r is None,
    {
        None
    }
}

} // verus!

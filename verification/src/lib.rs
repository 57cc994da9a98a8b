//! Full-text indexing core for a mail store.
//!
//! The crate builds language-aware token postings for structured documents,
//! serializes them into a compact bitmap-plus-positions container, and keeps
//! them in a key-value store under a deterministic key layout, so that a
//! search planner can resolve token matches to documents and positions.

pub mod batch;
pub mod detect;
pub mod document;
pub mod hash;
pub mod index;
pub mod keys;
pub mod language;
pub mod laws;
pub mod parser;
pub mod postings;
pub mod property;
pub mod reference;
pub mod remove;
pub mod stem;
pub mod store;
pub mod token_map;
pub mod tokenize;
pub mod varint;

//! Message archive and search: deep links, text normalisation, character
//! bigrams, query planning with keyset pagination, highlight spans, the
//! collector's per-message and retry decisions, and session encryption.

pub mod collector;
pub mod commands;
pub mod db;
pub mod highlight;
pub mod link;
pub mod rows;
pub mod search;
pub mod security;
pub mod store;
pub mod ngram;
pub mod text;
pub mod tokenizer;


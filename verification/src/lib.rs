//! Pairwise cosine similarity over bags of words.
//!
//! Each pair of documents is scored on its own: the documents are lowercased
//! and split into alphanumeric tokens, a joint vocabulary is built for the
//! pair, both documents are turned into count vectors over that vocabulary,
//! and the cosine similarity of the two vectors is computed exactly in
//! integer arithmetic and rounded to a fixed scale of hundredths
//! (0 = no overlap, 100 = identical direction). A batch operation scores
//! two aligned columns of documents in parallel, preserving input order.

pub mod calculator;
pub mod counts;
pub mod engine;
pub mod laws;
pub mod tokenizer;
pub mod vectorizer;

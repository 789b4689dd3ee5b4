//! Mines a local git repository into a queryable model of its composition
//! (languages, sizes, line counts) and change history (commit frequency,
//! per-file churn, contributor attribution), serializes that model into a
//! deterministic interchange document, and flattens it into ordered text
//! tokens for an embedding provider.

pub mod data;
pub mod embedding;
pub mod errors;
pub mod json;
pub mod repository;
pub mod source;
pub mod text;

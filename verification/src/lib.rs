//! Verified core of a vector store on a relational backend, and of a
//! web-search tool.
//!
//! Everything here computes on plain values. Embedding providers, database
//! connections and HTTP clients live with the caller, which performs the
//! actions this crate decides on and hands the outcomes back.

pub mod double;
pub mod json;
pub mod schemas;
pub mod text;
pub mod tools;
pub mod vectorstore;

//! The vector store: options, errors, and the store on a relational backend.

pub mod error;
pub mod filters;
pub mod identity;
pub mod ingest;
pub mod options;
pub mod pgvector;
pub mod search;
pub mod sql;

//! Per-call options of the store's operations.

use crate::double::Double;
use crate::json::JsonValue;
use vstd::prelude::*;

verus! {

/// What a caller may set for one call. `E` is the handle of an embedder.
pub struct VecStoreOptions<E> {
    pub name_space: Option<String>,
    pub score_threshold: Option<Double>,
    pub filters: Option<JsonValue>,
    pub embedder: Option<E>,
}

impl<E> VecStoreOptions<E> {
    /// Options with nothing set.
    pub fn new() -> (opt: Self)
        ensures
            opt.name_space is None,
            opt.score_threshold is None,
            opt.filters is None,
            opt.embedder is None,
    {
        VecStoreOptions { name_space: None, score_threshold: None, filters: None, embedder: None }
    }

    pub fn with_name_space(self, name_space: &str) -> (opt: Self)
        ensures
            opt.name_space is Some,
            opt.name_space->0@ == name_space@,
            opt.score_threshold == self.score_threshold,
            opt.filters == self.filters,
            opt.embedder == self.embedder,
    {
        VecStoreOptions {
            name_space: Some(String::from_str(name_space)),
            score_threshold: self.score_threshold,
            filters: self.filters,
            embedder: self.embedder,
        }
    }

    pub fn with_score_threshold(self, score_threshold: Double) -> (opt: Self)
        ensures
            opt.name_space == self.name_space,
            opt.score_threshold == Some(score_threshold),
            opt.filters == self.filters,
            opt.embedder == self.embedder,
    {
        VecStoreOptions {
            name_space: self.name_space,
            score_threshold: Some(score_threshold),
            filters: self.filters,
            embedder: self.embedder,
        }
    }

    pub fn with_filters(self, filters: JsonValue) -> (opt: Self)
        ensures
            opt.name_space == self.name_space,
            opt.score_threshold == self.score_threshold,
            opt.filters == Some(filters),
            opt.embedder == self.embedder,
    {
        VecStoreOptions {
            name_space: self.name_space,
            score_threshold: self.score_threshold,
            filters: Some(filters),
            embedder: self.embedder,
        }
    }

    pub fn with_embedder(self, embedder: E) -> (opt: Self)
        ensures
            opt.name_space == self.name_space,
            opt.score_threshold == self.score_threshold,
            opt.filters == self.filters,
            opt.embedder == Some(embedder),
    {
        VecStoreOptions {
            name_space: self.name_space,
            score_threshold: self.score_threshold,
            filters: self.filters,
            embedder: Some(embedder),
        }
    }
}

impl<E> Default for VecStoreOptions<E> {
    fn default() -> (opt: Self)
        ensures
            opt.name_space is None,
            opt.score_threshold is None,
            opt.filters is None,
            opt.embedder is None,
    {
        VecStoreOptions::new()
    }
}

} // verus!

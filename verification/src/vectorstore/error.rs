//! What can go wrong in the vector store.

use vstd::prelude::*;

verus! {

/// A failed store operation.
#[derive(Debug, PartialEq, Eq)]
pub enum StoreError {
    /// The filters are not an object of scalar values.
    InvalidFilterShape,
    /// The score threshold is not a number from 0 to 1.
    InvalidScoreThreshold,
    /// An option was set that the operation does not take.
    UnsupportedOption,
    /// The embedding provider returned another number of vectors than it
    /// was given texts.
    EmbeddingCountMismatch,
    /// The embedding provider failed; its message is kept as it came.
    EmbeddingProviderFailure(String),
    /// The backend failed; its message is kept as it came.
    BackendFailure(String),
}

/// The error without its storage: messages by their characters.
pub enum StoreErrorView {
    InvalidFilterShape,
    InvalidScoreThreshold,
    UnsupportedOption,
    EmbeddingCountMismatch,
    EmbeddingProviderFailure(Seq<char>),
    BackendFailure(Seq<char>),
}

impl View for StoreError {
    type V = StoreErrorView;

    open spec fn view(&self) -> StoreErrorView {
        match self {
            StoreError::InvalidFilterShape => StoreErrorView::InvalidFilterShape,
            StoreError::InvalidScoreThreshold => StoreErrorView::InvalidScoreThreshold,
            StoreError::UnsupportedOption => StoreErrorView::UnsupportedOption,
            StoreError::EmbeddingCountMismatch => StoreErrorView::EmbeddingCountMismatch,
            StoreError::EmbeddingProviderFailure(m) => StoreErrorView::EmbeddingProviderFailure(m@),
            StoreError::BackendFailure(m) => StoreErrorView::BackendFailure(m@),
        }
    }
}

impl StoreErrorView {
    /// The text shown for the error.
    pub open spec fn message(self) -> Seq<char> {
        match self {
            StoreErrorView::InvalidFilterShape => "Invalid filters format"@,
            StoreErrorView::InvalidScoreThreshold => "Invalid score threshold"@,
            StoreErrorView::UnsupportedOption =>
                "score_threshold, filters, and name_space are not supported in pgvector"@,
            StoreErrorView::EmbeddingCountMismatch =>
                "Number of vectors and documents do not match"@,
            StoreErrorView::EmbeddingProviderFailure(m) => m,
            StoreErrorView::BackendFailure(m) => m,
        }
    }
}

impl StoreError {
    /// The text shown for the error.
    pub fn message(&self) -> (text: String)
        ensures
            text@ == self@.message(),
    {
        match self {
            StoreError::InvalidFilterShape => String::from_str("Invalid filters format"),
            StoreError::InvalidScoreThreshold => String::from_str("Invalid score threshold"),
            StoreError::UnsupportedOption => String::from_str(
                "score_threshold, filters, and name_space are not supported in pgvector",
            ),
            StoreError::EmbeddingCountMismatch => String::from_str(
                "Number of vectors and documents do not match",
            ),
            StoreError::EmbeddingProviderFailure(m) => m.clone(),
            StoreError::BackendFailure(m) => m.clone(),
        }
    }
}

} // verus!

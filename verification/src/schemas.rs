//! The document that goes into the store and comes back from a search.

use crate::double::Double;
use crate::json::JsonValue;
use vstd::prelude::*;

verus! {

/// A text with its metadata.
///
/// `score` is ignored when the document is stored. A search sets it to the
/// distance between the document and the query: smaller is closer.
#[derive(Debug, PartialEq, Eq)]
pub struct Document {
    pub page_content: String,
    pub metadata: Vec<(String, JsonValue)>,
    pub score: Double,
}

impl Document {
    /// A document with the given text, no metadata and score `0.0`.
    pub fn new(page_content: &str) -> (doc: Document)
        ensures
            doc.page_content@ == page_content@,
            doc.metadata@.len() == 0,
            doc.score.bits == 0,
    {
        Document {
            page_content: String::from_str(page_content),
            metadata: Vec::new(),
            score: Double::zero(),
        }
    }

    /// The same document with `metadata` in place of its own.
    pub fn with_metadata(self, metadata: Vec<(String, JsonValue)>) -> (doc: Document)
        ensures
            doc.page_content == self.page_content,
            doc.metadata == metadata,
            doc.score == self.score,
    {
        Document { page_content: self.page_content, metadata, score: self.score }
    }

    /// The same document with `score` in place of its own.
    pub fn with_score(self, score: Double) -> (doc: Document)
        ensures
            doc.page_content == self.page_content,
            doc.metadata == self.metadata,
            doc.score == score,
    {
        Document { page_content: self.page_content, metadata: self.metadata, score }
    }
}

} // verus!

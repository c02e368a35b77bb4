//! The data model of the core: document records, chunk vector entries,
//! the plain shapes handed in by the external collaborators, and the
//! similarity score with its non-strict comparison.

use vstd::prelude::*;

verus! {

/// A persisted descriptor of one ingested URL.
///
/// Invariant kept by the orchestration logic: `chunk_count` equals the
/// number of chunks the summarizer returned and the number of vector
/// entries inserted for this document.
#[derive(Debug)]
pub struct DocInfo {
    /// Opaque unique identifier, generated at ingestion time.
    pub id: String,
    /// The ingested URL, the unique business key.
    pub url: String,
    /// Timestamp of ingestion, as handed in by the caller.
    pub created_at: String,
    /// Location of the raw content in the blob store.
    pub bucket_path: String,
    /// MIME type of the raw content.
    pub content_type: String,
    /// Byte length of the raw content.
    pub size: usize,
    /// Title produced by the summarizer.
    pub title: String,
    /// Summary produced by the summarizer.
    pub summary: String,
    /// Number of chunks produced and vectorized.
    pub chunk_count: usize,
}

impl Clone for DocInfo {
    /// A clone is the same record, field for field.
    fn clone(&self) -> (res: Self)
        ensures
            res == *self,
    {
        DocInfo {
            id: self.id.clone(),
            url: self.url.clone(),
            created_at: self.created_at.clone(),
            bucket_path: self.bucket_path.clone(),
            content_type: self.content_type.clone(),
            size: self.size,
            title: self.title.clone(),
            summary: self.summary.clone(),
            chunk_count: self.chunk_count,
        }
    }
}

/// The metadata attached to one chunk vector entry.
#[derive(Debug)]
pub struct VectorMetadata {
    /// The owning document's id; enforced only by convention, not by the store.
    pub document_id: String,
    /// Zero-based position of the chunk within the document.
    pub chunk_id: u64,
}

/// What the content fetcher returned for a URL.
#[derive(Debug)]
pub struct FetchedContent {
    /// The raw bytes of the content.
    pub content: Vec<u8>,
    /// The MIME type the fetcher reported.
    pub content_type: String,
}

/// What the summarizer/chunker returned for fetched content.
#[derive(Debug)]
pub struct ProcessedContent {
    /// Title of the document.
    pub title: String,
    /// Summary of the document.
    pub summary: String,
    /// The chunk texts, in document order.
    pub chunks: Vec<String>,
}

/// A similarity score as the ranking logic reads it.
///
/// The vector store reports floating-point scores; callers map each one
/// order-preservingly to an integer, and map a not-a-number score to
/// `Incomparable`. An `Incomparable` score is never greater than any
/// score and no score is greater than it: comparisons against it come
/// out "treat as equal", which keeps the ordering non-strict instead of
/// raising an error.
#[derive(Clone, Copy, Debug, PartialEq, Eq, Structural)]
pub enum Score {
    /// A score that did not compare (not-a-number at the source).
    Incomparable,
    /// An ordinary score, mapped order-preservingly to an integer.
    /// Zero stands for the floating-point zero.
    Value(i64),
}

/// When one score is strictly greater than another: both are ordinary
/// values and the first integer is larger. `Incomparable` is never on
/// either side of a strict comparison.
pub open spec fn score_gt(a: Score, b: Score) -> bool {
    a is Value && b is Value && a->0 > b->0
}

impl Score {
    /// The strict "greater than" test the ranking uses.
    #[verifier::when_used_as_spec(score_gt_spec)]
    pub fn gt(self, other: Score) -> (r: bool)
        ensures
            r == score_gt(self, other),
    {
        match (self, other) {
            (Score::Value(a), Score::Value(b)) => a > b,
            _ => false,
        }
    }

    /// Spec alias so `a.gt(b)` can stand in contracts.
    pub open spec fn score_gt_spec(self, other: Score) -> bool {
        score_gt(self, other)
    }
}

} // verus!

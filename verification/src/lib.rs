//! Core of a link ingestion and retrieval service.
//!
//! Given a URL, the service downloads the content, summarizes and splits it
//! into chunks, embeds each chunk, and persists the result across three
//! independent backing stores: a blob store for the raw bytes, a metadata
//! store for document records, and a vector index for chunk embeddings.
//! This crate holds the store-orchestration and ranking logic: deduplication
//! by URL, the ingestion plan that keeps the chunk counts of the three stores
//! in agreement, the grouping and ranking of per-chunk similarity matches
//! into per-document results, and the cascading deletion plan.
//!
//! The stores themselves, the fetcher, the summarizer and the embedder are
//! external collaborators: callers run the I/O and hand the plain results to
//! the functions here.

use vstd::prelude::*;

pub mod delete;
pub mod ids;
pub mod ingest;
pub mod model;
pub mod search;

verus! {

/// The failures an orchestrated operation can surface, one per stage.
///
/// There is no cross-store transaction: a failure aborts the remaining
/// steps of the current operation and already-completed writes stay behind.
#[derive(Clone, Copy, Debug, PartialEq, Eq, Structural)]
pub enum CoreError {
    /// The content behind the URL could not be retrieved.
    FetchFailure,
    /// The summarize/chunk step failed or returned unusable output.
    ProcessingFailure,
    /// An embedding call failed.
    EmbeddingFailure,
    /// One of the three stores rejected a read or write.
    StoreFailure,
    /// A lookup or delete targeted a URL or id that does not exist.
    NotFound,
}

impl CoreError {
    /// The terminal description callers surface: it names the stage
    /// that failed.
    pub fn message(&self) -> (m: &'static str)
        ensures
            m@ == match *self {
                CoreError::FetchFailure => "content could not be retrieved"@,
                CoreError::ProcessingFailure => "summarize/chunk step failed"@,
                CoreError::EmbeddingFailure => "embedding call failed"@,
                CoreError::StoreFailure => "a store rejected the operation"@,
                CoreError::NotFound => "not found"@,
            },
    {
        match *self {
            CoreError::FetchFailure => "content could not be retrieved",
            CoreError::ProcessingFailure => "summarize/chunk step failed",
            CoreError::EmbeddingFailure => "embedding call failed",
            CoreError::StoreFailure => "a store rejected the operation",
            CoreError::NotFound => "not found",
        }
    }
}

} // verus!

//! Ingestion orchestration: the dedup decision for a URL and the plan
//! for a new document — the record to persist and the vector entries to
//! insert, with the three chunk counts in agreement.
//!
//! The caller runs the external steps in strict sequence: look the URL
//! up, fetch, summarize/chunk, embed each chunk in order, insert each
//! planned vector entry with its chunk's embedding, write the blob,
//! save the record. Any step's error aborts the remaining steps; no
//! compensating rollback of completed writes is performed (there is no
//! cross-store transaction — an acknowledged design gap).

use vstd::prelude::*;

use crate::ids::{get_bucket_path, new_document_id, spec_bucket_path, spec_vector_id, vector_id};
use crate::model::{DocInfo, FetchedContent, ProcessedContent, VectorMetadata};

verus! {

/// What the dedup resolver decided for a URL.
pub enum IngestDecision {
    /// The URL is already known: return this record and do no further
    /// work — no fetch, no embedding, no store write.
    Reuse(DocInfo),
    /// The URL is new: proceed with ingestion.
    Proceed,
}

/// One planned chunk vector entry: the derived id and the metadata to
/// insert alongside the chunk's embedding.
pub struct VectorInsert {
    /// The derived id `"{document_id}-{chunk_id}"`.
    pub vector_id: String,
    /// The owning document and chunk position.
    pub metadata: VectorMetadata,
}

/// The dedup decision as a function of the metadata store's answer.
pub open spec fn spec_resolve_dedup(lookup: Option<DocInfo>) -> IngestDecision {
    match lookup {
        Some(existing) => IngestDecision::Reuse(existing),
        None => IngestDecision::Proceed,
    }
}

/// Decides whether a URL needs ingestion, from the metadata store's
/// find-by-url answer. A known URL short-circuits to its existing
/// record; only an unknown URL proceeds.
pub fn resolve_dedup(lookup: Option<DocInfo>) -> (decision: IngestDecision)
    ensures
        decision == spec_resolve_dedup(lookup),
{
    match lookup {
        Some(existing) => IngestDecision::Reuse(existing),
        None => IngestDecision::Proceed,
    }
}

/// Ingesting the same URL a second time (sequentially, no race) plans
/// no new work: once a record for the URL is stored, the lookup returns
/// it and the decision is to reuse that very record.
pub proof fn lemma_dedup_idempotent(stored: DocInfo)
    ensures
        spec_resolve_dedup(Some(stored)) == IngestDecision::Reuse(stored),
        !(spec_resolve_dedup(Some(stored)) is Proceed),
{
}

/// The plan of chunk vector entries for a document with `chunk_total`
/// chunks: entry `i` carries vector id `"{document_id}-{i}"` and chunk
/// position `i`, for exactly `i` in `0 .. chunk_total`.
pub fn plan_vector_inserts(document_id: &str, chunk_total: usize) -> (plan: Vec<VectorInsert>)
    ensures
        plan@.len() == chunk_total,
        forall|i: int|
            0 <= i < chunk_total ==> {
                &&& (#[trigger] plan@[i]).vector_id@ == spec_vector_id(document_id@, i as nat)
                &&& plan@[i].metadata.document_id@ == document_id@
                &&& plan@[i].metadata.chunk_id == i
            },
{
    let mut plan: Vec<VectorInsert> = Vec::new();
    let mut i: usize = 0;
    while i < chunk_total
        invariant
            0 <= i <= chunk_total,
            plan@.len() == i,
            forall|k: int|
                0 <= k < i ==> {
                    &&& (#[trigger] plan@[k]).vector_id@ == spec_vector_id(document_id@, k as nat)
                    &&& plan@[k].metadata.document_id@ == document_id@
                    &&& plan@[k].metadata.chunk_id == k
                },
        decreases chunk_total - i,
    {
        let id = vector_id(document_id, i as u64);
        let metadata = VectorMetadata {
            document_id: document_id.to_owned(),
            chunk_id: i as u64,
        };
        plan.push(VectorInsert { vector_id: id, metadata });
        i = i + 1;
    }
    plan
}

/// Plans the ingestion of a new URL from the fetched and processed
/// content: a fresh document record and the vector entries to insert.
///
/// The record's `chunk_count`, the number of chunk texts, and the
/// number of planned vector entries all agree, and entry `i` carries
/// the id `"{id}-{i}"` for the fresh document id. The id itself is a
/// fresh random UUID, so only its length is promised.
pub fn ingest_new_document(
    url: &str,
    created_at: String,
    fetched: FetchedContent,
    processed: ProcessedContent,
) -> (r: (DocInfo, Vec<VectorInsert>))
    ensures
        r.0.id@.len() == 36,
        r.0.url@ == url@,
        r.0.created_at == created_at,
        r.0.bucket_path@ == spec_bucket_path(fetched.content_type@, r.0.id@),
        r.0.content_type == fetched.content_type,
        r.0.size == fetched.content@.len(),
        r.0.title == processed.title,
        r.0.summary == processed.summary,
        r.0.chunk_count == processed.chunks@.len(),
        r.1@.len() == r.0.chunk_count,
        forall|i: int|
            0 <= i < r.1@.len() ==> {
                &&& (#[trigger] r.1@[i]).vector_id@ == spec_vector_id(r.0.id@, i as nat)
                &&& r.1@[i].metadata.document_id@ == r.0.id@
                &&& r.1@[i].metadata.chunk_id == i
            },
{
    let link_id = new_document_id();
    let bucket_path = get_bucket_path(&fetched.content_type, link_id.as_str());
    let content_size = fetched.content.len();
    let chunk_total = processed.chunks.len();
    let plan = plan_vector_inserts(link_id.as_str(), chunk_total);
    let row = DocInfo {
        id: link_id,
        url: url.to_owned(),
        created_at,
        bucket_path,
        content_type: fetched.content_type,
        size: content_size,
        title: processed.title,
        summary: processed.summary,
        chunk_count: chunk_total,
    };
    (row, plan)
}

/// The count invariant of an ingestion plan: for a document with `n`
/// chunks, the planned vector ids are exactly `"{id}-0"` through
/// `"{id}-{n-1}"` — every id in the plan is the derived id of a chunk
/// position below `n`, every such position is planned, and no two
/// entries share an id.
pub proof fn lemma_count_invariant(ids: Seq<Seq<char>>, document_id: Seq<char>, n: nat)
    requires
        ids.len() == n,
        forall|i: int| 0 <= i < n ==> ids[i] == spec_vector_id(document_id, i as nat),
    ensures
        forall|s: Seq<char>|
            ids.contains(s) <==> (exists|i: nat| i < n && s == spec_vector_id(document_id, i)),
        forall|i: int, j: int| 0 <= i < j < n ==> ids[i] != ids[j],
{
    assert forall|s: Seq<char>| ids.contains(s) implies (exists|i: nat|
        i < n && s == spec_vector_id(document_id, i)) by {
        let k = choose|k: int| 0 <= k < ids.len() && ids[k] == s;
        assert((k as nat) < n && s == spec_vector_id(document_id, k as nat));
    }
    assert forall|s: Seq<char>| (exists|i: nat| i < n && s == spec_vector_id(document_id, i))
        implies ids.contains(s) by {
        let i = choose|i: nat| i < n && s == spec_vector_id(document_id, i);
        assert(ids[i as int] == s);
    }
    assert forall|i: int, j: int| 0 <= i < j < n implies ids[i] != ids[j] by {
        crate::ids::lemma_vector_ids_distinct(document_id, i as nat, j as nat);
    }
}

} // verus!

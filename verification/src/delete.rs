//! Cascading deletion: the existence check on the metadata store's
//! delete-by-url answer, and the plan naming everything else that must
//! go — the blob at the record's `bucket_path` and every chunk vector
//! entry `"{id}-0"` through `"{id}-{chunk_count-1}"`.
//!
//! The caller runs the steps in strict sequence: delete the record by
//! URL, delete the blob, delete the vectors. A failure aborts the
//! remaining steps; writes already done stay behind (there is no
//! cross-store transaction).

use vstd::prelude::*;

use crate::ids::{spec_vector_id, vector_id};
use crate::model::DocInfo;
use crate::CoreError;

verus! {

/// What the deletion orchestrator must remove after the metadata
/// record is gone.
pub struct DeletePlan {
    /// The blob store path of the raw content.
    pub bucket_path: String,
    /// The ids of all the document's chunk vector entries.
    pub vector_ids: Vec<String>,
}

/// Turns the metadata store's delete-by-url answer into the operation's
/// outcome: an unknown URL fails with `NotFound` — so a second delete
/// of the same URL fails — and a removed record proceeds.
pub fn delete_decision(removed: Option<DocInfo>) -> (r: Result<DocInfo, CoreError>)
    ensures
        removed is Some ==> r == Ok::<DocInfo, CoreError>(removed->0),
        removed is None ==> r == Err::<DocInfo, CoreError>(CoreError::NotFound),
{
    match removed {
        Some(record) => Ok(record),
        None => Err(CoreError::NotFound),
    }
}

/// Plans the rest of the cascade for a deleted record: its blob path,
/// and exactly the vector ids of chunks `0 .. chunk_count`.
pub fn delete_plan(record: &DocInfo) -> (plan: DeletePlan)
    ensures
        plan.bucket_path == record.bucket_path,
        plan.vector_ids@.len() == record.chunk_count,
        forall|i: int|
            0 <= i < record.chunk_count ==> (#[trigger] plan.vector_ids@[i])@ == spec_vector_id(
                record.id@,
                i as nat,
            ),
{
    let mut vector_ids: Vec<String> = Vec::new();
    let mut i: usize = 0;
    while i < record.chunk_count
        invariant
            i <= record.chunk_count,
            vector_ids@.len() == i,
            forall|k: int|
                0 <= k < i ==> (#[trigger] vector_ids@[k])@ == spec_vector_id(
                    record.id@,
                    k as nat,
                ),
        decreases record.chunk_count - i,
    {
        vector_ids.push(vector_id(record.id.as_str(), i as u64));
        i = i + 1;
    }
    DeletePlan { bucket_path: record.bucket_path.clone(), vector_ids }
}

} // verus!

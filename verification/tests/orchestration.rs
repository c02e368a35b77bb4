use linkstore::delete::{delete_decision, delete_plan};
use linkstore::ids::{get_bucket_path, get_extension_from_content_type, vector_id};
use linkstore::ingest::{ingest_new_document, plan_vector_inserts, resolve_dedup, IngestDecision};
use linkstore::model::{DocInfo, FetchedContent, ProcessedContent, Score, VectorMetadata};
use linkstore::CoreError;

fn sample_doc(id: &str, url: &str, chunk_count: usize) -> DocInfo {
    DocInfo {
        id: id.to_string(),
        url: url.to_string(),
        created_at: "2024-01-01T00:00:00Z".to_string(),
        bucket_path: format!("content/{}.html", id),
        content_type: "text/html".to_string(),
        size: 900,
        title: "Title".to_string(),
        summary: "Summary".to_string(),
        chunk_count,
    }
}

#[test]
fn vector_id_formats_document_and_chunk() {
    assert_eq!(vector_id("d", 0), "d-0");
    assert_eq!(vector_id("d", 1), "d-1");
    assert_eq!(vector_id("d", 10), "d-10");
    assert_eq!(vector_id("d", 205), "d-205");
    assert_eq!(
        vector_id("936da01f-9abd-4d9d-80c7-02af85c822a8", 12),
        "936da01f-9abd-4d9d-80c7-02af85c822a8-12"
    );
}

#[test]
fn extension_mapping_and_fallback() {
    assert_eq!(get_extension_from_content_type(&"text/html".to_string()), "html");
    assert_eq!(get_extension_from_content_type(&"text/plain".to_string()), "txt");
    assert_eq!(get_extension_from_content_type(&"application/pdf".to_string()), "pdf");
    assert_eq!(get_extension_from_content_type(&"application/json".to_string()), "json");
    assert_eq!(get_extension_from_content_type(&"text/markdown".to_string()), "md");
    assert_eq!(get_extension_from_content_type(&"image/png".to_string()), "bin");
}

#[test]
fn bucket_path_from_content_type_and_id() {
    assert_eq!(get_bucket_path(&"text/html".to_string(), "abc"), "content/abc.html");
    assert_eq!(get_bucket_path(&"video/mp4".to_string(), "xyz"), "content/xyz.bin");
}

#[test]
fn ingest_three_chunks_plans_three_vectors() {
    let fetched = FetchedContent {
        content: vec![7u8; 900],
        content_type: "text/html".to_string(),
    };
    let processed = ProcessedContent {
        title: "A page".to_string(),
        summary: "About a".to_string(),
        chunks: vec!["one".to_string(), "two".to_string(), "three".to_string()],
    };
    let (doc, plan) = ingest_new_document(
        "https://a",
        "2024-01-01T00:00:00Z".to_string(),
        fetched,
        processed,
    );
    assert_eq!(doc.id.len(), 36);
    assert_eq!(doc.url, "https://a");
    assert_eq!(doc.created_at, "2024-01-01T00:00:00Z");
    assert_eq!(doc.content_type, "text/html");
    assert_eq!(doc.size, 900);
    assert_eq!(doc.title, "A page");
    assert_eq!(doc.summary, "About a");
    assert_eq!(doc.chunk_count, 3);
    assert_eq!(doc.bucket_path, format!("content/{}.html", doc.id));
    assert_eq!(plan.len(), 3);
    for (i, entry) in plan.iter().enumerate() {
        assert_eq!(entry.vector_id, format!("{}-{}", doc.id, i));
        assert_eq!(entry.metadata.document_id, doc.id);
        assert_eq!(entry.metadata.chunk_id, i as u64);
    }
}

#[test]
fn fresh_ids_differ_between_ingestions() {
    let make = || {
        ingest_new_document(
            "https://a",
            "t".to_string(),
            FetchedContent { content: vec![], content_type: "text/plain".to_string() },
            ProcessedContent { title: String::new(), summary: String::new(), chunks: vec![] },
        )
    };
    let (first, first_plan) = make();
    let (second, _) = make();
    assert_ne!(first.id, second.id);
    assert_eq!(first.chunk_count, 0);
    assert!(first_plan.is_empty());
}

#[test]
fn reingest_known_url_reuses_record() {
    let stored = sample_doc("id-1", "https://a", 3);
    match resolve_dedup(Some(stored)) {
        IngestDecision::Reuse(record) => {
            assert_eq!(record.id, "id-1");
            assert_eq!(record.url, "https://a");
            assert_eq!(record.chunk_count, 3);
        }
        IngestDecision::Proceed => panic!("known URL must not be re-ingested"),
    }
}

#[test]
fn unknown_url_proceeds_to_ingestion() {
    assert!(matches!(resolve_dedup(None), IngestDecision::Proceed));
}

#[test]
fn plan_vector_inserts_covers_every_chunk_once() {
    let plan = plan_vector_inserts("doc", 4);
    let ids: Vec<&str> = plan.iter().map(|e| e.vector_id.as_str()).collect();
    assert_eq!(ids, vec!["doc-0", "doc-1", "doc-2", "doc-3"]);
    for i in 0..4 {
        for j in 0..4 {
            if i != j {
                assert_ne!(plan[i].vector_id, plan[j].vector_id);
            }
        }
    }
}

#[test]
fn delete_plan_names_blob_and_all_vectors() {
    let doc = sample_doc("id-9", "https://a", 3);
    let plan = delete_plan(&doc);
    assert_eq!(plan.bucket_path, "content/id-9.html");
    assert_eq!(plan.vector_ids, vec!["id-9-0", "id-9-1", "id-9-2"]);
}

#[test]
fn second_delete_fails_with_not_found() {
    let doc = sample_doc("id-9", "https://a", 3);
    let first = delete_decision(Some(doc));
    assert!(first.is_ok());
    assert_eq!(first.unwrap().id, "id-9");
    let second = delete_decision(None);
    assert_eq!(second.unwrap_err(), CoreError::NotFound);
}

#[test]
fn error_variants_are_distinct() {
    assert_ne!(CoreError::FetchFailure, CoreError::ProcessingFailure);
    assert_ne!(CoreError::EmbeddingFailure, CoreError::StoreFailure);
    assert_ne!(CoreError::StoreFailure, CoreError::NotFound);
}

#[test]
fn score_comparison_treats_incomparable_as_tie() {
    assert!(Score::Value(2).gt(Score::Value(1)));
    assert!(!Score::Value(1).gt(Score::Value(2)));
    assert!(!Score::Value(1).gt(Score::Value(1)));
    assert!(!Score::Incomparable.gt(Score::Value(-5)));
    assert!(!Score::Value(5).gt(Score::Incomparable));
    assert!(!Score::Incomparable.gt(Score::Incomparable));
}

#[test]
fn metadata_carries_document_and_chunk() {
    let metadata = VectorMetadata { document_id: "d".to_string(), chunk_id: 2 };
    assert_eq!(metadata.document_id, "d");
    assert_eq!(metadata.chunk_id, 2);
}

#[test]
fn error_messages_name_the_stage() {
    assert_eq!(CoreError::FetchFailure.message(), "content could not be retrieved");
    assert_eq!(CoreError::ProcessingFailure.message(), "summarize/chunk step failed");
    assert_eq!(CoreError::EmbeddingFailure.message(), "embedding call failed");
    assert_eq!(CoreError::StoreFailure.message(), "a store rejected the operation");
    assert_eq!(CoreError::NotFound.message(), "not found");
}

use linkstore::model::{DocInfo, Score, VectorMetadata};
use linkstore::search::{
    chunk_ids, collect_doc_ids, rank_documents, resolve_results, sort_pairs_desc, DocRanking,
    VectorHit, QUERY_POOL_SIZE, RESULT_DOC_CAP,
};

fn hit(document_id: &str, chunk_id: u64, score: Score) -> VectorHit {
    VectorHit {
        vector_id: format!("{}-{}", document_id, chunk_id),
        score,
        metadata: VectorMetadata { document_id: document_id.to_string(), chunk_id },
    }
}

fn record(id: &str) -> DocInfo {
    DocInfo {
        id: id.to_string(),
        url: format!("https://{}", id),
        created_at: "2024-01-01T00:00:00Z".to_string(),
        bucket_path: format!("content/{}.html", id),
        content_type: "text/html".to_string(),
        size: 100,
        title: id.to_string(),
        summary: String::new(),
        chunk_count: 3,
    }
}

/// A score mapped from a float the way callers are expected to do it:
/// order-preserving on comparable values, `Incomparable` for NaN.
fn score_of(f: f32) -> Score {
    if f.is_nan() {
        Score::Incomparable
    } else {
        let bits = f.to_bits() as i32;
        let key = if bits < 0 { -((bits & 0x7fff_ffff) as i64) } else { bits as i64 };
        Score::Value(key)
    }
}

#[test]
fn design_constants_hold() {
    assert_eq!(QUERY_POOL_SIZE, 20);
    assert_eq!(RESULT_DOC_CAP, 5);
}

#[test]
fn groups_chunks_per_document_sorted_by_score() {
    let hits = vec![
        hit("D1", 0, score_of(0.9)),
        hit("D1", 2, score_of(0.8)),
        hit("D2", 1, score_of(0.85)),
    ];
    let ranked = rank_documents(&hits);
    assert_eq!(ranked.len(), 2);
    assert_eq!(ranked[0].document_id, "D1");
    assert_eq!(chunk_ids(&ranked[0]), vec![0, 2]);
    assert_eq!(ranked[1].document_id, "D2");
    assert_eq!(chunk_ids(&ranked[1]), vec![1]);
}

#[test]
fn no_hits_means_empty_result() {
    let ranked = rank_documents(&vec![]);
    assert!(ranked.is_empty());
}

#[test]
fn caps_at_five_documents_dropping_the_lowest() {
    let hits = vec![
        hit("D1", 0, Score::Value(60)),
        hit("D2", 0, Score::Value(50)),
        hit("D3", 0, Score::Value(40)),
        hit("D4", 0, Score::Value(30)),
        hit("D5", 0, Score::Value(20)),
        hit("D6", 0, Score::Value(10)),
    ];
    let ranked = rank_documents(&hits);
    assert_eq!(ranked.len(), 5);
    let ids: Vec<&str> = ranked.iter().map(|r| r.document_id.as_str()).collect();
    assert_eq!(ids, vec!["D1", "D2", "D3", "D4", "D5"]);
}

#[test]
fn best_chunk_score_orders_documents() {
    let hits = vec![
        hit("low", 0, Score::Value(10)),
        hit("high", 0, Score::Value(5)),
        hit("high", 1, Score::Value(90)),
        hit("mid", 4, Score::Value(40)),
    ];
    let ranked = rank_documents(&hits);
    let ids: Vec<&str> = ranked.iter().map(|r| r.document_id.as_str()).collect();
    assert_eq!(ids, vec!["high", "mid", "low"]);
    assert_eq!(chunk_ids(&ranked[0]), vec![1, 0]);
}

#[test]
fn incomparable_scores_rank_without_error() {
    let hits = vec![
        hit("D1", 0, score_of(f32::NAN)),
        hit("D2", 0, score_of(0.5)),
        hit("D1", 1, score_of(0.7)),
    ];
    let ranked = rank_documents(&hits);
    assert_eq!(ranked.len(), 2);
    assert_eq!(ranked[0].document_id, "D1");
    assert_eq!(ranked[1].document_id, "D2");
    assert_eq!(chunk_ids(&ranked[0]).len(), 2);
}

#[test]
fn distinct_ids_keep_first_appearance_order() {
    let hits = vec![
        hit("B", 0, Score::Value(1)),
        hit("A", 0, Score::Value(2)),
        hit("B", 1, Score::Value(3)),
        hit("C", 0, Score::Value(4)),
    ];
    let ids = collect_doc_ids(&hits);
    assert_eq!(ids, vec!["B", "A", "C"]);
}

#[test]
fn sort_pairs_is_descending_and_keeps_entries() {
    let sorted = sort_pairs_desc(vec![
        (Score::Value(1), 10),
        (Score::Value(9), 11),
        (Score::Incomparable, 12),
        (Score::Value(4), 13),
    ]);
    assert_eq!(sorted.len(), 4);
    let mut payloads: Vec<u64> = sorted.iter().map(|p| p.1).collect();
    payloads.sort();
    assert_eq!(payloads, vec![10, 11, 12, 13]);
    for i in 0..sorted.len() {
        for j in (i + 1)..sorted.len() {
            match (sorted[j].0, sorted[i].0) {
                (Score::Value(later), Score::Value(earlier)) => assert!(later <= earlier),
                _ => {}
            }
        }
    }
}

#[test]
fn missing_metadata_is_skipped_not_fatal() {
    let rankings = vec![
        DocRanking { document_id: "D1".to_string(), chunks: vec![(Score::Value(9), 0)] },
        DocRanking { document_id: "gone".to_string(), chunks: vec![(Score::Value(8), 1)] },
        DocRanking { document_id: "D3".to_string(), chunks: vec![(Score::Value(7), 2)] },
    ];
    let records = vec![Some(record("D1")), None, Some(record("D3"))];
    let resolved = resolve_results(&rankings, &records);
    assert_eq!(resolved.len(), 2);
    assert_eq!(resolved[0].0.id, "D1");
    assert_eq!(resolved[0].1, vec![0]);
    assert_eq!(resolved[1].0.id, "D3");
    assert_eq!(resolved[1].1, vec![2]);
}

#[test]
fn full_search_scenario_resolves_ranked_documents() {
    let hits = vec![
        hit("D1", 0, score_of(0.9)),
        hit("D1", 2, score_of(0.8)),
        hit("D2", 1, score_of(0.85)),
    ];
    let ranked = rank_documents(&hits);
    let records: Vec<Option<DocInfo>> =
        ranked.iter().map(|r| Some(record(&r.document_id))).collect();
    let resolved = resolve_results(&ranked, &records);
    assert_eq!(resolved.len(), 2);
    assert_eq!(resolved[0].0.id, "D1");
    assert_eq!(resolved[0].1, vec![0, 2]);
    assert_eq!(resolved[1].0.id, "D2");
    assert_eq!(resolved[1].1, vec![1]);
}

#[test]
fn all_negative_scores_rank_by_true_maximum() {
    let hits = vec![
        hit("worse", 0, Score::Value(-5)),
        hit("better", 0, Score::Value(-1)),
        hit("worse", 1, Score::Value(-7)),
    ];
    let ranked = rank_documents(&hits);
    let ids: Vec<&str> = ranked.iter().map(|r| r.document_id.as_str()).collect();
    assert_eq!(ids, vec!["better", "worse"]);
    assert_eq!(chunk_ids(&ranked[1]), vec![0, 1]);
}

#[test]
fn negative_scores_cap_keeps_the_five_highest() {
    let hits = vec![
        hit("D1", 0, Score::Value(-60)),
        hit("D2", 0, Score::Value(-10)),
        hit("D3", 0, Score::Value(-20)),
        hit("D4", 0, Score::Value(-30)),
        hit("D5", 0, Score::Value(-40)),
        hit("D6", 0, Score::Value(-50)),
    ];
    let ranked = rank_documents(&hits);
    assert_eq!(ranked.len(), 5);
    let ids: Vec<&str> = ranked.iter().map(|r| r.document_id.as_str()).collect();
    assert_eq!(ids, vec!["D2", "D3", "D4", "D5", "D6"]);
}

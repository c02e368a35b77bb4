//! Retrieval aggregation: grouping per-chunk similarity matches by
//! document, ranking documents by best chunk score, capping the result
//! list, and resolving metadata records with missing ones skipped.

use vstd::prelude::*;

use crate::model::{DocInfo, Score, VectorMetadata, score_gt};

verus! {

broadcast use vstd::seq_lib::group_to_multiset_ensures;

/// How many chunk matches the vector store is asked for: the fixed
/// candidate pool size of a search.
pub const QUERY_POOL_SIZE: usize = 20;

/// The most documents a search result may hold.
pub const RESULT_DOC_CAP: usize = 5;

/// One chunk match returned by the vector store's similarity query.
pub struct VectorHit {
    /// The id of the matched vector entry; the ranking never reads it.
    pub vector_id: String,
    /// The similarity score of the match; higher means more similar.
    pub score: Score,
    /// The owning document and chunk position of the matched entry.
    pub metadata: VectorMetadata,
}

/// The document ids seen in the hits, each once, in first-appearance
/// order.
pub open spec fn distinct_doc_ids(hits: Seq<VectorHit>) -> Seq<Seq<char>>
    decreases hits.len(),
{
    if hits.len() == 0 {
        Seq::empty()
    } else {
        let rest = distinct_doc_ids(hits.drop_last());
        if rest.contains(hits.last().metadata.document_id@) {
            rest
        } else {
            rest.push(hits.last().metadata.document_id@)
        }
    }
}

/// One document's matched chunks as (score, chunk position) pairs, in
/// hit order.
pub open spec fn doc_chunks(hits: Seq<VectorHit>, document_id: Seq<char>) -> Seq<(Score, u64)>
    decreases hits.len(),
{
    if hits.len() == 0 {
        Seq::empty()
    } else {
        let rest = doc_chunks(hits.drop_last(), document_id);
        if hits.last().metadata.document_id@ == document_id {
            rest.push((hits.last().score, hits.last().metadata.chunk_id))
        } else {
            rest
        }
    }
}

/// The maximum of a sequence of (score, chunk position) pairs' scores
/// under the strict comparison: the first score, displaced by every
/// later strictly greater one. An incomparable score never wins a
/// strict comparison, so it never displaces the running maximum. An
/// empty sequence has no score at all: `Incomparable`.
pub open spec fn best_of(pairs: Seq<(Score, u64)>) -> Score
    decreases pairs.len(),
{
    if pairs.len() == 0 {
        Score::Incomparable
    } else if pairs.len() == 1 {
        pairs[0].0
    } else {
        let rest = best_of(pairs.drop_last());
        if score_gt(pairs.last().0, rest) {
            pairs.last().0
        } else {
            rest
        }
    }
}

/// One document's best score: the maximum of the scores of its chunks
/// that appeared in the hits.
pub open spec fn doc_best(hits: Seq<VectorHit>, document_id: Seq<char>) -> Score {
    best_of(doc_chunks(hits, document_id))
}

/// `best_of` really is a maximum: one of the pairs carries it, and no
/// pair's score strictly beats it.
pub proof fn lemma_best_of_is_max(pairs: Seq<(Score, u64)>)
    requires
        pairs.len() > 0,
    ensures
        exists|k: int| 0 <= k < pairs.len() && (#[trigger] pairs[k]).0 == best_of(pairs),
        forall|k: int| 0 <= k < pairs.len() ==> !score_gt((#[trigger] pairs[k]).0, best_of(pairs)),
    decreases pairs.len(),
{
    if pairs.len() > 1 {
        lemma_best_of_is_max(pairs.drop_last());
        let rest = best_of(pairs.drop_last());
        if score_gt(pairs.last().0, rest) {
            assert(pairs[pairs.len() - 1].0 == best_of(pairs));
        } else {
            let k = choose|k: int|
                0 <= k < pairs.drop_last().len() && (#[trigger] pairs.drop_last()[k]).0 == rest;
            assert(pairs[k].0 == best_of(pairs));
        }
        assert forall|k: int| 0 <= k < pairs.len() implies !score_gt(
            (#[trigger] pairs[k]).0,
            best_of(pairs),
        ) by {
            if k < pairs.len() - 1 {
                assert(pairs.drop_last()[k] == pairs[k]);
            }
        }
    }
}

/// Descending by score, non-strictly: no later entry strictly beats an
/// earlier one. Entries with incomparable scores tie with everything,
/// so their position is unconstrained rather than an error.
pub open spec fn pairs_sorted_desc(pairs: Seq<(Score, u64)>) -> bool {
    forall|i: int, j: int| 0 <= i < j < pairs.len() ==> !score_gt(pairs[j].0, pairs[i].0)
}

/// The ids of `distinct_doc_ids` never repeat.
pub proof fn lemma_distinct_doc_ids_no_dup(hits: Seq<VectorHit>)
    ensures
        distinct_doc_ids(hits).no_duplicates(),
    decreases hits.len(),
{
    if hits.len() > 0 {
        lemma_distinct_doc_ids_no_dup(hits.drop_last());
    }
}

/// Whether one of the collected ids reads as the given document id.
fn contains_id(ids: &Vec<String>, document_id: &String) -> (found: bool)
    ensures
        found == exists|k: int| 0 <= k < ids@.len() && (#[trigger] ids@[k])@ == document_id@,
{
    let mut j: usize = 0;
    while j < ids.len()
        invariant
            j <= ids@.len(),
            forall|k: int| 0 <= k < j ==> (#[trigger] ids@[k])@ != document_id@,
        decreases ids@.len() - j,
    {
        if ids[j] == *document_id {
            return true;
        }
        j = j + 1;
    }
    false
}

/// Collects the distinct document ids of the hits, in first-appearance
/// order.
pub fn collect_doc_ids(hits: &Vec<VectorHit>) -> (ids: Vec<String>)
    ensures
        ids@.len() == distinct_doc_ids(hits@).len(),
        forall|k: int|
            0 <= k < ids@.len() ==> (#[trigger] ids@[k])@ == distinct_doc_ids(hits@)[k],
{
    let mut ids: Vec<String> = Vec::new();
    let mut i: usize = 0;
    while i < hits.len()
        invariant
            i <= hits@.len(),
            ids@.len() == distinct_doc_ids(hits@.subrange(0, i as int)).len(),
            forall|k: int|
                0 <= k < ids@.len() ==> (#[trigger] ids@[k])@ == distinct_doc_ids(
                    hits@.subrange(0, i as int),
                )[k],
        decreases hits@.len() - i,
    {
        let ghost prefix = hits@.subrange(0, i as int);
        let h = &hits[i];
        let found = contains_id(&ids, &h.metadata.document_id);
        proof {
            assert(hits@.subrange(0, i + 1).drop_last() =~= prefix);
            if found {
                let k = choose|k: int|
                    0 <= k < ids@.len() && (#[trigger] ids@[k])@ == h.metadata.document_id@;
                assert(distinct_doc_ids(prefix)[k] == h.metadata.document_id@);
                assert(distinct_doc_ids(prefix).contains(h.metadata.document_id@));
            } else if distinct_doc_ids(prefix).contains(h.metadata.document_id@) {
                let k = choose|k: int|
                    0 <= k < distinct_doc_ids(prefix).len() && distinct_doc_ids(prefix)[k]
                        == h.metadata.document_id@;
                assert(ids@[k]@ == h.metadata.document_id@);
                assert(false);
            }
        }
        if !found {
            ids.push(h.metadata.document_id.clone());
        }
        i = i + 1;
    }
    proof {
        assert(hits@.subrange(0, hits@.len() as int) =~= hits@);
    }
    ids
}

/// Collects one document's (score, chunk position) pairs in hit order,
/// and its best score.
pub fn collect_chunks_for(hits: &Vec<VectorHit>, document_id: &String) -> (r: (
    Vec<(Score, u64)>,
    Score,
))
    ensures
        r.0@ == doc_chunks(hits@, document_id@),
        r.1 == doc_best(hits@, document_id@),
{
    let mut chunks: Vec<(Score, u64)> = Vec::new();
    let mut best = Score::Incomparable;
    let mut i: usize = 0;
    while i < hits.len()
        invariant
            i <= hits@.len(),
            chunks@ == doc_chunks(hits@.subrange(0, i as int), document_id@),
            best == best_of(chunks@),
        decreases hits@.len() - i,
    {
        proof {
            assert(hits@.subrange(0, i + 1).drop_last() =~= hits@.subrange(0, i as int));
        }
        let h = &hits[i];
        if h.metadata.document_id == *document_id {
            let ghost chunks_before = chunks@;
            let first_match = chunks.len() == 0;
            chunks.push((h.score, h.metadata.chunk_id));
            if first_match {
                best = h.score;
            } else if h.score.gt(best) {
                best = h.score;
            }
            proof {
                assert(chunks@.drop_last() =~= chunks_before);
            }
        }
        i = i + 1;
    }
    proof {
        assert(hits@.subrange(0, hits@.len() as int) =~= hits@);
    }
    (chunks, best)
}

/// Sorts (score, payload) pairs by descending score, by repeatedly
/// extracting a pair no other remaining pair strictly beats. The
/// result holds exactly the input pairs.
pub fn sort_pairs_desc(input: Vec<(Score, u64)>) -> (out: Vec<(Score, u64)>)
    ensures
        out@.to_multiset() == input@.to_multiset(),
        pairs_sorted_desc(out@),
{
    let mut rem = input;
    let mut out: Vec<(Score, u64)> = Vec::new();
    proof {
        assert(out@.to_multiset().add(rem@.to_multiset()) =~= rem@.to_multiset());
    }
    let ghost input_view = rem@;
    while rem.len() > 0
        invariant
            out@.to_multiset().add(rem@.to_multiset()) == input_view.to_multiset(),
            pairs_sorted_desc(out@),
            forall|a: int, b: int|
                0 <= a < rem@.len() && 0 <= b < out@.len() ==> !score_gt(rem@[a].0, out@[b].0),
        decreases rem@.len(),
    {
        let mut best_idx: usize = 0;
        let mut m: usize = 1;
        while m < rem.len()
            invariant
                0 < rem@.len(),
                best_idx < rem@.len(),
                m <= rem@.len(),
                forall|k: int| 0 <= k < m ==> !score_gt(rem@[k].0, rem@[best_idx as int].0),
            decreases rem@.len() - m,
        {
            if rem[m].0.gt(rem[best_idx].0) {
                best_idx = m;
            }
            m = m + 1;
        }
        let ghost rem_before = rem@;
        let ghost out_before = out@;
        let chosen = rem.remove(best_idx);
        out.push(chosen);
        proof {
            assert(rem@.to_multiset() =~= rem_before.to_multiset().remove(chosen));
            assert(out@.to_multiset() =~= out_before.to_multiset().insert(chosen));
            assert(rem_before.contains(chosen));
            assert(rem_before.to_multiset().count(chosen) > 0);
            assert(out@.to_multiset().add(rem@.to_multiset()) =~= input_view.to_multiset());
            assert forall|a: int, b: int|
                0 <= a < rem@.len() && 0 <= b < out@.len() implies !score_gt(
                rem@[a].0,
                out@[b].0,
            ) by {
                if a < best_idx {
                    assert(rem@[a] == rem_before[a]);
                } else {
                    assert(rem@[a] == rem_before[a + 1]);
                }
            }
        }
    }
    proof {
        assert(rem@ =~= Seq::<(Score, u64)>::empty());
        assert(out@.to_multiset() =~= input_view.to_multiset());
    }
    out
}

/// One document's ranking in a search result: the document id and its
/// matched chunks, sorted by descending score.
pub struct DocRanking {
    /// The document the chunks belong to.
    pub document_id: String,
    /// The document's matched (score, chunk position) pairs, by
    /// descending score.
    pub chunks: Vec<(Score, u64)>,
}

/// Groups the hits by document and ranks the documents: at most
/// `RESULT_DOC_CAP` distinct documents, by descending best chunk
/// score, each with exactly its own matched chunks sorted by
/// descending score. No document left out ranks strictly better than
/// one taken.
#[verifier::loop_isolation(false)]
pub fn rank_documents(hits: &Vec<VectorHit>) -> (ranked: Vec<DocRanking>)
    ensures
        ranked@.len() == if distinct_doc_ids(hits@).len() <= RESULT_DOC_CAP {
            distinct_doc_ids(hits@).len()
        } else {
            RESULT_DOC_CAP as nat
        },
        forall|q: int|
            0 <= q < ranked@.len() ==> distinct_doc_ids(hits@).contains(
                (#[trigger] ranked@[q]).document_id@,
            ),
        forall|q: int|
            0 <= q < ranked@.len() ==> (#[trigger] ranked@[q]).chunks@.to_multiset()
                == doc_chunks(hits@, ranked@[q].document_id@).to_multiset(),
        forall|q: int| 0 <= q < ranked@.len() ==> pairs_sorted_desc((#[trigger] ranked@[q]).chunks@),
        forall|i: int, j: int|
            0 <= i < j < ranked@.len() ==> ranked@[i].document_id@ != ranked@[j].document_id@,
        forall|i: int, j: int|
            0 <= i < j < ranked@.len() ==> !score_gt(
                doc_best(hits@, ranked@[j].document_id@),
                doc_best(hits@, ranked@[i].document_id@),
            ),
        forall|m: int|
            0 <= m < distinct_doc_ids(hits@).len() && (forall|q: int|
                0 <= q < ranked@.len() ==> (#[trigger] ranked@[q]).document_id@
                    != distinct_doc_ids(hits@)[m]) ==> (forall|q: int|
                0 <= q < ranked@.len() ==> !score_gt(
                    doc_best(hits@, #[trigger] distinct_doc_ids(hits@)[m]),
                    doc_best(hits@, (#[trigger] ranked@[q]).document_id@),
                )),
{
    let ghost dd = distinct_doc_ids(hits@);
    proof {
        lemma_distinct_doc_ids_no_dup(hits@);
    }
    let ids = collect_doc_ids(hits);
    let n = ids.len();

    // The best score of each distinct document, by its position in `ids`.
    let mut bests: Vec<Score> = Vec::new();
    let mut k: usize = 0;
    while k < n
        invariant
            k <= n,
            bests@.len() == k,
            forall|m: int| 0 <= m < k ==> #[trigger] bests@[m] == doc_best(hits@, ids@[m]@),
        decreases n - k,
    {
        let r = collect_chunks_for(hits, &ids[k]);
        bests.push(r.1);
        k = k + 1;
    }

    // One (best score, position) pair per distinct document.
    let mut pairs: Vec<(Score, u64)> = Vec::new();
    let mut k2: usize = 0;
    while k2 < n
        invariant
            k2 <= n,
            pairs@.len() == k2,
            forall|m: int| 0 <= m < k2 ==> #[trigger] pairs@[m] == (bests@[m], m as u64),
        decreases n - k2,
    {
        pairs.push((bests[k2], k2 as u64));
        k2 = k2 + 1;
    }
    let ghost pairs_view = pairs@;
    let sorted = sort_pairs_desc(pairs);
    proof {
        assert(sorted@.len() == n) by {
            assert(sorted@.to_multiset().len() == pairs_view.to_multiset().len());
        }
        assert(pairs_view.no_duplicates()) by {
            assert forall|a: int, b: int| 0 <= a < b < pairs_view.len() implies pairs_view[a]
                != pairs_view[b] by {
                assert(pairs_view[a].1 == a as u64);
                assert(pairs_view[b].1 == b as u64);
            }
        }
        pairs_view.lemma_multiset_has_no_duplicates();
        assert forall|x: (Score, u64)| sorted@.to_multiset().contains(x)
            implies sorted@.to_multiset().count(x) == 1 by {
            assert(pairs_view.to_multiset().count(x) == sorted@.to_multiset().count(x));
        }
        sorted@.lemma_multiset_has_no_duplicates_conv();
    }

    let take = if n < RESULT_DOC_CAP {
        n
    } else {
        RESULT_DOC_CAP
    };
    let mut ranked: Vec<DocRanking> = Vec::new();
    let mut t: usize = 0;
    while t < take
        invariant
            t <= take,
            ranked@.len() == t,
            forall|q: int|
                0 <= q < t ==> (#[trigger] ranked@[q]).document_id@ == ids@[sorted@[q].1 as int]@,
            forall|q: int|
                0 <= q < t ==> (#[trigger] ranked@[q]).chunks@.to_multiset() == doc_chunks(
                    hits@,
                    ranked@[q].document_id@,
                ).to_multiset(),
            forall|q: int|
                0 <= q < t ==> pairs_sorted_desc((#[trigger] ranked@[q]).chunks@),
        decreases take - t,
    {
        proof {
            assert(sorted@.contains(sorted@[t as int]));
            assert(pairs_view.to_multiset().count(sorted@[t as int]) > 0);
            assert(pairs_view.contains(sorted@[t as int]));
            let m = choose|m: int|
                0 <= m < pairs_view.len() && pairs_view[m] == sorted@[t as int];
            assert(pairs_view[m] == (bests@[m], m as u64));
            assert(sorted@[t as int].1 == m as u64);
        }
        let idx64 = sorted[t].1;
        let idx = idx64 as usize;
        let r = collect_chunks_for(hits, &ids[idx]);
        let sorted_chunks = sort_pairs_desc(r.0);
        ranked.push(DocRanking { document_id: ids[idx].clone(), chunks: sorted_chunks });
        t = t + 1;
    }

    proof {
        // Each taken position's pair is the pair of its document's
        // position in `ids`, so its score is that document's best.
        assert forall|q: int| 0 <= q < ranked@.len() implies {
            &&& (sorted@[q].1 as int) < n
            &&& ranked@[q].document_id@ == dd[sorted@[q].1 as int]
            &&& sorted@[q].0 == doc_best(hits@, ranked@[q].document_id@)
        } by {
            assert(sorted@.contains(sorted@[q]));
            assert(pairs_view.to_multiset().count(sorted@[q]) > 0);
            assert(pairs_view.contains(sorted@[q]));
            let m = choose|m: int| 0 <= m < pairs_view.len() && pairs_view[m] == sorted@[q];
            assert(pairs_view[m] == (bests@[m], m as u64));
            assert(sorted@[q].1 == m as u64);
            assert(ranked@[q].document_id@ == ids@[m]@);
        }
        assert forall|q: int| 0 <= q < ranked@.len() implies distinct_doc_ids(hits@).contains(
            (#[trigger] ranked@[q]).document_id@,
        ) by {
            assert(ranked@[q].document_id@ == dd[sorted@[q].1 as int]);
        }
        assert forall|i: int, j: int| 0 <= i < j < ranked@.len() implies ranked@[i].document_id@
            != ranked@[j].document_id@ by {
            assert(sorted@[i] != sorted@[j]);
            if sorted@[i].1 == sorted@[j].1 {
                let mi = choose|m: int| 0 <= m < pairs_view.len() && pairs_view[m] == sorted@[i];
                let mj = choose|m: int| 0 <= m < pairs_view.len() && pairs_view[m] == sorted@[j];
                assert(sorted@.contains(sorted@[i]));
                assert(pairs_view.to_multiset().count(sorted@[i]) > 0);
                assert(sorted@.contains(sorted@[j]));
                assert(pairs_view.to_multiset().count(sorted@[j]) > 0);
                assert(pairs_view[mi].1 == mi as u64);
                assert(pairs_view[mj].1 == mj as u64);
                assert(mi == mj);
                assert(false);
            }
            assert(dd[sorted@[i].1 as int] != dd[sorted@[j].1 as int]);
        }
        assert forall|m: int|
            0 <= m < dd.len() && (forall|q: int|
                0 <= q < ranked@.len() ==> (#[trigger] ranked@[q]).document_id@
                    != dd[m]) implies (forall|q: int|
            0 <= q < ranked@.len() ==> !score_gt(
                doc_best(hits@, #[trigger] dd[m]),
                doc_best(hits@, (#[trigger] ranked@[q]).document_id@),
            )) by {
            let p = (bests@[m], m as u64);
            assert(pairs_view[m] == p);
            assert(pairs_view.contains(p));
            assert(sorted@.to_multiset().count(p) > 0);
            assert(sorted@.contains(p));
            let qq = choose|qq: int| 0 <= qq < sorted@.len() && sorted@[qq] == p;
            if qq < ranked@.len() {
                assert(ranked@[qq].document_id@ == dd[sorted@[qq].1 as int]);
                assert(sorted@[qq].1 == m as u64);
                assert(false);
            }
            assert forall|q: int| 0 <= q < ranked@.len() implies !score_gt(
                doc_best(hits@, dd[m]),
                doc_best(hits@, (#[trigger] ranked@[q]).document_id@),
            ) by {
                assert(!score_gt(sorted@[qq].0, sorted@[q].0));
                assert(sorted@[qq].0 == bests@[m]);
                assert(bests@[m] == doc_best(hits@, ids@[m]@));
                assert(ids@[m]@ == dd[m]);
                assert(sorted@[q].0 == doc_best(hits@, ranked@[q].document_id@));
            }
        }
    }
    ranked
}

/// The chunk positions of a ranking, in the ranking's order.
pub fn chunk_ids(ranking: &DocRanking) -> (r: Vec<u64>)
    ensures
        r@ == ranking.chunks@.map_values(|p: (Score, u64)| p.1),
{
    let mut r: Vec<u64> = Vec::new();
    let mut i: usize = 0;
    while i < ranking.chunks.len()
        invariant
            i <= ranking.chunks@.len(),
            r@.len() == i,
            forall|k: int| 0 <= k < i ==> #[trigger] r@[k] == ranking.chunks@[k].1,
        decreases ranking.chunks@.len() - i,
    {
        r.push(ranking.chunks[i].1);
        i = i + 1;
    }
    proof {
        assert(r@ =~= ranking.chunks@.map_values(|p: (Score, u64)| p.1));
    }
    r
}

/// The positions of the resolved records, in order: a document id that
/// the metadata store answered `None` for is skipped, not an error.
pub open spec fn keep_indices(records: Seq<Option<DocInfo>>) -> Seq<int>
    decreases records.len(),
{
    if records.len() == 0 {
        Seq::empty()
    } else {
        let rest = keep_indices(records.drop_last());
        if records.last() is Some {
            rest.push(records.len() - 1)
        } else {
            rest
        }
    }
}

/// Every kept position indexes into the records.
pub proof fn lemma_keep_indices_bounds(records: Seq<Option<DocInfo>>)
    ensures
        forall|k: int|
            0 <= k < keep_indices(records).len() ==> 0 <= #[trigger] keep_indices(records)[k]
                < records.len(),
    decreases records.len(),
{
    if records.len() > 0 {
        lemma_keep_indices_bounds(records.drop_last());
        let rest = keep_indices(records.drop_last());
        assert forall|k: int| 0 <= k < keep_indices(records).len() implies 0 <= #[trigger] keep_indices(
            records,
        )[k] < records.len() by {
            if k < rest.len() {
                assert(keep_indices(records)[k] == rest[k]);
            }
        }
    }
}

/// Pairs each resolved record with its ranking's chunk positions, in
/// ranking order; rankings whose record came back missing are left
/// out, and their absence fails nothing.
#[verifier::loop_isolation(false)]
pub fn resolve_results(rankings: &Vec<DocRanking>, records: &Vec<Option<DocInfo>>) -> (out: Vec<
    (DocInfo, Vec<u64>),
>)
    requires
        records@.len() == rankings@.len(),
    ensures
        out@.len() == keep_indices(records@).len(),
        forall|k: int|
            0 <= k < out@.len() ==> {
                let j = keep_indices(records@)[k];
                &&& (#[trigger] out@[k]).0 == records@[j]->0
                &&& out@[k].1@ == rankings@[j].chunks@.map_values(|p: (Score, u64)| p.1)
            },
{
    proof {
        lemma_keep_indices_bounds(records@);
    }
    let mut out: Vec<(DocInfo, Vec<u64>)> = Vec::new();
    let mut i: usize = 0;
    while i < records.len()
        invariant
            i <= records@.len(),
            out@.len() == keep_indices(records@.subrange(0, i as int)).len(),
            forall|k: int|
                0 <= k < out@.len() ==> {
                    let j = keep_indices(records@.subrange(0, i as int))[k];
                    &&& (#[trigger] out@[k]).0 == records@[j]->0
                    &&& out@[k].1@ == rankings@[j].chunks@.map_values(|p: (Score, u64)| p.1)
                },
        decreases records@.len() - i,
    {
        proof {
            assert(records@.subrange(0, i + 1).drop_last() =~= records@.subrange(0, i as int));
            lemma_keep_indices_bounds(records@.subrange(0, i as int));
            lemma_keep_indices_bounds(records@.subrange(0, i + 1));
        }
        match &records[i] {
            Some(record) => {
                out.push((record.clone(), chunk_ids(&rankings[i])));
            },
            None => {},
        }
        i = i + 1;
    }
    proof {
        assert(records@.subrange(0, records@.len() as int) =~= records@);
    }
    out
}

} // verus!



//! The search driver: it streams the matching documents of each segment
//! through a segment aggregator and merges the fruits of the segments.

use vstd::prelude::*;
use crate::agg::{
    folded, lemma_merged_into_parts, merged_into, Agg, AggError, AggSegmentContext, FruitModel,
    ModelOf, PreparedAgg, SegmentAgg,
};
use crate::index::{
    ascending, is_deleted, max_doc, query_weight, scorer_hits, scorer_spent, searcher_segments,
    segment_deleted, segment_max_doc, segment_readers, weight_hits, weight_runs, weight_scorer,
    DocId, QueryRef, QueryWeight, ScoreBits, SegmentScorer,
};

verus! {

/// The hits that reach an aggregator: those whose document the segment holds
/// and has not deleted, in the order of the hits.
pub open spec fn live_hits(hits: Seq<(DocId, ScoreBits)>, limit: DocId, deleted: Set<DocId>) -> Seq<
    (DocId, ScoreBits),
>
    decreases hits.len(),
{
    if hits.len() == 0 {
        Seq::empty()
    } else {
        let rest = live_hits(hits.drop_last(), limit, deleted);
        let hit = hits.last();
        if hit.0 < limit && !deleted.contains(hit.0) {
            rest.push(hit)
        } else {
            rest
        }
    }
}

/// What the hits add to a fruit: the contributions of their documents, hit
/// after hit.
pub open spec fn deltas_of<S: SegmentAgg>(meaning: S::Meaning, hits: Seq<(DocId, ScoreBits)>) -> Seq<
    ModelOf<S::Fruit>,
>
    decreases hits.len(),
{
    if hits.len() == 0 {
        Seq::empty()
    } else {
        deltas_of::<S>(meaning, hits.drop_last()) + S::contributions(
            meaning,
            hits.last().0,
            hits.last().1,
        )
    }
}

/// The fruit after the hits have been collected into it, one after the other.
pub open spec fn collected<S: SegmentAgg>(
    meaning: S::Meaning,
    hits: Seq<(DocId, ScoreBits)>,
    start: ModelOf<S::Fruit>,
) -> ModelOf<S::Fruit> {
    merged_into::<S>(meaning, start, deltas_of::<S>(meaning, hits))
}

/// The fruit after the fruits have been merged into it, one after the other.
pub open spec fn merged_all<A: PreparedAgg>(
    agg: &A,
    start: ModelOf<A::Fruit>,
    fruits: Seq<ModelOf<A::Fruit>>,
) -> ModelOf<A::Fruit>
    decreases fruits.len(),
{
    if fruits.len() == 0 {
        start
    } else {
        agg.merged(merged_all(agg, start, fruits.drop_last()), fruits.last())
    }
}

/// Deleted documents stay out of every fruit: no hit that reaches an
/// aggregator is of a deleted document, and each is a matching document of
/// the segment.
pub proof fn deleted_documents_stay_out(
    hits: Seq<(DocId, ScoreBits)>,
    limit: DocId,
    deleted: Set<DocId>,
)
    ensures
        forall|i: int|
            0 <= i < live_hits(hits, limit, deleted).len() ==> {
                let hit = #[trigger] live_hits(hits, limit, deleted)[i];
                &&& hit.0 < limit
                &&& !deleted.contains(hit.0)
                &&& hits.contains(hit)
            },
        live_hits(hits, limit, deleted).len() <= hits.len(),
    decreases hits.len(),
{
    if hits.len() > 0 {
        let front = hits.drop_last();
        deleted_documents_stay_out(front, limit, deleted);
        let out = live_hits(hits, limit, deleted);
        assert forall|i: int| 0 <= i < out.len() implies {
            let hit = #[trigger] out[i];
            &&& hit.0 < limit
            &&& !deleted.contains(hit.0)
            &&& hits.contains(hit)
        } by {
            let rest = live_hits(front, limit, deleted);
            if i < rest.len() {
                let j = choose|j: int| 0 <= j < front.len() && front[j] == rest[i];
                assert(hits[j] == rest[i]);
            } else {
                assert(out[i] == hits[hits.len() - 1]);
            }
        }
    }
}

/// Nothing is lost when the fruit `acc` is merged with the fruit that the
/// deltas grow from `start`, at any stage of its growth.
pub open spec fn run_fits<A: PreparedAgg>(
    agg: &A,
    deltas: Seq<ModelOf<A::Fruit>>,
    acc: ModelOf<A::Fruit>,
    start: ModelOf<A::Fruit>,
) -> bool
    decreases deltas.len(),
{
    if deltas.len() == 0 {
        true
    } else {
        let grown = merged_all(agg, start, deltas.drop_last());
        &&& run_fits(agg, deltas.drop_last(), acc, start)
        &&& agg.fits(acc, grown)
        &&& agg.fits(grown, deltas.last())
        &&& agg.fits(agg.merged(acc, grown), deltas.last())
    }
}

/// A segment aggregator merges fruits into a fruit as its prepared aggregator
/// does.
pub proof fn lemma_child_merges_alike<A: PreparedAgg>(
    agg: &A,
    meaning: <A::Child as SegmentAgg>::Meaning,
    start: ModelOf<A::Fruit>,
    deltas: Seq<ModelOf<A::Fruit>>,
)
    requires
        agg.inv(),
        agg.spawns(meaning),
    ensures
        merged_into::<A::Child>(meaning, start, deltas) == merged_all(agg, start, deltas),
    decreases deltas.len(),
{
    agg.law_child(meaning);
    let merge = |a: ModelOf<A::Fruit>, b: ModelOf<A::Fruit>|
        A::Child::merged(meaning, a, b);
    lemma_folded_merges_all(agg, merge, start, deltas);
}

proof fn lemma_folded_merges_all<A: PreparedAgg>(
    agg: &A,
    merge: spec_fn(ModelOf<A::Fruit>, ModelOf<A::Fruit>) -> ModelOf<A::Fruit>,
    start: ModelOf<A::Fruit>,
    deltas: Seq<ModelOf<A::Fruit>>,
)
    requires
        forall|a: ModelOf<A::Fruit>, b: ModelOf<A::Fruit>| #[trigger]
            merge(a, b) == agg.merged(a, b),
    ensures
        folded(merge, start, deltas) == merged_all(agg, start, deltas),
    decreases deltas.len(),
{
    if deltas.len() > 0 {
        lemma_folded_merges_all(agg, merge, start, deltas.drop_last());
    }
}

/// Merging fruits of the aggregator gives a fruit of the aggregator.
pub proof fn lemma_merged_all_is_fruit<A: PreparedAgg>(
    agg: &A,
    start: ModelOf<A::Fruit>,
    deltas: Seq<ModelOf<A::Fruit>>,
)
    requires
        agg.inv(),
        agg.fruit_ok(start),
        forall|i: int| 0 <= i < deltas.len() ==> agg.fruit_ok(#[trigger] deltas[i]),
    ensures
        agg.fruit_ok(merged_all(agg, start, deltas)),
    decreases deltas.len(),
{
    if deltas.len() > 0 {
        lemma_merged_all_is_fruit(agg, start, deltas.drop_last());
        agg.law_commutative(merged_all(agg, start, deltas.drop_last()), deltas.last());
    }
}

/// Merging a fruit with what the deltas grow from `start` is growing the
/// merge of the fruit and `start` by the deltas.
pub proof fn lemma_merge_of_run<A: PreparedAgg>(
    agg: &A,
    deltas: Seq<ModelOf<A::Fruit>>,
    acc: ModelOf<A::Fruit>,
    start: ModelOf<A::Fruit>,
)
    requires
        agg.inv(),
        agg.fruit_ok(acc),
        agg.fruit_ok(start),
        forall|i: int| 0 <= i < deltas.len() ==> agg.fruit_ok(#[trigger] deltas[i]),
        run_fits(agg, deltas, acc, start),
    ensures
        agg.merged(acc, merged_all(agg, start, deltas)) == merged_all(
            agg,
            agg.merged(acc, start),
            deltas,
        ),
    decreases deltas.len(),
{
    if deltas.len() > 0 {
        let front = deltas.drop_last();
        lemma_merge_of_run(agg, front, acc, start);
        lemma_merged_all_is_fruit(agg, start, front);
        agg.law_associative(acc, merged_all(agg, start, front), deltas.last());
    }
}

/// What the hits of a segment add are fruits of the aggregator.
pub proof fn lemma_deltas_are_fruits<A: PreparedAgg>(
    agg: &A,
    meaning: <A::Child as SegmentAgg>::Meaning,
    hits: Seq<(DocId, ScoreBits)>,
)
    requires
        agg.inv(),
        agg.spawns(meaning),
    ensures
        forall|i: int|
            0 <= i < deltas_of::<A::Child>(meaning, hits).len() ==> agg.fruit_ok(
                #[trigger] deltas_of::<A::Child>(meaning, hits)[i],
            ),
    decreases hits.len(),
{
    if hits.len() > 0 {
        lemma_deltas_are_fruits(agg, meaning, hits.drop_last());
        agg.law_child(meaning);
        let front = deltas_of::<A::Child>(meaning, hits.drop_last());
        let last = A::Child::contributions(meaning, hits.last().0, hits.last().1);
        assert forall|i: int| 0 <= i < (front + last).len() implies agg.fruit_ok(
            #[trigger] (front + last)[i],
        ) by {
            if i >= front.len() {
                assert((front + last)[i] == last[i - front.len()]);
            }
        }
    }
}

/// Segmentation invariance. The fruit of a segment, collected on its own and
/// then merged into the harvest of the segments before it, is the fruit that
/// the segment's documents give when they are collected straight into that
/// harvest: the final fruit is that of one segment that holds all documents.
/// The merges must lose nothing, which excludes only the signed sums that
/// leave their type's range.
pub proof fn segmentation_invariance<A: PreparedAgg>(
    agg: &A,
    meaning: <A::Child as SegmentAgg>::Meaning,
    hits: Seq<(DocId, ScoreBits)>,
    acc: ModelOf<A::Fruit>,
)
    requires
        agg.inv(),
        agg.spawns(meaning),
        agg.fruit_ok(acc),
        run_fits(agg, deltas_of::<A::Child>(meaning, hits), acc, agg.empty()),
    ensures
        agg.merged(acc, collected::<A::Child>(meaning, hits, agg.empty())) == collected::<A::Child>(
            meaning,
            hits,
            acc,
        ),
{
    let deltas = deltas_of::<A::Child>(meaning, hits);
    agg.law_identity(acc);
    lemma_deltas_are_fruits(agg, meaning, hits);
    lemma_merge_of_run(agg, deltas, acc, agg.empty());
    lemma_child_merges_alike(agg, meaning, agg.empty(), deltas);
    lemma_child_merges_alike(agg, meaning, acc, deltas);
}

/// The order of the segments does not matter: two fruits can be merged into
/// a harvest in either order, as long as the merges lose nothing.
pub proof fn merge_order_is_free<A: PreparedAgg>(
    agg: &A,
    harvest: ModelOf<A::Fruit>,
    a: ModelOf<A::Fruit>,
    b: ModelOf<A::Fruit>,
)
    requires
        agg.inv(),
        agg.fruit_ok(harvest),
        agg.fruit_ok(a),
        agg.fruit_ok(b),
        agg.fits(harvest, a),
        agg.fits(harvest, b),
        agg.fits(a, b),
        agg.fits(agg.merged(harvest, a), b),
        agg.fits(agg.merged(harvest, b), a),
    ensures
        agg.merged(agg.merged(harvest, a), b) == agg.merged(agg.merged(harvest, b), a),
{
    agg.law_commutative(a, b);
    agg.law_associative(harvest, a, b);
    agg.law_associative(harvest, b, a);
}

/// Streams what is left of a scorer through a segment aggregator. A document
/// reaches the aggregator if the segment holds it and has not deleted it.
pub fn collect_hits<S: SegmentAgg>(
    segment_agg: &mut S,
    reader: &tantivy::SegmentReader,
    scorer: &mut SegmentScorer,
    harvest: &mut S::Fruit,
)
    requires
        old(segment_agg).inv(),
        old(segment_agg).frontier() == 0,
        S::doc_limit(old(segment_agg).meaning()) >= segment_max_doc(*reader),
        ascending(scorer_hits(*old(scorer))),
        !scorer_spent(*old(scorer)),
        S::fruit_ok(old(segment_agg).meaning(), old(harvest).model()),
    ensures
        final(segment_agg).inv(),
        final(segment_agg).meaning() == old(segment_agg).meaning(),
        S::fruit_ok(old(segment_agg).meaning(), final(harvest).model()),
        final(harvest).model() == collected::<S>(
            old(segment_agg).meaning(),
            live_hits(
                scorer_hits(*old(scorer)),
                segment_max_doc(*reader),
                segment_deleted(*reader),
            ),
            old(harvest).model(),
        ),
        scorer_hits(*final(scorer)).len() == 0,
{
    let limit = max_doc(reader);
    let ghost meaning = segment_agg.meaning();
    let ghost all = scorer_hits(*scorer);
    let ghost start = harvest.model();
    let ghost deleted = segment_deleted(*reader);
    let ghost mut seen: Seq<(DocId, ScoreBits)> = Seq::empty();
    assert(seen + scorer_hits(*scorer) =~= all);
    loop
        invariant_except_break
            seen + scorer_hits(*scorer) == all,
            !scorer_spent(*scorer),
        invariant
            limit == segment_max_doc(*reader),
            deleted == segment_deleted(*reader),
            ascending(all),
            segment_agg.inv(),
            segment_agg.meaning() == meaning,
            S::doc_limit(meaning) >= limit,
            S::fruit_ok(meaning, harvest.model()),
            harvest.model() == collected::<S>(meaning, live_hits(seen, limit, deleted), start),
            seen.len() <= all.len(),
            forall|i: int| seen.len() <= i < all.len() ==> segment_agg.frontier() <= (#[trigger] all[i]).0,
        ensures
            seen == all,
            scorer_hits(*scorer).len() == 0,
        decreases all.len() - seen.len(),
    {
        let ghost before = scorer_hits(*scorer);
        if !scorer.advance() {
            proof {
                assert(seen + before == all);
                assert(seen =~= all);
            }
            break;
        }
        let doc = scorer.doc();
        let score = scorer.score();
        proof {
            let hit = (doc, score);
            assert(hit == before[0]);
            assert(all[seen.len() as int] == (seen + before)[seen.len() as int]);
            assert(all[seen.len() as int] == hit);
            let next = seen.push(hit);
            assert(next.drop_last() =~= seen);
            assert(next + before.drop_first() =~= seen + before);
            assert forall|i: int| next.len() <= i < all.len() implies doc < (#[trigger] all[i]).0 by {
                assert(all[seen.len() as int].0 < all[i].0);
            }
            seen = next;
        }
        if doc < limit && !is_deleted(reader, doc) {
            segment_agg.collect(doc, score, harvest);
            proof {
                let kept = live_hits(seen.drop_last(), limit, deleted);
                assert(live_hits(seen, limit, deleted) == kept.push((doc, score)));
                assert(kept.push((doc, score)).drop_last() =~= kept);
                lemma_merged_into_parts::<S>(
                    meaning,
                    start,
                    deltas_of::<S>(meaning, kept),
                    S::contributions(meaning, doc, score),
                );
            }
        }
    }
}

/// What the aggregator of a segment means there in a search with the weight,
/// or the error of opening the segment.
pub open spec fn meaning_at<A: PreparedAgg>(
    agg: &A,
    weight: QueryWeight,
    segment_ord: u32,
    reader: tantivy::SegmentReader,
) -> Result<<A::Child as SegmentAgg>::Meaning, AggError> {
    let scorer = weight_scorer(weight, reader)->Ok_0;
    agg.meaning_on(AggSegmentContext { segment_ord, reader: &reader, scorer: &scorer })
}

/// The fruit of one segment: what the documents that match the weight and
/// that the segment has not deleted grow from the fruit `start`.
pub open spec fn segment_fruit<A: PreparedAgg>(
    agg: &A,
    weight: QueryWeight,
    segment_ord: u32,
    reader: tantivy::SegmentReader,
    start: ModelOf<A::Fruit>,
) -> ModelOf<A::Fruit> {
    collected::<A::Child>(
        meaning_at(agg, weight, segment_ord, reader)->Ok_0,
        live_hits(weight_hits(weight, reader)->0, segment_max_doc(reader), segment_deleted(reader)),
        start,
    )
}

/// Whether a segment can be searched: the compiled query gives a scorer for
/// it, and it has the columns that the aggregator reads.
pub open spec fn segment_opens<A: PreparedAgg>(
    agg: &A,
    weight: QueryWeight,
    segment_ord: u32,
    reader: tantivy::SegmentReader,
) -> bool {
    &&& weight_scorer(weight, reader) is Ok
    &&& meaning_at(agg, weight, segment_ord, reader) is Ok
}

/// The error of a segment that cannot be searched: that of the scorer, or
/// else that of the aggregator.
pub open spec fn segment_error<A: PreparedAgg>(
    agg: &A,
    weight: QueryWeight,
    segment_ord: u32,
    reader: tantivy::SegmentReader,
) -> AggError {
    match weight_scorer(weight, reader) {
        Err(error) => AggError::Index(error),
        Ok(_) => meaning_at(agg, weight, segment_ord, reader)->Err_0,
    }
}

/// Whether the compiled queries of the search can be run on every segment.
pub open spec fn segments_run<A: PreparedAgg>(
    agg: &A,
    weight: QueryWeight,
    readers: Seq<tantivy::SegmentReader>,
) -> bool {
    forall|i: int|
        0 <= i < readers.len() ==> weight_runs(weight, #[trigger] readers[i]) && agg.runs_on(
            readers[i],
        )
}

/// The error is that of the first segment that cannot be searched.
pub open spec fn search_error<A: PreparedAgg>(
    agg: &A,
    weight: QueryWeight,
    readers: Seq<tantivy::SegmentReader>,
    error: AggError,
) -> bool {
    exists|i: int|
        {
            &&& 0 <= i < readers.len()
            &&& !segment_opens(agg, weight, i as u32, #[trigger] readers[i])
            &&& error == segment_error(agg, weight, i as u32, readers[i])
            &&& forall|j: int| 0 <= j < i ==> segment_opens(agg, weight, j as u32, #[trigger] readers[j])
        }
}

/// Whether every segment can be searched.
pub open spec fn segments_open<A: PreparedAgg>(
    agg: &A,
    weight: QueryWeight,
    readers: Seq<tantivy::SegmentReader>,
) -> bool {
    forall|i: int| 0 <= i < readers.len() ==> segment_opens(agg, weight, i as u32, #[trigger] readers[i])
}

/// The fruit of a search: the fruits of the segments, each grown from the
/// empty fruit, merged in the order of the segments.
pub open spec fn searched<A: PreparedAgg>(
    agg: &A,
    weight: QueryWeight,
    readers: Seq<tantivy::SegmentReader>,
) -> ModelOf<A::Fruit> {
    merged_all(
        agg,
        agg.empty(),
        Seq::new(
            readers.len(),
            |i: int| segment_fruit(agg, weight, i as u32, readers[i], agg.empty()),
        ),
    )
}

/// The fruit of the segments as one stream: the documents of each segment
/// are collected straight into what the segments before it have grown.
pub open spec fn streamed<A: PreparedAgg>(
    agg: &A,
    weight: QueryWeight,
    readers: Seq<tantivy::SegmentReader>,
) -> ModelOf<A::Fruit>
    decreases readers.len(),
{
    if readers.len() == 0 {
        agg.empty()
    } else {
        segment_fruit(
            agg,
            weight,
            (readers.len() - 1) as u32,
            readers.last(),
            streamed(agg, weight, readers.drop_last()),
        )
    }
}

/// The aggregator opens every segment, and no merge of the fruit of a segment
/// with what the segments before it have grown loses anything.
pub open spec fn segments_fit<A: PreparedAgg>(
    agg: &A,
    weight: QueryWeight,
    readers: Seq<tantivy::SegmentReader>,
) -> bool
    decreases readers.len(),
{
    if readers.len() == 0 {
        true
    } else {
        let reader = readers.last();
        &&& segments_fit(agg, weight, readers.drop_last())
        &&& weight_hits(weight, reader) matches Some(hits)
        &&& meaning_at(agg, weight, (readers.len() - 1) as u32, reader) matches Ok(meaning)
        &&& agg.spawns(meaning)
        &&& run_fits(
            agg,
            deltas_of::<A::Child>(
                meaning,
                live_hits(
                    hits,
                    segment_max_doc(reader),
                    segment_deleted(reader),
                ),
            ),
            streamed(agg, weight, readers.drop_last()),
            agg.empty(),
        )
    }
}

/// Collecting hits into a fruit of the aggregator gives a fruit of the
/// aggregator.
pub proof fn lemma_collected_is_fruit<A: PreparedAgg>(
    agg: &A,
    meaning: <A::Child as SegmentAgg>::Meaning,
    hits: Seq<(DocId, ScoreBits)>,
    start: ModelOf<A::Fruit>,
)
    requires
        agg.inv(),
        agg.spawns(meaning),
        agg.fruit_ok(start),
    ensures
        agg.fruit_ok(collected::<A::Child>(meaning, hits, start)),
{
    let deltas = deltas_of::<A::Child>(meaning, hits);
    lemma_deltas_are_fruits(agg, meaning, hits);
    lemma_child_merges_alike(agg, meaning, start, deltas);
    lemma_merged_all_is_fruit(agg, start, deltas);
}

/// Segmentation invariance of a search. The fruit of a search, which merges
/// the fruits of the segments, is the fruit of the one stream of all their
/// documents: it does not matter where the segments begin and end.
pub proof fn search_is_one_stream<A: PreparedAgg>(
    agg: &A,
    weight: QueryWeight,
    readers: Seq<tantivy::SegmentReader>,
)
    requires
        agg.inv(),
        segments_fit(agg, weight, readers),
    ensures
        searched(agg, weight, readers) == streamed(agg, weight, readers),
        agg.fruit_ok(streamed(agg, weight, readers)),
    decreases readers.len(),
{
    agg.law_identity(agg.empty());
    if readers.len() > 0 {
        let front = readers.drop_last();
        let reader = readers.last();
        let meaning = meaning_at(agg, weight, (readers.len() - 1) as u32, reader)->Ok_0;
        let hits = live_hits(
            weight_hits(weight, reader)->0,
            segment_max_doc(reader),
            segment_deleted(reader),
        );
        search_is_one_stream(agg, weight, front);
        let fruits = Seq::new(
            readers.len(),
            |i: int| segment_fruit(agg, weight, i as u32, readers[i], agg.empty()),
        );
        let front_fruits = Seq::new(
            front.len(),
            |i: int| segment_fruit(agg, weight, i as u32, front[i], agg.empty()),
        );
        assert(fruits.drop_last() =~= front_fruits);
        segmentation_invariance(agg, meaning, hits, streamed(agg, weight, front));
        lemma_collected_is_fruit(agg, meaning, hits, streamed(agg, weight, front));
    }
}

/// Collects the documents of one segment that match the weight into the
/// harvest. Nothing is collected where the segment cannot be searched: where
/// the weight gives no scorer for it, or the aggregator cannot open it. The
/// error is that of the step that failed.
pub fn collect_segment<A: PreparedAgg>(
    agg: &A,
    weight: &QueryWeight,
    segment_ord: u32,
    segment_reader: &tantivy::SegmentReader,
    harvest: &mut A::Fruit,
) -> (r: Result<(), AggError>)
    requires
        agg.inv(),
        agg.fruit_ok(old(harvest).model()),
        weight_runs(*weight, *segment_reader),
        agg.runs_on(*segment_reader),
    ensures
        agg.fruit_ok(final(harvest).model()),
        r is Err ==> final(harvest).model() == old(harvest).model(),
        r is Ok ==> segment_opens(agg, *weight, segment_ord, *segment_reader),
        r is Ok ==> final(harvest).model() == segment_fruit(
            agg,
            *weight,
            segment_ord,
            *segment_reader,
            old(harvest).model(),
        ),
        weight_scorer(*weight, *segment_reader) matches Err(error) ==> (r matches Err(e) && e
            == AggError::Index(error)),
        agg.steady() && segment_opens(agg, *weight, segment_ord, *segment_reader) ==> r is Ok,
        agg.steady() ==> (r matches Err(e) ==> e == segment_error(
            agg,
            *weight,
            segment_ord,
            *segment_reader,
        )),
{
    let mut scorer = match weight.scorer(segment_reader) {
        Ok(scorer) => scorer,
        Err(e) => {
            return Err(AggError::Index(e));
        },
    };
    let ctx = AggSegmentContext { segment_ord, reader: segment_reader, scorer: &scorer };
    let mut segment_agg = match agg.for_segment(&ctx) {
        Ok(segment_agg) => segment_agg,
        Err(e) => {
            return Err(e);
        },
    };
    let ghost meaning = segment_agg.meaning();
    proof {
        agg.law_child(meaning);
        assert(<A::Child as SegmentAgg>::fruit_ok(meaning, harvest.model()));
    }
    collect_hits(&mut segment_agg, segment_reader, &mut scorer, harvest);
    proof {
        assert(<A::Child as SegmentAgg>::fruit_ok(meaning, harvest.model()));
    }
    Ok(())
}

/// Merges the fruits of the segments into one fruit, starting from the empty
/// fruit.
pub fn merge_fruits<A: PreparedAgg>(agg: &A, fruits: Vec<A::Fruit>) -> (harvest: A::Fruit)
    requires
        agg.inv(),
        forall|i: int| 0 <= i < fruits.len() ==> agg.fruit_ok((#[trigger] fruits[i]).model()),
    ensures
        agg.fruit_ok(harvest.model()),
        harvest.model() == merged_all(
            agg,
            agg.empty(),
            Seq::new(fruits.len() as nat, |i: int| fruits[i].model()),
        ),
{
    let mut harvest = agg.create_fruit();
    let ghost elts = fruits@;
    let ghost models = Seq::new(elts.len(), |i: int| elts[i].model());
    for fruit in it: fruits.into_iter()
        invariant
            agg.inv(),
            agg.fruit_ok(harvest.model()),
            it.seq() == elts,
            models.len() == elts.len(),
            forall|i: int| 0 <= i < elts.len() ==> #[trigger] models[i] == elts[i].model(),
            forall|i: int| 0 <= i < elts.len() ==> agg.fruit_ok((#[trigger] elts[i]).model()),
            harvest.model() == merged_all(agg, agg.empty(), models.take(it.index() as int)),
    {
        proof {
            let k = it.index() as int;
            assert(fruit == elts[k]);
            assert(models.take(k + 1).drop_last() =~= models.take(k));
            assert(models.take(k + 1).last() == models[k]);
        }
        agg.merge(&mut harvest, fruit);
    }
    proof {
        assert(models.take(elts.len() as int) =~= models);
    }
    harvest
}

/// Evaluates a prepared aggregator on the segments, one after the other: the
/// fruit of each segment is merged into the running harvest. The search fails
/// at the first segment that cannot be searched, with the error of that
/// segment.
pub fn search_segments<A: PreparedAgg>(
    agg: &A,
    weight: &QueryWeight,
    readers: &[tantivy::SegmentReader],
) -> (r: Result<A::Fruit, AggError>)
    requires
        agg.inv(),
        readers.len() <= u32::MAX,
        segments_run(agg, *weight, readers@),
    ensures
        r matches Ok(harvest) ==> {
            &&& agg.fruit_ok(harvest.model())
            &&& harvest.model() == searched(agg, *weight, readers@)
            &&& segments_open(agg, *weight, readers@)
        },
        agg.steady() && segments_open(agg, *weight, readers@) ==> r is Ok,
        agg.steady() ==> (r matches Err(e) ==> search_error(agg, *weight, readers@, e)),
{
    let mut harvest = agg.create_fruit();
    let mut segment_ord: usize = 0;
    let ghost fruits = Seq::new(
        readers@.len(),
        |i: int| segment_fruit(agg, *weight, i as u32, readers@[i], agg.empty()),
    );
    assert(fruits.take(0) =~= Seq::empty());
    while segment_ord < readers.len()
        invariant
            agg.inv(),
            agg.fruit_ok(harvest.model()),
            segment_ord <= readers.len() <= u32::MAX,
            segments_run(agg, *weight, readers@),
            fruits == Seq::new(
                readers@.len(),
                |i: int| segment_fruit(agg, *weight, i as u32, readers@[i], agg.empty()),
            ),
            harvest.model() == merged_all(agg, agg.empty(), fruits.take(segment_ord as int)),
            forall|i: int|
                0 <= i < segment_ord ==> segment_opens(agg, *weight, i as u32, #[trigger] readers@[i]),
        decreases readers.len() - segment_ord,
    {
        let mut fruit = agg.create_fruit();
        proof {
            assert(weight_runs(*weight, readers@[segment_ord as int]));
        }
        match collect_segment(agg, weight, segment_ord as u32, &readers[segment_ord], &mut fruit) {
            Ok(()) => {},
            Err(e) => {
                proof {
                    let k = segment_ord as int;
                    if agg.steady() {
                        assert(!segment_opens(agg, *weight, k as u32, readers@[k]));
                        assert(e == segment_error(agg, *weight, k as u32, readers@[k]));
                    }
                }
                return Err(e);
            },
        }
        proof {
            let k = segment_ord as int;
            assert(fruit.model() == fruits[k]);
            assert(fruits.take(k + 1).drop_last() =~= fruits.take(k));
            assert(fruits.take(k + 1).last() == fruits[k]);
        }
        agg.merge(&mut harvest, fruit);
        segment_ord += 1;
    }
    proof {
        assert(fruits.take(segment_ord as int) =~= fruits);
    }
    Ok(harvest)
}

/// What the plan of a search owes, given what the query has compiled to. An
/// error of the compilation is handed on. Else the plan holds the compiled
/// query and a prepared aggregator of the description; it fails with the
/// error of the aggregator where the aggregator cannot be prepared, and where
/// the searcher has more segments than can be numbered.
pub open spec fn plan_outcome<A: Agg>(
    agg: &A,
    searcher: tantivy::Searcher,
    compiled: Result<QueryWeight, tantivy::TantivyError>,
    r: Result<(QueryWeight, A::Child), AggError>,
) -> bool {
    let segments = searcher_segments(searcher);
    match compiled {
        Err(error) => r matches Err(e) && e == AggError::Index(error),
        Ok(weight) => {
            &&& r matches Ok(plan) ==> {
                &&& plan.0 == weight
                &&& agg.prepares(plan.1)
                &&& agg.prepared_by(searcher, plan.1)
                &&& plan.1.inv()
                &&& agg.prepare_error(searcher) is None
                &&& segments.len() <= u32::MAX
                &&& forall|i: int| 0 <= i < segments.len() ==> plan.1.runs_on(#[trigger] segments[i])
            }
            &&& agg.steady() ==> match agg.prepare_error(searcher) {
                Some(error) => r matches Err(e) && e == error,
                None => if segments.len() > u32::MAX {
                    r matches Err(e) && e == AggError::TooManySegments
                } else {
                    r is Ok
                },
            }
        },
    }
}

/// Plans a search, given what the query has compiled to: prepares the
/// aggregator and sees that the segments of the searcher can be numbered.
pub fn plan_compiled<A: Agg>(
    searcher: &tantivy::Searcher,
    compiled: Result<QueryWeight, tantivy::TantivyError>,
    agg: &A,
) -> (r: Result<(QueryWeight, A::Child), AggError>)
    requires
        agg.inv(),
        agg.runs_on(*searcher),
    ensures
        plan_outcome(agg, *searcher, compiled, r),
{
    let weight = match compiled {
        Ok(weight) => weight,
        Err(e) => {
            return Err(AggError::Index(e));
        },
    };
    let prepared_agg = match agg.prepare(searcher) {
        Ok(prepared_agg) => prepared_agg,
        Err(e) => {
            return Err(e);
        },
    };
    let readers = segment_readers(searcher);
    if readers.len() > u32::MAX as usize {
        return Err(AggError::TooManySegments);
    }
    Ok((weight, prepared_agg))
}

/// Plans a search: compiles the query, with scoring if a leaf of the
/// aggregator asks for scores, and prepares the aggregator. The segments of
/// the searcher can then be collected one by one, in any order and on any
/// thread, and their fruits merged.
pub fn plan_search<A: Agg>(searcher: &tantivy::Searcher, query: &QueryRef, agg: &A) -> (r: Result<
    (QueryWeight, A::Child),
    AggError,
>)
    requires
        agg.inv(),
        agg.runs_on(*searcher),
        query_weight(*query, *searcher, agg.leaf_scoring().contains(true)) is Some,
    ensures
        plan_outcome(
            agg,
            *searcher,
            query_weight(*query, *searcher, agg.leaf_scoring().contains(true))->0,
            r,
        ),
        r matches Ok(plan) ==> forall|i: int|
            0 <= i < searcher_segments(*searcher).len() ==> weight_runs(
                plan.0,
                #[trigger] searcher_segments(*searcher)[i],
            ),
{
    let scoring_enabled = agg.requires_scoring();
    let compiled = query.weight(searcher, scoring_enabled);
    plan_compiled(searcher, compiled, agg)
}

/// What a search owes, given what the query has compiled to. An error of the
/// compilation is handed on, and so is the error of an aggregator that cannot
/// be prepared. Else the fruit is that of a prepared aggregator of the
/// description on the segments of the searcher; the search succeeds where
/// every segment can be searched, and fails with the error of the first
/// segment that cannot.
pub open spec fn search_outcome<A: Agg>(
    agg: &A,
    searcher: tantivy::Searcher,
    compiled: Result<QueryWeight, tantivy::TantivyError>,
    r: Result<A::Fruit, AggError>,
) -> bool {
    let segments = searcher_segments(searcher);
    match compiled {
        Err(error) => r matches Err(e) && e == AggError::Index(error),
        Ok(weight) => {
            &&& r matches Ok(harvest) ==> agg.prepare_error(searcher) is None && segments.len()
                <= u32::MAX && exists|prepared: A::Child|
                {
                    &&& agg.prepares(prepared)
                    &&& agg.prepared_by(searcher, prepared)
                    &&& prepared.inv()
                    &&& prepared.fruit_ok(harvest.model())
                    &&& segments_open(&prepared, weight, segments)
                    &&& harvest.model() == searched(&prepared, weight, segments)
                }
            &&& agg.steady() ==> match agg.prepare_error(searcher) {
                Some(error) => r matches Err(e) && e == error,
                None => if segments.len() > u32::MAX {
                    r matches Err(e) && e == AggError::TooManySegments
                } else {
                    &&& (forall|prepared: A::Child|
                        #[trigger] agg.prepares(prepared) && agg.prepared_by(searcher, prepared)
                            && prepared.inv() ==> prepared.steady() && segments_open(
                            &prepared,
                            weight,
                            segments,
                        )) ==> r is Ok
                    &&& r matches Err(e) ==> exists|prepared: A::Child|
                        {
                            &&& #[trigger] agg.prepares(prepared)
                            &&& agg.prepared_by(searcher, prepared)
                            &&& prepared.inv()
                            &&& prepared.steady() ==> search_error(&prepared, weight, segments, e)
                        }
                },
            }
        },
    }
}

/// Searches with an aggregation, given what the query has compiled to:
/// prepares the aggregator and evaluates it on every segment of the searcher.
pub fn search_compiled<A: Agg>(
    searcher: &tantivy::Searcher,
    compiled: Result<QueryWeight, tantivy::TantivyError>,
    agg: &A,
) -> (r: Result<A::Fruit, AggError>)
    requires
        agg.inv(),
        agg.runs_on(*searcher),
        compiled matches Ok(weight) ==> forall|i: int|
            0 <= i < searcher_segments(*searcher).len() ==> weight_runs(
                weight,
                #[trigger] searcher_segments(*searcher)[i],
            ),
    ensures
        search_outcome(agg, *searcher, compiled, r),
{
    let (weight, prepared_agg) = match plan_compiled(searcher, compiled, agg) {
        Ok(plan) => plan,
        Err(e) => {
            return Err(e);
        },
    };
    let readers = segment_readers(searcher);
    let ghost segments = searcher_segments(*searcher);
    proof {
        assert forall|i: int| 0 <= i < segments.len() implies weight_runs(
            weight,
            #[trigger] segments[i],
        ) && prepared_agg.runs_on(segments[i]) by {}
    }
    let r = search_segments(&prepared_agg, &weight, readers);
    proof {
        assert(agg.prepares(prepared_agg) && agg.prepared_by(*searcher, prepared_agg)
            && prepared_agg.inv());
        if r is Ok {
            assert(segments_open(&prepared_agg, weight, segments));
        }
    }
    r
}

/// Searches with an aggregation: compiles the query, with scoring if a leaf
/// of the aggregator asks for scores, prepares the aggregator and evaluates
/// it on every segment of the searcher, on the calling thread.
pub fn agg_search<A: Agg>(searcher: &tantivy::Searcher, query: &QueryRef, agg: &A) -> (r: Result<
    A::Fruit,
    AggError,
>)
    requires
        agg.inv(),
        agg.runs_on(*searcher),
        query_weight(*query, *searcher, agg.leaf_scoring().contains(true)) is Some,
    ensures
        search_outcome(
            agg,
            *searcher,
            query_weight(*query, *searcher, agg.leaf_scoring().contains(true))->0,
            r,
        ),
{
    let scoring_enabled = agg.requires_scoring();
    let compiled = query.weight(searcher, scoring_enabled);
    search_compiled(searcher, compiled, agg)
}

} // verus!

//! Restricting an aggregator to the documents that also match a second query.
//! The segment aggregator walks the scorer of that query alongside the stream
//! of documents that it is given.

use vstd::prelude::*;
use crate::agg::{Agg, AggError, AggSegmentContext, FruitModel, ModelOf, PreparedAgg, SegmentAgg};
use crate::index::{
    ascending, hits_below, query_weight, scorer_at, scorer_hits, scorer_on_match, scorer_spent,
    searcher_segments,
    segment_max_doc, weight_runs, weight_scorer, DocId, QueryRef, QueryWeight, ScoreBits,
    SegmentScorer, SkipOutcome,
};

verus! {

/// The documents among the hits.
pub open spec fn docs_of(hits: Seq<(DocId, ScoreBits)>) -> Set<DocId> {
    Set::new(|doc: DocId| exists|i: int| 0 <= i < hits.len() && (#[trigger] hits[i]).0 == doc)
}

/// The hits that a skip passes over are below the target, and the hit that it
/// stops at is not.
pub proof fn lemma_hits_below(hits: Seq<(DocId, ScoreBits)>, target: DocId)
    requires
        ascending(hits),
    ensures
        hits_below(hits, target) <= hits.len(),
        forall|i: int| 0 <= i < hits_below(hits, target) ==> (#[trigger] hits[i]).0 < target,
        forall|i: int| hits_below(hits, target) <= i < hits.len() ==> (#[trigger] hits[i]).0 >= target,
    decreases hits.len(),
{
    if hits.len() > 0 && hits[0].0 < target {
        let rest = hits.drop_first();
        assert forall|i: int, j: int| 0 <= i < j < rest.len() implies rest[i].0 < rest[j].0 by {
            assert(rest[i] == hits[i + 1] && rest[j] == hits[j + 1]);
        }
        lemma_hits_below(rest, target);
        assert forall|i: int| 0 <= i < hits_below(hits, target) implies (#[trigger] hits[i]).0
            < target by {
            if i > 0 {
                assert(hits[i] == rest[i - 1]);
            }
        }
        assert forall|i: int| hits_below(hits, target) <= i < hits.len() implies (
        #[trigger] hits[i]).0 >= target by {
            assert(hits[i] == rest[i - 1]);
        }
    }
}

/// What to do with a document, given where the filter's cursor stands.
#[derive(Clone, Copy, PartialEq, Eq, Debug)]
pub enum FilterMove {
    /// The cursor is on the document: it passes.
    Forward,
    /// The cursor is beyond the document: it does not pass.
    Skip,
    /// The cursor is behind the document and has to be moved up to it.
    Seek,
}

/// Compares the cursor's document to the one that is to be collected.
pub fn filter_move(current: DocId, doc: DocId) -> (step: FilterMove)
    ensures
        step == if current == doc {
            FilterMove::Forward
        } else if current > doc {
            FilterMove::Skip
        } else {
            FilterMove::Seek
        },
{
    if current == doc {
        FilterMove::Forward
    } else if current > doc {
        FilterMove::Skip
    } else {
        FilterMove::Seek
    }
}

/// Restricts the sub-aggregator to the documents that match the query.
pub struct FilterAgg<'q, SubAgg> {
    query: QueryRef<'q>,
    sub_agg: SubAgg,
}

/// The filter aggregation, bound to a searcher: it holds the compiled query.
pub struct PreparedFilterAgg<SubAgg> {
    weight: QueryWeight,
    sub_agg: SubAgg,
}

/// The filter aggregation on one segment: it holds the cursor over the
/// documents that match the filter, and remembers when the cursor has come to
/// its end.
pub struct FilterSegmentAgg<SubAgg> {
    scorer: SegmentScorer,
    exhausted: bool,
    sub_agg: SubAgg,
    docs: Ghost<Set<DocId>>,
    low: Ghost<nat>,
}

/// The aggregation that hands the documents that match the query on to the
/// sub-aggregator.
pub fn filter_agg<'q, SubAgg: Agg>(query: QueryRef<'q>, sub_agg: SubAgg) -> (agg: FilterAgg<
    'q,
    SubAgg,
>)
    ensures
        agg.query() == query,
        agg.sub_agg() == sub_agg,
{
    FilterAgg { query, sub_agg }
}

impl<'q, SubAgg: Agg> FilterAgg<'q, SubAgg> {
    pub closed spec fn sub_agg(&self) -> SubAgg {
        self.sub_agg
    }

    /// The query of the filter.
    pub closed spec fn query(&self) -> QueryRef<'q> {
        self.query
    }

    /// Binds the aggregator to a searcher, given what the filter's query has
    /// compiled to. An error of the compilation is handed on; else the
    /// prepared aggregator holds the compiled query, unless the
    /// sub-aggregator cannot be prepared.
    pub fn prepare_with(
        &self,
        searcher: &tantivy::Searcher,
        compiled: Result<QueryWeight, tantivy::TantivyError>,
    ) -> (r: Result<PreparedFilterAgg<SubAgg::Child>, AggError>)
        requires
            self.inv(),
            self.sub_agg().runs_on(*searcher),
            compiled matches Ok(weight) ==> forall|i: int|
                0 <= i < searcher_segments(*searcher).len() ==> weight_runs(
                    weight,
                    #[trigger] searcher_segments(*searcher)[i],
                ),
        ensures
            compiled matches Err(error) ==> (r matches Err(e) && e == AggError::Index(error)),
            compiled matches Ok(weight) ==> {
                &&& r matches Ok(prepared) ==> {
                    &&& prepared.weight() == weight
                    &&& prepared.inv()
                    &&& self.sub_agg().prepares(prepared.sub_agg())
                    &&& self.sub_agg().prepared_by(*searcher, prepared.sub_agg())
                    &&& self.sub_agg().prepare_error(*searcher) is None
                    &&& forall|i: int|
                        0 <= i < searcher_segments(*searcher).len() ==> prepared.runs_on(
                            #[trigger] searcher_segments(*searcher)[i],
                        )
                }
                &&& self.sub_agg().steady() && self.sub_agg().prepare_error(*searcher) is None
                    ==> r is Ok
                &&& self.sub_agg().steady() ==> (r matches Err(e)
                    ==> self.sub_agg().prepare_error(*searcher) == Some(e))
            },
    {
        let weight = match compiled {
            Ok(weight) => weight,
            Err(e) => {
                return Err(AggError::Index(e));
            },
        };
        match self.sub_agg.prepare(searcher) {
            Ok(sub_agg) => Ok(PreparedFilterAgg { weight, sub_agg }),
            Err(e) => Err(e),
        }
    }
}

impl<SubAgg: PreparedAgg> PreparedFilterAgg<SubAgg> {
    pub closed spec fn sub_agg(&self) -> SubAgg {
        self.sub_agg
    }

    /// The compiled query of the filter.
    pub closed spec fn weight(&self) -> QueryWeight {
        self.weight
    }

    /// Makes the aggregator of one segment, given what came of opening a
    /// scorer of the filter there. An error of the opening is handed on; else
    /// the scorer is placed on its first document, and the aggregator filters
    /// by the documents of the scorer, unless the sub-aggregator cannot open
    /// the segment.
    pub fn for_segment_with(
        &self,
        ctx: &AggSegmentContext,
        opened: Result<SegmentScorer, tantivy::TantivyError>,
    ) -> (r: Result<FilterSegmentAgg<SubAgg::Child>, AggError>)
        requires
            self.sub_agg().inv(),
            self.sub_agg().runs_on(*ctx.reader),
            opened matches Ok(scorer) ==> ascending(scorer_hits(scorer)) && !scorer_spent(scorer),
        ensures
            opened matches Err(error) ==> (r matches Err(e) && e == AggError::Index(error)),
            opened matches Ok(scorer) ==> {
                &&& r matches Ok(child) ==> {
                    &&& child.sub_agg().inv()
                    &&& child.cursor_ok()
                    &&& child.low() == 0
                    &&& child.sub_agg().frontier() == 0
                    &&& child.docs() == docs_of(scorer_hits(scorer))
                    &&& self.sub_agg().meaning_on(*ctx) == Ok::<
                        <SubAgg::Child as SegmentAgg>::Meaning,
                        AggError,
                    >(child.sub_agg().meaning())
                    &&& self.sub_agg().spawns(child.sub_agg().meaning())
                    &&& SubAgg::Child::doc_limit(child.sub_agg().meaning()) >= segment_max_doc(
                        *ctx.reader,
                    )
                }
                &&& self.sub_agg().steady() && self.sub_agg().meaning_on(*ctx) is Ok ==> r is Ok
                &&& self.sub_agg().steady() ==> (r matches Err(e) ==> self.sub_agg().meaning_on(
                    *ctx,
                ) == Err::<<SubAgg::Child as SegmentAgg>::Meaning, AggError>(e))
            },
    {
        let mut scorer = match opened {
            Ok(scorer) => scorer,
            Err(e) => {
                return Err(AggError::Index(e));
            },
        };
        let ghost hits = scorer_hits(scorer);
        let exhausted = !scorer.advance();
        let sub_agg = match self.sub_agg.for_segment(ctx) {
            Ok(sub_agg) => sub_agg,
            Err(e) => {
                return Err(e);
            },
        };
        let child = FilterSegmentAgg {
            scorer,
            exhausted,
            sub_agg,
            docs: Ghost(docs_of(hits)),
            low: Ghost(0),
        };
        proof {
            let rest = scorer_hits(child.scorer);
            if !exhausted {
                assert(rest == hits.drop_first());
                assert forall|i: int| 0 <= i < rest.len() implies docs_of(hits).contains(
                    (#[trigger] rest[i]).0,
                ) && hits[0].0 < rest[i].0 by {
                    assert(rest[i] == hits[i + 1]);
                }
                assert forall|i: int, j: int| 0 <= i < j < rest.len() implies rest[i].0 < rest[j].0 by {
                    assert(rest[i] == hits[i + 1] && rest[j] == hits[j + 1]);
                }
                assert forall|doc: DocId| docs_of(hits).contains(doc) implies doc == hits[0].0
                    || docs_of(rest).contains(doc) by {
                    let i = choose|i: int| 0 <= i < hits.len() && (#[trigger] hits[i]).0 == doc;
                    if i > 0 {
                        assert(rest[i - 1] == hits[i]);
                    }
                }
            }
        }
        Ok(child)
    }
}

impl<SubAgg: SegmentAgg> FilterSegmentAgg<SubAgg> {
    pub closed spec fn sub_agg(&self) -> SubAgg {
        self.sub_agg
    }

    /// The documents of the segment that match the filter.
    pub closed spec fn docs(&self) -> Set<DocId> {
        self.docs@
    }

    /// The lowest document id that the filter can still answer for.
    pub closed spec fn low(&self) -> nat {
        self.low@
    }

    /// The cursor stands on the first matching document that is not below
    /// `low`, or the aggregator knows that there is none.
    pub closed spec fn cursor_ok(&self) -> bool {
        let hits = scorer_hits(self.scorer);
        &&& ascending(hits)
        &&& forall|i: int| 0 <= i < hits.len() ==> self.docs@.contains((#[trigger] hits[i]).0)
        &&& self.exhausted == scorer_spent(self.scorer)
        &&& if self.exhausted {
            forall|doc: DocId| self.docs@.contains(doc) ==> doc < self.low@
        } else {
            let current = scorer_at(self.scorer).0;
            &&& scorer_on_match(self.scorer)
            &&& self.docs@.contains(current)
            &&& forall|i: int| 0 <= i < hits.len() ==> current < (#[trigger] hits[i]).0
            &&& forall|doc: DocId|
                self.docs@.contains(doc) && doc >= self.low@ ==> doc == current || docs_of(
                    hits,
                ).contains(doc)
        }
    }
}

impl<'q, SubAgg: Agg> Agg for FilterAgg<'q, SubAgg> {
    type Fruit = SubAgg::Fruit;

    type Child = PreparedFilterAgg<SubAgg::Child>;

    open spec fn leaf_scoring(&self) -> Seq<bool> {
        self.sub_agg().leaf_scoring()
    }

    open spec fn inv(&self) -> bool {
        self.sub_agg().inv()
    }

    open spec fn steady(&self) -> bool {
        self.sub_agg().steady()
    }

    open spec fn runs_on(&self, searcher: tantivy::Searcher) -> bool {
        query_weight(self.query(), searcher, false) is Some && self.sub_agg().runs_on(searcher)
    }

    open spec fn prepare_error(&self, searcher: tantivy::Searcher) -> Option<AggError> {
        match query_weight(self.query(), searcher, false) {
            Some(Err(error)) => Some(AggError::Index(error)),
            _ => self.sub_agg().prepare_error(searcher),
        }
    }

    open spec fn prepared_by(&self, searcher: tantivy::Searcher, prepared: Self::Child) -> bool {
        &&& query_weight(self.query(), searcher, false) == Some(
            Ok::<QueryWeight, tantivy::TantivyError>(prepared.weight()),
        )
        &&& self.sub_agg().prepared_by(searcher, prepared.sub_agg())
    }

    open spec fn prepares(&self, prepared: Self::Child) -> bool {
        self.sub_agg().prepares(prepared.sub_agg())
    }

    /// Compiles the filter's query against the searcher, without scoring, and
    /// prepares the sub-aggregator.
    fn prepare(&self, searcher: &tantivy::Searcher) -> (r: Result<Self::Child, AggError>)
        ensures
            query_weight(self.query(), *searcher, false) matches Some(Err(error)) ==> (r matches Err(
                e,
            ) && e == AggError::Index(error)),
    {
        let compiled = self.query.weight(searcher, false);
        self.prepare_with(searcher, compiled)
    }

    fn requires_scoring(&self) -> (scoring: bool) {
        self.sub_agg.requires_scoring()
    }
}

impl<SubAgg: PreparedAgg> PreparedAgg for PreparedFilterAgg<SubAgg> {
    type Fruit = SubAgg::Fruit;

    type Child = FilterSegmentAgg<SubAgg::Child>;

    open spec fn inv(&self) -> bool {
        self.sub_agg().inv()
    }

    open spec fn fruit_ok(&self, fruit: ModelOf<SubAgg::Fruit>) -> bool {
        self.sub_agg().fruit_ok(fruit)
    }

    open spec fn empty(&self) -> ModelOf<SubAgg::Fruit> {
        self.sub_agg().empty()
    }

    open spec fn merged(
        &self,
        a: ModelOf<SubAgg::Fruit>,
        b: ModelOf<SubAgg::Fruit>,
    ) -> ModelOf<SubAgg::Fruit> {
        self.sub_agg().merged(a, b)
    }

    open spec fn fits(
        &self,
        a: ModelOf<SubAgg::Fruit>,
        b: ModelOf<SubAgg::Fruit>,
    ) -> bool {
        self.sub_agg().fits(a, b)
    }

    open spec fn spawns(&self, meaning: (Set<DocId>, <SubAgg::Child as SegmentAgg>::Meaning)) -> bool {
        self.sub_agg().spawns(meaning.1)
    }

    open spec fn runs_on(&self, reader: tantivy::SegmentReader) -> bool {
        weight_runs(self.weight(), reader) && self.sub_agg().runs_on(reader)
    }

    open spec fn meaning_on(&self, ctx: AggSegmentContext) -> Result<
        <Self::Child as SegmentAgg>::Meaning,
        AggError,
    > {
        match weight_scorer(self.weight(), *ctx.reader) {
            Ok(scorer) => match self.sub_agg().meaning_on(ctx) {
                Ok(meaning) => Ok((docs_of(scorer_hits(scorer)), meaning)),
                Err(e) => Err(e),
            },
            Err(error) => Err(AggError::Index(error)),
        }
    }

    open spec fn steady(&self) -> bool {
        self.sub_agg().steady()
    }

    fn create_fruit(&self) -> (fruit: Self::Fruit) {
        self.sub_agg.create_fruit()
    }

    /// Opens a scorer of the filter on the segment, places it on its first
    /// document, and opens the sub-aggregator.
    fn for_segment(&self, ctx: &AggSegmentContext) -> (r: Result<Self::Child, AggError>)
        ensures
            weight_scorer(self.weight(), *ctx.reader) matches Err(error) ==> (r matches Err(e) && e
                == AggError::Index(error)),
    {
        let opened = self.weight.scorer(ctx.reader);
        self.for_segment_with(ctx, opened)
    }

    fn merge(&self, acc: &mut Self::Fruit, fruit: Self::Fruit) {
        self.sub_agg.merge(acc, fruit);
    }

    proof fn law_identity(&self, a: ModelOf<SubAgg::Fruit>) {
        self.sub_agg().law_identity(a);
    }

    proof fn law_commutative(
        &self,
        a: ModelOf<SubAgg::Fruit>,
        b: ModelOf<SubAgg::Fruit>,
    ) {
        self.sub_agg().law_commutative(a, b);
    }

    proof fn law_associative(
        &self,
        a: ModelOf<SubAgg::Fruit>,
        b: ModelOf<SubAgg::Fruit>,
        c: ModelOf<SubAgg::Fruit>,
    ) {
        self.sub_agg().law_associative(a, b, c);
    }

    proof fn law_child(&self, meaning: (Set<DocId>, <SubAgg::Child as SegmentAgg>::Meaning)) {
        self.sub_agg().law_child(meaning.1);
    }
}

impl<SubAgg: SegmentAgg> SegmentAgg for FilterSegmentAgg<SubAgg> {
    type Fruit = SubAgg::Fruit;

    type Meaning = (Set<DocId>, SubAgg::Meaning);

    open spec fn meaning(&self) -> Self::Meaning {
        (self.docs(), self.sub_agg().meaning())
    }

    open spec fn inv(&self) -> bool {
        self.sub_agg().inv() && self.cursor_ok()
    }

    open spec fn frontier(&self) -> nat {
        if self.low() >= self.sub_agg().frontier() {
            self.low()
        } else {
            self.sub_agg().frontier()
        }
    }

    open spec fn doc_limit(meaning: Self::Meaning) -> nat {
        SubAgg::doc_limit(meaning.1)
    }

    open spec fn fruit_ok(meaning: Self::Meaning, fruit: ModelOf<SubAgg::Fruit>) -> bool {
        SubAgg::fruit_ok(meaning.1, fruit)
    }

    open spec fn empty(meaning: Self::Meaning) -> ModelOf<SubAgg::Fruit> {
        SubAgg::empty(meaning.1)
    }

    open spec fn merged(
        meaning: Self::Meaning,
        a: ModelOf<SubAgg::Fruit>,
        b: ModelOf<SubAgg::Fruit>,
    ) -> ModelOf<SubAgg::Fruit> {
        SubAgg::merged(meaning.1, a, b)
    }

    open spec fn contributions(meaning: Self::Meaning, doc: DocId, score: ScoreBits) -> Seq<
        ModelOf<SubAgg::Fruit>,
    > {
        if meaning.0.contains(doc) {
            SubAgg::contributions(meaning.1, doc, score)
        } else {
            Seq::empty()
        }
    }

    fn create_fruit(&self) -> (fruit: Self::Fruit) {
        self.sub_agg.create_fruit()
    }

    proof fn law_empty(meaning: Self::Meaning, a: ModelOf<SubAgg::Fruit>) {
        SubAgg::law_empty(meaning.1, a);
    }

    fn collect(&mut self, doc: DocId, score: ScoreBits, output: &mut Self::Fruit) {
        let ghost meaning = self.meaning();
        let ghost hits = scorer_hits(self.scorer);
        let mut forward = false;
        if !self.exhausted {
            match filter_move(self.scorer.doc(), doc) {
                FilterMove::Forward => {
                    forward = true;
                },
                FilterMove::Skip => {},
                FilterMove::Seek => {
                    proof {
                        lemma_hits_below(hits, doc);
                    }
                    match self.scorer.skip_next(doc) {
                        SkipOutcome::Reached => {
                            forward = true;
                        },
                        SkipOutcome::OverStep => {},
                        SkipOutcome::End => {
                            self.exhausted = true;
                        },
                    }
                    proof {
                        let k = hits_below(hits, doc) as int;
                        let rest = scorer_hits(self.scorer);
                        if k < hits.len() {
                            assert forall|i: int| 0 <= i < rest.len() implies self.docs@.contains(
                                (#[trigger] rest[i]).0,
                            ) && hits[k].0 < rest[i].0 by {
                                assert(rest[i] == hits[k + 1 + i]);
                            }
                            assert forall|i: int, j: int| 0 <= i < j < rest.len() implies rest[i].0
                                < rest[j].0 by {
                                assert(rest[i] == hits[k + 1 + i] && rest[j] == hits[k + 1 + j]);
                            }
                            assert forall|d: DocId|
                                self.docs@.contains(d) && d >= doc implies d == hits[k].0
                                || docs_of(rest).contains(d) by {
                                let i = choose|i: int| 0 <= i < hits.len() && (#[trigger] hits[i]).0 == d;
                                if i > k {
                                    assert(rest[i - k - 1] == hits[i]);
                                }
                            }
                        } else {
                            assert forall|d: DocId| self.docs@.contains(d) implies d < doc by {
                                if d >= self.low@ && docs_of(hits).contains(d) {
                                    let i = choose|i: int| 0 <= i < hits.len() && (#[trigger] hits[i]).0 == d;
                                }
                            }
                            assert(rest =~= Seq::empty());
                        }
                    }
                },
            }
        }
        self.low = Ghost(doc as nat);
        proof {
            assert(forward == meaning.0.contains(doc)) by {
                if !forward && meaning.0.contains(doc) && !self.exhausted {
                    let now = scorer_hits(self.scorer);
                    let i = choose|i: int| 0 <= i < now.len() && (#[trigger] now[i]).0 == doc;
                }
            }
        }
        if forward {
            self.sub_agg.collect(doc, score, output);
        } else {
            proof {
                crate::agg::lemma_folded_one(
                    |a: ModelOf<SubAgg::Fruit>, b: ModelOf<SubAgg::Fruit>|
                        Self::merged(meaning, a, b),
                    output.model(),
                    output.model(),
                );
            }
        }
        proof {
            crate::agg::lemma_folded_alike(
                |a: ModelOf<SubAgg::Fruit>, b: ModelOf<SubAgg::Fruit>|
                    SubAgg::merged(meaning.1, a, b),
                |a: ModelOf<SubAgg::Fruit>, b: ModelOf<SubAgg::Fruit>|
                    Self::merged(meaning, a, b),
                old(output).model(),
                SubAgg::contributions(meaning.1, doc, score),
            );
        }
    }
}

} // verus!

//! The three stages of an aggregator: the descriptor that a caller builds,
//! the prepared aggregator bound to a searcher, and the segment aggregator
//! that collects the documents of one segment into a fruit.
//!
//! Each stage states what it does over the model of its fruit. A prepared
//! aggregator gives its fruits a merge with an identity, and a segment
//! aggregator collects a document by merging the document's contribution into
//! the fruit. The laws of the merge are proof obligations of every
//! implementation.

use vstd::prelude::*;
use crate::index::{searcher_segments, segment_max_doc, DocId, ScoreBits, SegmentScorer};

verus! {

/// Why an aggregation could not be evaluated.
#[derive(Debug)]
pub enum AggError {
    /// The field has no column of the kind that was asked for.
    FastFieldNotAvailable(tantivy::schema::Field),
    /// The index library failed.
    Index(tantivy::TantivyError),
    /// The searcher has more segments than segment ordinals can number.
    TooManySegments,
}

/// What a prepared aggregator is given to open one segment: the ordinal of
/// the segment, its reader, and the scorer of the search on it, before the
/// scorer has been moved.
pub struct AggSegmentContext<'r, 's> {
    pub segment_ord: u32,
    pub reader: &'r tantivy::SegmentReader,
    pub scorer: &'s SegmentScorer,
}

/// A result of an aggregator, with the mathematical value that stands for it.
/// Two fruits with the same model cannot be told apart by a caller.
pub trait FruitModel {
    type Model;

    spec fn model(&self) -> Self::Model;
}

/// The model of a fruit.
pub type ModelOf<F> = <F as FruitModel>::Model;

/// An aggregator bound to one segment. It consumes the matching documents of
/// the segment in ascending order of their ids.
pub trait SegmentAgg: Sized {
    type Fruit: FruitModel;

    /// What the aggregator reads of its segment. Collecting never changes it.
    type Meaning;

    spec fn meaning(&self) -> Self::Meaning;

    /// What holds of the aggregator from the time it is made.
    spec fn inv(&self) -> bool;

    /// The lowest document id that may still be collected.
    spec fn frontier(&self) -> nat;

    /// One more than the highest document id that may ever be collected.
    spec fn doc_limit(meaning: Self::Meaning) -> nat;

    /// Whether the fruit is one that the aggregator can have grown.
    spec fn fruit_ok(meaning: Self::Meaning, fruit: ModelOf<Self::Fruit>) -> bool;

    /// The fruit of no document.
    spec fn empty(meaning: Self::Meaning) -> ModelOf<Self::Fruit>;

    /// The fruit of the documents of two fruits.
    spec fn merged(
        meaning: Self::Meaning,
        a: ModelOf<Self::Fruit>,
        b: ModelOf<Self::Fruit>,
    ) -> ModelOf<Self::Fruit>;

    /// What the document adds to a fruit: the fruits that are merged into it,
    /// one after the other, when the document is collected. A document that
    /// the aggregator passes over adds none.
    spec fn contributions(meaning: Self::Meaning, doc: DocId, score: ScoreBits) -> Seq<
        ModelOf<Self::Fruit>,
    >;

    /// Makes the fruit of no document.
    fn create_fruit(&self) -> (fruit: Self::Fruit)
        requires
            self.inv(),
        ensures
            fruit.model() == Self::empty(self.meaning()),
            Self::fruit_ok(self.meaning(), fruit.model()),
    ;

    /// Merging the empty fruit into a fruit changes nothing.
    proof fn law_empty(meaning: Self::Meaning, a: ModelOf<Self::Fruit>)
        requires
            Self::fruit_ok(meaning, a),
        ensures
            Self::merged(meaning, a, Self::empty(meaning)) == a,
    ;

    /// Adds a document of the segment to the fruit. The documents of a
    /// segment come in ascending order of their ids; the same document may
    /// come again for another fruit.
    fn collect(&mut self, doc: DocId, score: ScoreBits, output: &mut Self::Fruit)
        requires
            old(self).inv(),
            old(self).frontier() <= doc < Self::doc_limit(old(self).meaning()),
            Self::fruit_ok(old(self).meaning(), old(output).model()),
        ensures
            final(self).inv(),
            final(self).meaning() == old(self).meaning(),
            final(self).frontier() <= doc,
            Self::fruit_ok(old(self).meaning(), final(output).model()),
            final(output).model() == folded(
                |a: ModelOf<Self::Fruit>, b: ModelOf<Self::Fruit>|
                    Self::merged(old(self).meaning(), a, b),
                old(output).model(),
                Self::contributions(old(self).meaning(), doc, score),
            ),
    ;
}

/// The value after the given values have been merged into it, one after the
/// other.
pub open spec fn folded<M>(merge: spec_fn(M, M) -> M, start: M, deltas: Seq<M>) -> M
    decreases deltas.len(),
{
    if deltas.len() == 0 {
        start
    } else {
        merge(folded(merge, start, deltas.drop_last()), deltas.last())
    }
}

/// The fruit after the given fruits have been merged into it, one after the
/// other.
pub open spec fn merged_into<S: SegmentAgg>(
    meaning: S::Meaning,
    start: ModelOf<S::Fruit>,
    deltas: Seq<ModelOf<S::Fruit>>,
) -> ModelOf<S::Fruit> {
    folded(
        |a: ModelOf<S::Fruit>, b: ModelOf<S::Fruit>|
            S::merged(meaning, a, b),
        start,
        deltas,
    )
}

/// Merging two runs of values, one after the other, is merging all of them.
pub proof fn lemma_folded_parts<M>(merge: spec_fn(M, M) -> M, start: M, first: Seq<M>, second: Seq<M>)
    ensures
        folded(merge, start, first + second) == folded(merge, folded(merge, start, first), second),
    decreases second.len(),
{
    if second.len() == 0 {
        assert(first + second =~= first);
    } else {
        lemma_folded_parts(merge, start, first, second.drop_last());
        assert((first + second).drop_last() =~= first + second.drop_last());
        assert((first + second).last() == second.last());
    }
}

/// Merging one value into another, and merging none.
pub proof fn lemma_folded_one<M>(merge: spec_fn(M, M) -> M, start: M, delta: M)
    ensures
        folded(merge, start, seq![delta]) == merge(start, delta),
        folded(merge, start, Seq::empty()) == start,
{
    assert(seq![delta].drop_last() =~= Seq::empty());
    assert(folded(merge, start, Seq::empty()) == start);
    assert(seq![delta].last() == delta);
}

/// Two merges that agree on all values fold alike.
pub proof fn lemma_folded_alike<M>(
    merge: spec_fn(M, M) -> M,
    other: spec_fn(M, M) -> M,
    start: M,
    deltas: Seq<M>,
)
    requires
        forall|a: M, b: M| #[trigger] merge(a, b) == other(a, b),
    ensures
        folded(merge, start, deltas) == folded(other, start, deltas),
    decreases deltas.len(),
{
    if deltas.len() > 0 {
        lemma_folded_alike(merge, other, start, deltas.drop_last());
    }
}

/// Folding inside a wrapping. Where merging a wrapped value with a lifted
/// delta is merging the value with the delta and wrapping the result, folding
/// the lifted deltas into a wrapped value is wrapping the fold.
pub proof fn lemma_folded_through<M, N>(
    inner: spec_fn(M, M) -> M,
    outer: spec_fn(N, N) -> N,
    put: spec_fn(M) -> N,
    lift: spec_fn(M) -> N,
    start: M,
    deltas: Seq<M>,
)
    requires
        forall|a: M, d: M| #[trigger] outer(put(a), lift(d)) == put(inner(a, d)),
    ensures
        folded(outer, put(start), deltas.map_values(lift)) == put(folded(inner, start, deltas)),
    decreases deltas.len(),
{
    if deltas.len() > 0 {
        lemma_folded_through(inner, outer, put, lift, start, deltas.drop_last());
        assert(deltas.map_values(lift).drop_last() =~= deltas.drop_last().map_values(lift));
        assert(deltas.map_values(lift).last() == lift(deltas.last()));
    }
}

/// Merging two runs of fruits, one after the other, is merging all of them.
pub proof fn lemma_merged_into_parts<S: SegmentAgg>(
    meaning: S::Meaning,
    start: ModelOf<S::Fruit>,
    first: Seq<ModelOf<S::Fruit>>,
    second: Seq<ModelOf<S::Fruit>>,
)
    ensures
        merged_into::<S>(meaning, start, first + second) == merged_into::<S>(
            meaning,
            merged_into::<S>(meaning, start, first),
            second,
        ),
{
    lemma_folded_parts(
        |a: ModelOf<S::Fruit>, b: ModelOf<S::Fruit>|
            S::merged(meaning, a, b),
        start,
        first,
        second,
    );
}

/// An aggregator bound to a searcher. It is shared by the workers of all
/// segments and never changes.
pub trait PreparedAgg: Sized {
    type Fruit: FruitModel;

    type Child: SegmentAgg<Fruit = Self::Fruit>;

    /// What holds of the aggregator from the time it is made.
    spec fn inv(&self) -> bool;

    /// Whether the fruit is one that the aggregator can have grown.
    spec fn fruit_ok(&self, fruit: ModelOf<Self::Fruit>) -> bool;

    /// The fruit of no document.
    spec fn empty(&self) -> ModelOf<Self::Fruit>;

    /// The fruit of the documents of two fruits.
    spec fn merged(&self, a: ModelOf<Self::Fruit>, b: ModelOf<Self::Fruit>) -> ModelOf<
        Self::Fruit,
    >;

    /// Merging the two fruits loses nothing: no signed sum in it leaves its
    /// type's range.
    spec fn fits(&self, a: ModelOf<Self::Fruit>, b: ModelOf<Self::Fruit>) -> bool;

    /// The meaning is one that a segment aggregator of this aggregator can have.
    spec fn spawns(&self, meaning: <Self::Child as SegmentAgg>::Meaning) -> bool;

    /// Whether the compiled queries of the aggregator can be run on the
    /// segment.
    spec fn runs_on(&self, reader: tantivy::SegmentReader) -> bool;

    /// What a segment aggregator of this aggregator means on a segment, or
    /// the error of the first step of opening the segment that fails: a
    /// column that the segment lacks, or a compiled query that gives no
    /// scorer.
    spec fn meaning_on(&self, ctx: AggSegmentContext) -> Result<
        <Self::Child as SegmentAgg>::Meaning,
        AggError,
    >;

    /// Nothing but a missing column, or a query that gives no scorer, can keep
    /// the aggregator from opening a segment.
    spec fn steady(&self) -> bool;

    /// Makes the fruit of no document.
    fn create_fruit(&self) -> (fruit: Self::Fruit)
        requires
            self.inv(),
        ensures
            fruit.model() == self.empty(),
            self.fruit_ok(fruit.model()),
    ;

    /// Makes the aggregator of one segment. It fails where the segment lacks
    /// a column that the aggregator reads, or where a query of the aggregator
    /// gives no scorer for the segment.
    fn for_segment(&self, ctx: &AggSegmentContext) -> (r: Result<Self::Child, AggError>)
        requires
            self.inv(),
            self.runs_on(*ctx.reader),
        ensures
            r matches Ok(child) ==> {
                &&& self.meaning_on(*ctx) == Ok::<<Self::Child as SegmentAgg>::Meaning, AggError>(
                    child.meaning(),
                )
                &&& child.inv()
                &&& child.frontier() == 0
                &&& self.spawns(child.meaning())
                &&& Self::Child::doc_limit(child.meaning()) >= segment_max_doc(*ctx.reader)
            },
            self.steady() && self.meaning_on(*ctx) is Ok ==> r is Ok,
            self.steady() ==> (r matches Err(e) ==> self.meaning_on(*ctx) == Err::<
                <Self::Child as SegmentAgg>::Meaning,
                AggError,
            >(e)),
    ;

    /// Merges the second fruit into the first.
    fn merge(&self, acc: &mut Self::Fruit, fruit: Self::Fruit)
        requires
            self.inv(),
            self.fruit_ok(old(acc).model()),
            self.fruit_ok(fruit.model()),
        ensures
            self.fruit_ok(final(acc).model()),
            final(acc).model() == self.merged(old(acc).model(), fruit.model()),
    ;

    /// The empty fruit is an identity of the merge.
    proof fn law_identity(&self, a: ModelOf<Self::Fruit>)
        requires
            self.inv(),
        ensures
            self.fruit_ok(self.empty()),
            self.fruit_ok(a) ==> self.merged(self.empty(), a) == a,
            self.fruit_ok(a) ==> self.merged(a, self.empty()) == a,
    ;

    /// The merge does not depend on the order of its arguments.
    proof fn law_commutative(&self, a: ModelOf<Self::Fruit>, b: ModelOf<Self::Fruit>)
        requires
            self.inv(),
            self.fruit_ok(a),
            self.fruit_ok(b),
        ensures
            self.fruit_ok(self.merged(a, b)),
            self.merged(a, b) == self.merged(b, a),
            self.fits(a, b) == self.fits(b, a),
    ;

    /// Three fruits merge to the same fruit however they are grouped, as long
    /// as no merge among them loses anything.
    proof fn law_associative(
        &self,
        a: ModelOf<Self::Fruit>,
        b: ModelOf<Self::Fruit>,
        c: ModelOf<Self::Fruit>,
    )
        requires
            self.inv(),
            self.fruit_ok(a),
            self.fruit_ok(b),
            self.fruit_ok(c),
            self.fits(a, b),
            self.fits(b, c),
            self.fits(self.merged(a, b), c),
        ensures
            self.merged(self.merged(a, b), c) == self.merged(a, self.merged(b, c)),
            self.fits(a, self.merged(b, c)),
    ;

    /// A segment aggregator merges as its prepared aggregator does, and what a
    /// document contributes is a fruit of the aggregator.
    proof fn law_child(&self, meaning: <Self::Child as SegmentAgg>::Meaning)
        requires
            self.inv(),
            self.spawns(meaning),
        ensures
            Self::Child::empty(meaning) == self.empty(),
            forall|a: ModelOf<Self::Fruit>| #[trigger]
                Self::Child::fruit_ok(meaning, a) == self.fruit_ok(a),
            forall|a: ModelOf<Self::Fruit>, b: ModelOf<Self::Fruit>| #[trigger]
                Self::Child::merged(meaning, a, b) == self.merged(a, b),
            forall|doc: DocId, score: ScoreBits, i: int|
                0 <= i < Self::Child::contributions(meaning, doc, score).len() ==> self.fruit_ok(
                    #[trigger] Self::Child::contributions(meaning, doc, score)[i],
                ),
    ;
}

/// The description of an aggregation, as a caller builds it.
pub trait Agg: Sized {
    type Fruit: FruitModel;

    type Child: PreparedAgg<Fruit = Self::Fruit>;

    /// Whether each leaf of the aggregator's tree asks for scores, leaves in
    /// the order in which the tree holds them.
    spec fn leaf_scoring(&self) -> Seq<bool>;

    /// What the aggregator expects of the functions that the caller has given
    /// it.
    spec fn inv(&self) -> bool;

    /// Whether the queries of the aggregator can be run on the searcher.
    spec fn runs_on(&self, searcher: tantivy::Searcher) -> bool;

    /// Nothing but a query that does not compile can keep the aggregator from
    /// being prepared.
    spec fn steady(&self) -> bool;

    /// The error of the first query of the aggregator that does not compile
    /// against the searcher; none where all of them compile.
    spec fn prepare_error(&self, searcher: tantivy::Searcher) -> Option<AggError>;

    /// Whether the prepared aggregator is one of this description: it holds
    /// what the description holds.
    spec fn prepares(&self, prepared: Self::Child) -> bool;

    /// Whether the prepared aggregator is what the description gives on the
    /// searcher: its compiled queries are those of the description, compiled
    /// against the searcher.
    spec fn prepared_by(&self, searcher: tantivy::Searcher, prepared: Self::Child) -> bool;

    /// Binds the aggregator to a searcher. It fails where a query of the
    /// aggregator does not compile against the searcher.
    fn prepare(&self, searcher: &tantivy::Searcher) -> (r: Result<Self::Child, AggError>)
        requires
            self.inv(),
            self.runs_on(*searcher),
        ensures
            r matches Ok(prepared) ==> {
                &&& prepared.inv()
                &&& self.prepares(prepared)
                &&& self.prepared_by(*searcher, prepared)
                &&& self.prepare_error(*searcher) is None
                &&& forall|i: int|
                    0 <= i < searcher_segments(*searcher).len() ==> prepared.runs_on(
                        #[trigger] searcher_segments(*searcher)[i],
                    )
            },
            self.steady() && self.prepare_error(*searcher) is None ==> r is Ok,
            self.steady() ==> (r matches Err(e) ==> self.prepare_error(*searcher) == Some(e)),
    ;

    /// Whether a leaf of the aggregator's tree asks for scores.
    fn requires_scoring(&self) -> (scoring: bool)
        ensures
            scoring == self.leaf_scoring().contains(true),
    ;
}

} // verus!

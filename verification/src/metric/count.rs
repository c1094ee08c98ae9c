//! Counting the documents that match. A count stays at the largest count
//! once that is reached.

use vstd::prelude::*;
use crate::agg::{
    lemma_folded_one, Agg, AggError, AggSegmentContext, FruitModel, PreparedAgg, SegmentAgg,
};
use crate::index::{DocId, ScoreBits};

verus! {

/// The sum of two counts; it stays at the largest count once that is reached.
pub open spec fn count_sum(a: u64, b: u64) -> u64 {
    if a + b > u64::MAX {
        u64::MAX
    } else {
        (a + b) as u64
    }
}

impl FruitModel for u64 {
    type Model = u64;

    open spec fn model(&self) -> u64 {
        *self
    }
}

/// Counts the matching documents.
pub struct CountAgg;

/// The count, bound to a searcher.
pub struct PreparedCountAgg;

/// The count on one segment.
pub struct CountSegmentAgg;

/// The aggregation that counts the matching documents.
pub fn count_agg() -> (agg: CountAgg)
    ensures
        agg.leaf_scoring() == seq![false],
{
    CountAgg
}

impl Agg for CountAgg {
    type Fruit = u64;

    type Child = PreparedCountAgg;

    open spec fn leaf_scoring(&self) -> Seq<bool> {
        seq![false]
    }

    open spec fn inv(&self) -> bool {
        true
    }

    open spec fn steady(&self) -> bool {
        true
    }

    open spec fn runs_on(&self, searcher: tantivy::Searcher) -> bool {
        true
    }

    open spec fn prepare_error(&self, searcher: tantivy::Searcher) -> Option<AggError> {
        None
    }

    open spec fn prepared_by(&self, searcher: tantivy::Searcher, prepared: PreparedCountAgg) -> bool {
        true
    }

    open spec fn prepares(&self, prepared: PreparedCountAgg) -> bool {
        true
    }

    fn prepare(&self, searcher: &tantivy::Searcher) -> (r: Result<PreparedCountAgg, AggError>) {
        Ok(PreparedCountAgg)
    }

    fn requires_scoring(&self) -> (scoring: bool) {
        assert(!self.leaf_scoring().contains(true)) by {
            assert(self.leaf_scoring().len() == 1);
        }
        false
    }
}

impl PreparedAgg for PreparedCountAgg {
    type Fruit = u64;

    type Child = CountSegmentAgg;

    open spec fn inv(&self) -> bool {
        true
    }

    open spec fn fruit_ok(&self, fruit: u64) -> bool {
        true
    }

    open spec fn empty(&self) -> u64 {
        0
    }

    open spec fn merged(&self, a: u64, b: u64) -> u64 {
        count_sum(a, b)
    }

    open spec fn fits(&self, a: u64, b: u64) -> bool {
        true
    }

    open spec fn spawns(&self, meaning: ()) -> bool {
        true
    }

    open spec fn runs_on(&self, reader: tantivy::SegmentReader) -> bool {
        true
    }

    open spec fn meaning_on(&self, ctx: AggSegmentContext) -> Result<
        <Self::Child as SegmentAgg>::Meaning,
        AggError,
    > {
        Ok(())
    }

    open spec fn steady(&self) -> bool {
        true
    }

    fn create_fruit(&self) -> (fruit: u64) {
        0
    }

    fn for_segment(&self, ctx: &AggSegmentContext) -> (r: Result<CountSegmentAgg, AggError>) {
        Ok(CountSegmentAgg)
    }

    fn merge(&self, acc: &mut u64, fruit: u64) {
        *acc = acc.saturating_add(fruit);
    }

    proof fn law_identity(&self, a: u64) {
    }

    proof fn law_commutative(&self, a: u64, b: u64) {
    }

    proof fn law_associative(&self, a: u64, b: u64, c: u64) {
    }

    proof fn law_child(&self, meaning: ()) {
    }
}

impl SegmentAgg for CountSegmentAgg {
    type Fruit = u64;

    type Meaning = ();

    open spec fn meaning(&self) -> () {
        ()
    }

    open spec fn inv(&self) -> bool {
        true
    }

    open spec fn frontier(&self) -> nat {
        0
    }

    open spec fn doc_limit(meaning: ()) -> nat {
        0x1_0000_0000
    }

    open spec fn fruit_ok(meaning: (), fruit: u64) -> bool {
        true
    }

    open spec fn empty(meaning: ()) -> u64 {
        0
    }

    open spec fn merged(meaning: (), a: u64, b: u64) -> u64 {
        count_sum(a, b)
    }

    open spec fn contributions(meaning: (), doc: DocId, score: ScoreBits) -> Seq<u64> {
        seq![1u64]
    }

    fn create_fruit(&self) -> (fruit: u64) {
        0
    }

    proof fn law_empty(meaning: (), a: u64) {
    }

    fn collect(&mut self, doc: DocId, score: ScoreBits, output: &mut u64) {
        proof {
            lemma_folded_one(|a: u64, b: u64| Self::merged((), a, b), *output, 1u64);
        }
        *output = output.saturating_add(1);
    }
}

} // verus!

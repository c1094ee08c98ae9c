//! Grouping documents into the buckets of a histogram. A function of the
//! caller gives the ordinal of the bucket that a document falls into; the
//! fruit of a bucket is that of the sub-aggregator on its documents.

use vstd::prelude::*;
use std::collections::BTreeMap;
use core::marker::PhantomData;
use crate::agg::{
    lemma_folded_one, lemma_folded_through, Agg, AggError, AggSegmentContext, FruitModel, ModelOf,
    PreparedAgg, SegmentAgg,
};
use crate::bucket::buckets::{
    bucket_deltas, buckets_fit, buckets_merged, buckets_ok, collect_bucket,
    lemma_buckets_merged_alike, merge_buckets, models_of, BucketMap,
};
use crate::index::{DocId, ScoreBits};
use crate::post_filter::{fetched, fetches_always};

verus! {

/// The bit pattern of a number of the caller. The library carries it and
/// never reads it.
pub type NumberBits = u64;

/// Buckets with their scale: where the first bucket starts and how wide a
/// bucket is, as the caller has written them.
pub struct Scaled<B> {
    pub start: NumberBits,
    pub interval: NumberBits,
    pub buckets: B,
}

/// The fruit of a histogram: its scale, and the fruit of each bucket that a
/// document fell into, by the ordinal of the bucket.
#[derive(Debug)]
pub struct Histogram<T> {
    start: NumberBits,
    interval: NumberBits,
    buckets: BTreeMap<u64, T>,
}

impl<T> View for Histogram<T> {
    type V = Scaled<Map<u64, T>>;

    closed spec fn view(&self) -> Scaled<Map<u64, T>> {
        Scaled { start: self.start, interval: self.interval, buckets: self.buckets.held() }
    }
}

impl<T: FruitModel> FruitModel for Histogram<T> {
    type Model = Scaled<Map<u64, T::Model>>;

    open spec fn model(&self) -> Scaled<Map<u64, T::Model>> {
        Scaled {
            start: self@.start,
            interval: self@.interval,
            buckets: models_of(self@.buckets),
        }
    }
}

/// The ordinals are those of the lowest and the highest bucket of the map.
pub open spec fn spans<T>(buckets: Map<u64, T>, low: u64, high: u64) -> bool {
    &&& buckets.contains_key(low)
    &&& buckets.contains_key(high)
    &&& forall|k: u64| buckets.contains_key(k) ==> low <= k <= high
}

impl<T> Histogram<T> {
    /// A histogram of the scale without buckets.
    pub fn new(start: NumberBits, interval: NumberBits) -> (r: Self)
        ensures
            r@ == (Scaled { start, interval, buckets: Map::<u64, T>::empty() }),
    {
        Histogram { start, interval, buckets: BTreeMap::fresh() }
    }

    /// Where the first bucket starts.
    pub fn start(&self) -> (start: NumberBits)
        ensures
            start == self@.start,
    {
        self.start
    }

    /// How wide a bucket is.
    pub fn interval(&self) -> (interval: NumberBits)
        ensures
            interval == self@.interval,
    {
        self.interval
    }

    /// The fruit of the bucket with the ordinal, if a document fell into it.
    pub fn get(&self, ordinal: u64) -> (r: Option<&T>)
        ensures
            match r {
                Some(fruit) => self@.buckets.contains_key(ordinal) && *fruit == self@.buckets[ordinal],
                None => !self@.buckets.contains_key(ordinal),
            },
    {
        self.buckets.peek(&ordinal)
    }

    /// The ordinals of the lowest and of the highest bucket, if there is a
    /// bucket.
    pub fn span(&self) -> (r: Option<(u64, u64)>)
        ensures
            match r {
                Some((low, high)) => spans(self@.buckets, low, high),
                None => self@.buckets == Map::<u64, T>::empty(),
            },
    {
        let keys = self.buckets.key_list();
        if keys.len() == 0 {
            assert(self@.buckets =~= Map::<u64, T>::empty()) by {
                assert forall|k: u64| !self@.buckets.contains_key(k) by {
                    assert(!keys@.contains(k));
                }
            }
            return None;
        }
        let mut low = keys[0];
        let mut high = keys[0];
        let mut i: usize = 1;
        assert(keys@.contains(keys@[0]));
        while i < keys.len()
            invariant
                1 <= i <= keys.len(),
                keys@.contains(low),
                keys@.contains(high),
                forall|j: int| 0 <= j < i ==> low <= #[trigger] keys[j] <= high,
            decreases keys.len() - i,
        {
            assert(keys@.contains(keys@[i as int]));
            if keys[i] < low {
                low = keys[i];
            }
            if keys[i] > high {
                high = keys[i];
            }
            i += 1;
        }
        proof {
            assert forall|k: u64| self@.buckets.contains_key(k) implies low <= k <= high by {
                assert(keys@.contains(k));
                let j = choose|j: int| 0 <= j < keys@.len() && keys@[j] == k;
                assert(low <= keys[j] <= high);
            }
        }
        Some((low, high))
    }

    /// The buckets from the lowest to the highest, each with its ordinal. A
    /// bucket in between that no document fell into is listed without a
    /// fruit.
    pub fn buckets(&self) -> (r: Vec<(u64, Option<&T>)>)
        requires
            forall|low: u64, high: u64|
                self@.buckets.contains_key(low) && self@.buckets.contains_key(high) ==> high - low < usize::MAX,
        ensures
            self@.buckets == Map::<u64, T>::empty() ==> r@.len() == 0,
            forall|low: u64, high: u64| #[trigger]
                spans(self@.buckets, low, high) ==> {
                    &&& r@.len() == high - low + 1
                    &&& forall|i: int|
                        0 <= i < r@.len() ==> (#[trigger] r@[i]).0 == low + i && r@[i].1 == (
                        if self@.buckets.contains_key((low + i) as u64) {
                            Some(&self@.buckets[(low + i) as u64])
                        } else {
                            None
                        })
                },
    {
        let mut res: Vec<(u64, Option<&T>)> = Vec::new();
        let (low, high) = match self.span() {
            Some(span) => span,
            None => {
                return res;
            },
        };
        let mut ordinal = low;
        loop
            invariant_except_break
                res@.len() == ordinal - low,
            invariant
                spans(self@.buckets, low, high),
                high - low < usize::MAX,
                low <= ordinal <= high,
                forall|i: int|
                    0 <= i < res@.len() ==> (#[trigger] res@[i]).0 == low + i && res@[i].1 == (
                    if self@.buckets.contains_key((low + i) as u64) {
                        Some(&self@.buckets[(low + i) as u64])
                    } else {
                        None
                    }),
            ensures
                res@.len() == high - low + 1,
            decreases high - ordinal,
        {
            res.push((ordinal, self.buckets.peek(&ordinal)));
            if ordinal == high {
                break;
            }
            ordinal += 1;
        }
        proof {
            assert forall|a: u64, b: u64| #[trigger] spans(self@.buckets, a, b) implies a == low && b
                == high by {}
        }
        res
    }
}

/// The function gives the same ordinal whenever it is asked about the same
/// document, and accepts every document.
pub open spec fn maps_steadily<Reader, Ordinal: Fn(&Reader, DocId) -> Option<u64>>(
    ordinal: Ordinal,
) -> bool {
    &&& forall|reader: Reader, doc: DocId| call_requires(ordinal, (&reader, doc))
    &&& forall|reader: Reader, doc: DocId, x: Option<u64>, y: Option<u64>|
        call_ensures(ordinal, (&reader, doc), x) && call_ensures(ordinal, (&reader, doc), y) ==> x
            == y
}

/// The ordinal of the bucket that the document falls into, if it falls into
/// one.
pub open spec fn ordinal_at<Reader, Ordinal: Fn(&Reader, DocId) -> Option<u64>>(
    ordinal: Ordinal,
    reader: Reader,
    doc: DocId,
) -> Option<u64> {
    choose|o: Option<u64>| call_ensures(ordinal, (&reader, doc), o)
}

/// Groups the documents by the ordinal that a function of the caller gives
/// them. The function reads what the fetcher has got from the segment; a
/// document to which it gives no ordinal falls into no bucket.
pub struct HistogramAgg<Fetcher, Reader, Ordinal, SubAgg> {
    fetcher: Fetcher,
    ordinal: Ordinal,
    start: NumberBits,
    interval: NumberBits,
    sub_agg: SubAgg,
    reader: PhantomData<Reader>,
}

/// The histogram aggregation, bound to a searcher.
pub struct PreparedHistogramAgg<Fetcher, Reader, Ordinal, SubAgg> {
    fetcher: Fetcher,
    ordinal: Ordinal,
    start: NumberBits,
    interval: NumberBits,
    sub_agg: SubAgg,
    reader: PhantomData<Reader>,
}

/// The histogram aggregation on one segment.
pub struct HistogramSegmentAgg<Reader, Ordinal, SubAgg> {
    reader: Reader,
    ordinal: Ordinal,
    start: NumberBits,
    interval: NumberBits,
    sub_agg: SubAgg,
}

/// The aggregation that groups the documents by the ordinal that `ordinal`
/// gives them, reading what `fetcher` gets from each segment. The fruit
/// carries the scale that the caller gives.
pub fn histogram_agg<Fetcher, Reader, Ordinal, SubAgg>(
    fetcher: Fetcher,
    ordinal: Ordinal,
    start: NumberBits,
    interval: NumberBits,
    sub_agg: SubAgg,
) -> (agg: HistogramAgg<Fetcher, Reader, Ordinal, SubAgg>) where
    Fetcher: Fn(&AggSegmentContext) -> Result<Reader, tantivy::schema::Field> + Copy,
    Ordinal: Fn(&Reader, DocId) -> Option<u64> + Copy,
    SubAgg: Agg,

    ensures
        agg.fetcher() == fetcher,
        agg.ordinal() == ordinal,
        agg.start() == start,
        agg.interval() == interval,
        agg.sub_agg() == sub_agg,
{
    HistogramAgg { fetcher, ordinal, start, interval, sub_agg, reader: PhantomData }
}

impl<Fetcher, Reader, Ordinal, SubAgg> HistogramAgg<Fetcher, Reader, Ordinal, SubAgg> {
    pub closed spec fn fetcher(&self) -> Fetcher {
        self.fetcher
    }

    pub closed spec fn ordinal(&self) -> Ordinal {
        self.ordinal
    }

    pub closed spec fn start(&self) -> NumberBits {
        self.start
    }

    pub closed spec fn interval(&self) -> NumberBits {
        self.interval
    }

    pub closed spec fn sub_agg(&self) -> SubAgg {
        self.sub_agg
    }
}

impl<Fetcher, Reader, Ordinal, SubAgg> PreparedHistogramAgg<Fetcher, Reader, Ordinal, SubAgg> {
    pub closed spec fn fetcher(&self) -> Fetcher {
        self.fetcher
    }

    pub closed spec fn ordinal(&self) -> Ordinal {
        self.ordinal
    }

    pub closed spec fn start(&self) -> NumberBits {
        self.start
    }

    pub closed spec fn interval(&self) -> NumberBits {
        self.interval
    }

    pub closed spec fn sub_agg(&self) -> SubAgg {
        self.sub_agg
    }
}

impl<Reader, Ordinal, SubAgg> HistogramSegmentAgg<Reader, Ordinal, SubAgg> {
    pub closed spec fn reader(&self) -> Reader {
        self.reader
    }

    pub closed spec fn ordinal(&self) -> Ordinal {
        self.ordinal
    }

    pub closed spec fn start(&self) -> NumberBits {
        self.start
    }

    pub closed spec fn interval(&self) -> NumberBits {
        self.interval
    }

    pub closed spec fn sub_agg(&self) -> SubAgg {
        self.sub_agg
    }
}

impl<Fetcher, Reader, Ordinal, SubAgg> Agg for HistogramAgg<Fetcher, Reader, Ordinal, SubAgg> where
    Fetcher: Fn(&AggSegmentContext) -> Result<Reader, tantivy::schema::Field> + Copy,
    Ordinal: Fn(&Reader, DocId) -> Option<u64> + Copy,
    SubAgg: Agg,
 {
    type Fruit = Histogram<SubAgg::Fruit>;

    type Child = PreparedHistogramAgg<Fetcher, Reader, Ordinal, SubAgg::Child>;

    open spec fn leaf_scoring(&self) -> Seq<bool> {
        self.sub_agg().leaf_scoring()
    }

    open spec fn inv(&self) -> bool {
        &&& self.sub_agg().inv()
        &&& maps_steadily::<Reader, Ordinal>(self.ordinal())
        &&& fetches_always::<Reader, Fetcher>(self.fetcher())
    }

    open spec fn steady(&self) -> bool {
        self.sub_agg().steady()
    }

    open spec fn runs_on(&self, searcher: tantivy::Searcher) -> bool {
        self.sub_agg().runs_on(searcher)
    }

    open spec fn prepare_error(&self, searcher: tantivy::Searcher) -> Option<AggError> {
        self.sub_agg().prepare_error(searcher)
    }

    open spec fn prepared_by(&self, searcher: tantivy::Searcher, prepared: Self::Child) -> bool {
        self.sub_agg().prepared_by(searcher, prepared.sub_agg())
    }

    open spec fn prepares(&self, prepared: Self::Child) -> bool {
        &&& prepared.fetcher() == self.fetcher()
        &&& prepared.ordinal() == self.ordinal()
        &&& prepared.start() == self.start()
        &&& prepared.interval() == self.interval()
        &&& self.sub_agg().prepares(prepared.sub_agg())
    }

    fn prepare(&self, searcher: &tantivy::Searcher) -> (r: Result<Self::Child, AggError>) {
        match self.sub_agg.prepare(searcher) {
            Ok(sub_agg) => Ok(
                PreparedHistogramAgg {
                    fetcher: self.fetcher,
                    ordinal: self.ordinal,
                    start: self.start,
                    interval: self.interval,
                    sub_agg,
                    reader: PhantomData,
                },
            ),
            Err(e) => Err(e),
        }
    }

    fn requires_scoring(&self) -> (scoring: bool) {
        self.sub_agg.requires_scoring()
    }
}

impl<Fetcher, Reader, Ordinal, SubAgg> PreparedAgg for PreparedHistogramAgg<
    Fetcher,
    Reader,
    Ordinal,
    SubAgg,
> where
    Fetcher: Fn(&AggSegmentContext) -> Result<Reader, tantivy::schema::Field> + Copy,
    Ordinal: Fn(&Reader, DocId) -> Option<u64> + Copy,
    SubAgg: PreparedAgg,
 {
    type Fruit = Histogram<SubAgg::Fruit>;

    type Child = HistogramSegmentAgg<Reader, Ordinal, SubAgg::Child>;

    open spec fn inv(&self) -> bool {
        &&& self.sub_agg().inv()
        &&& maps_steadily::<Reader, Ordinal>(self.ordinal())
        &&& fetches_always::<Reader, Fetcher>(self.fetcher())
    }

    open spec fn fruit_ok(&self, fruit: ModelOf<Self::Fruit>) -> bool {
        &&& fruit.start == self.start()
        &&& fruit.interval == self.interval()
        &&& buckets_ok(|f: ModelOf<SubAgg::Fruit>| self.sub_agg().fruit_ok(f), fruit.buckets)
    }

    open spec fn empty(&self) -> ModelOf<Self::Fruit> {
        Scaled { start: self.start(), interval: self.interval(), buckets: Map::empty() }
    }

    open spec fn merged(&self, a: ModelOf<Self::Fruit>, b: ModelOf<Self::Fruit>) -> ModelOf<
        Self::Fruit,
    > {
        Scaled {
            start: a.start,
            interval: a.interval,
            buckets: buckets_merged(
                |x: ModelOf<SubAgg::Fruit>, y: ModelOf<SubAgg::Fruit>| self.sub_agg().merged(x, y),
                a.buckets,
                b.buckets,
            ),
        }
    }

    open spec fn fits(&self, a: ModelOf<Self::Fruit>, b: ModelOf<Self::Fruit>) -> bool {
        buckets_fit(
            |x: ModelOf<SubAgg::Fruit>, y: ModelOf<SubAgg::Fruit>| self.sub_agg().fits(x, y),
            a.buckets,
            b.buckets,
        )
    }

    open spec fn spawns(&self, meaning: <Self::Child as SegmentAgg>::Meaning) -> bool {
        &&& meaning.1 == self.ordinal()
        &&& self.sub_agg().spawns(meaning.2)
        &&& meaning.3 == self.start()
        &&& meaning.4 == self.interval()
    }

    open spec fn runs_on(&self, reader: tantivy::SegmentReader) -> bool {
        self.sub_agg().runs_on(reader)
    }

    open spec fn meaning_on(&self, ctx: AggSegmentContext) -> Result<
        <Self::Child as SegmentAgg>::Meaning,
        AggError,
    > {
        match fetched(self.fetcher(), ctx) {
            Ok(reader) => match self.sub_agg().meaning_on(ctx) {
                Ok(meaning) => Ok(
                    (reader, self.ordinal(), meaning, self.start(), self.interval()),
                ),
                Err(e) => Err(e),
            },
            Err(field) => Err(AggError::FastFieldNotAvailable(field)),
        }
    }

    open spec fn steady(&self) -> bool {
        self.sub_agg().steady()
    }

    fn create_fruit(&self) -> (fruit: Self::Fruit) {
        let fruit = Histogram::new(self.start, self.interval);
        assert(fruit.model().buckets =~= self.empty().buckets);
        fruit
    }

    fn for_segment(&self, ctx: &AggSegmentContext) -> (r: Result<Self::Child, AggError>)
        ensures
            fetched(self.fetcher(), *ctx) matches Err(field) ==> (r matches Err(e) && e
                == AggError::FastFieldNotAvailable(field)),
    {
        assert(call_requires(self.fetcher, (&*ctx,)));
        let reader = match (self.fetcher)(ctx) {
            Ok(reader) => reader,
            Err(field) => {
                return Err(AggError::FastFieldNotAvailable(field));
            },
        };
        match self.sub_agg.for_segment(ctx) {
            Ok(sub_agg) => Ok(
                HistogramSegmentAgg {
                    reader,
                    ordinal: self.ordinal,
                    start: self.start,
                    interval: self.interval,
                    sub_agg,
                },
            ),
            Err(e) => Err(e),
        }
    }

    fn merge(&self, acc: &mut Self::Fruit, fruit: Self::Fruit) {
        merge_buckets(&self.sub_agg, &mut acc.buckets, fruit.buckets);
    }

    proof fn law_identity(&self, a: ModelOf<Self::Fruit>) {
        assert(self.merged(self.empty(), a).buckets =~= a.buckets);
        assert(self.merged(a, self.empty()).buckets =~= a.buckets);
    }

    proof fn law_commutative(&self, a: ModelOf<Self::Fruit>, b: ModelOf<Self::Fruit>) {
        let x = a.buckets;
        let y = b.buckets;
        assert forall|k: u64| x.contains_key(k) && y.contains_key(k) implies {
            &&& self.sub_agg().merged(x[k], y[k]) == self.sub_agg().merged(y[k], x[k])
            &&& self.sub_agg().fruit_ok(self.sub_agg().merged(x[k], y[k]))
            &&& self.sub_agg().fits(x[k], y[k]) == self.sub_agg().fits(y[k], x[k])
        } by {
            self.sub_agg().law_commutative(x[k], y[k]);
        }
        assert(self.merged(a, b).buckets =~= self.merged(b, a).buckets);
        assert(self.merged(a, b).buckets.dom() =~= x.dom().union(y.dom()));
    }

    proof fn law_associative(
        &self,
        a: ModelOf<Self::Fruit>,
        b: ModelOf<Self::Fruit>,
        c: ModelOf<Self::Fruit>,
    ) {
        let x = a.buckets;
        let y = b.buckets;
        let z = c.buckets;
        let xy = self.merged(a, b).buckets;
        let yz = self.merged(b, c).buckets;
        assert forall|k: u64| x.contains_key(k) && y.contains_key(k) && z.contains_key(k) implies {
            &&& self.sub_agg().merged(self.sub_agg().merged(x[k], y[k]), z[k])
                == self.sub_agg().merged(x[k], self.sub_agg().merged(y[k], z[k]))
            &&& self.sub_agg().fits(x[k], self.sub_agg().merged(y[k], z[k]))
        } by {
            assert(xy.contains_key(k));
            assert(xy[k] == self.sub_agg().merged(x[k], y[k]));
            self.sub_agg().law_associative(x[k], y[k], z[k]);
        }
        assert(self.merged(self.merged(a, b), c).buckets =~= self.merged(
            a,
            self.merged(b, c),
        ).buckets);
        assert forall|k: u64| #[trigger] x.contains_key(k) && yz.contains_key(k) implies self.sub_agg().fits(
            x[k],
            yz[k],
        ) by {
            if y.contains_key(k) && z.contains_key(k) {
            } else if y.contains_key(k) {
            } else {
                assert(xy.contains_key(k));
                assert(z.contains_key(k));
            }
        }
    }

    proof fn law_child(&self, meaning: <Self::Child as SegmentAgg>::Meaning) {
        self.sub_agg().law_child(meaning.2);
        self.sub_agg().law_identity(self.sub_agg().empty());
        let child_merge = |x: ModelOf<SubAgg::Fruit>, y: ModelOf<SubAgg::Fruit>|
            SubAgg::Child::merged(meaning.2, x, y);
        let merge = |x: ModelOf<SubAgg::Fruit>, y: ModelOf<SubAgg::Fruit>|
            self.sub_agg().merged(x, y);
        assert forall|a: ModelOf<Self::Fruit>, b: ModelOf<Self::Fruit>| #[trigger]
            Self::Child::merged(meaning, a, b) == self.merged(a, b) by {
            lemma_buckets_merged_alike(child_merge, merge, a.buckets, b.buckets);
        }
        assert forall|a: ModelOf<Self::Fruit>| #[trigger]
            Self::Child::fruit_ok(meaning, a) == self.fruit_ok(a) by {
            assert forall|f: ModelOf<SubAgg::Fruit>|
                SubAgg::Child::fruit_ok(meaning.2, f) == self.sub_agg().fruit_ok(f) by {}
        }
        assert forall|doc: DocId, score: ScoreBits, i: int|
            0 <= i < Self::Child::contributions(meaning, doc, score).len() implies self.fruit_ok(
            #[trigger] Self::Child::contributions(meaning, doc, score)[i],
        ) by {
            let deltas = SubAgg::Child::contributions(meaning.2, doc, score);
            let empty = SubAgg::Child::empty(meaning.2);
            if let Some(key) = ordinal_at(meaning.1, meaning.0, doc) {
                let all = bucket_deltas(key, empty, deltas);
                if i == 0 {
                    assert(all[i] == map![key => empty]);
                } else {
                    assert(all[i] == map![key => deltas[i - 1]]);
                    assert(self.sub_agg().fruit_ok(deltas[i - 1]));
                }
            }
        }
    }
}

impl<Reader, Ordinal, SubAgg> SegmentAgg for HistogramSegmentAgg<Reader, Ordinal, SubAgg> where
    Ordinal: Fn(&Reader, DocId) -> Option<u64>,
    SubAgg: SegmentAgg,
 {
    type Fruit = Histogram<SubAgg::Fruit>;

    type Meaning = (Reader, Ordinal, SubAgg::Meaning, NumberBits, NumberBits);

    open spec fn meaning(&self) -> Self::Meaning {
        (self.reader(), self.ordinal(), self.sub_agg().meaning(), self.start(), self.interval())
    }

    open spec fn inv(&self) -> bool {
        self.sub_agg().inv() && maps_steadily::<Reader, Ordinal>(self.ordinal())
    }

    open spec fn frontier(&self) -> nat {
        self.sub_agg().frontier()
    }

    open spec fn doc_limit(meaning: Self::Meaning) -> nat {
        SubAgg::doc_limit(meaning.2)
    }

    open spec fn fruit_ok(meaning: Self::Meaning, fruit: ModelOf<Self::Fruit>) -> bool {
        &&& fruit.start == meaning.3
        &&& fruit.interval == meaning.4
        &&& buckets_ok(
            |f: ModelOf<SubAgg::Fruit>| SubAgg::fruit_ok(meaning.2, f),
            fruit.buckets,
        )
    }

    open spec fn empty(meaning: Self::Meaning) -> ModelOf<Self::Fruit> {
        Scaled { start: meaning.3, interval: meaning.4, buckets: Map::empty() }
    }

    open spec fn merged(
        meaning: Self::Meaning,
        a: ModelOf<Self::Fruit>,
        b: ModelOf<Self::Fruit>,
    ) -> ModelOf<Self::Fruit> {
        Scaled {
            start: a.start,
            interval: a.interval,
            buckets: buckets_merged(
                |x: ModelOf<SubAgg::Fruit>, y: ModelOf<SubAgg::Fruit>|
                    SubAgg::merged(meaning.2, x, y),
                a.buckets,
                b.buckets,
            ),
        }
    }

    open spec fn contributions(meaning: Self::Meaning, doc: DocId, score: ScoreBits) -> Seq<
        ModelOf<Self::Fruit>,
    > {
        match ordinal_at(meaning.1, meaning.0, doc) {
            Some(key) => bucket_deltas(
                key,
                SubAgg::empty(meaning.2),
                SubAgg::contributions(meaning.2, doc, score),
            ).map_values(
                |delta: Map<u64, ModelOf<SubAgg::Fruit>>|
                    Scaled { start: meaning.3, interval: meaning.4, buckets: delta },
            ),
            None => Seq::empty(),
        }
    }

    fn create_fruit(&self) -> (fruit: Self::Fruit) {
        let fruit = Histogram::new(self.start, self.interval);
        assert(fruit.model().buckets =~= Self::empty(self.meaning()).buckets);
        fruit
    }

    proof fn law_empty(meaning: Self::Meaning, a: ModelOf<Self::Fruit>) {
        assert(Self::merged(meaning, a, Self::empty(meaning)).buckets =~= a.buckets);
    }

    fn collect(&mut self, doc: DocId, score: ScoreBits, output: &mut Self::Fruit) {
        let ghost meaning = self.meaning();
        let ghost start = output.model();
        let ghost inner = |
            x: Map<u64, ModelOf<SubAgg::Fruit>>,
            y: Map<u64, ModelOf<SubAgg::Fruit>>,
        |
            buckets_merged(
                |a: ModelOf<SubAgg::Fruit>, b: ModelOf<SubAgg::Fruit>|
                    SubAgg::merged(meaning.2, a, b),
                x,
                y,
            );
        let ghost outer = |a: ModelOf<Self::Fruit>, b: ModelOf<Self::Fruit>|
            Self::merged(meaning, a, b);
        let ghost scaled = |buckets: Map<u64, ModelOf<SubAgg::Fruit>>|
            Scaled { start: meaning.3, interval: meaning.4, buckets };
        match (self.ordinal)(&self.reader, doc) {
            Some(key) => {
                collect_bucket(&mut self.sub_agg, &mut output.buckets, key, doc, score);
                proof {
                    lemma_folded_through(
                        inner,
                        outer,
                        scaled,
                        scaled,
                        start.buckets,
                        bucket_deltas(
                            key,
                            SubAgg::empty(meaning.2),
                            SubAgg::contributions(meaning.2, doc, score),
                        ),
                    );
                    assert(scaled(start.buckets) == start);
                }
            },
            None => {
                proof {
                    lemma_folded_one(outer, start, start);
                }
            },
        }
    }
}

} // verus!

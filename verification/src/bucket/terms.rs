//! Grouping documents by the values of a column: each value that occurs is a
//! key, and the fruit of a key is that of the sub-aggregator on the documents
//! that hold it.

use vstd::prelude::*;
use vstd::std_specs::iter::IteratorSpec;
use std::collections::HashMap;
use core::marker::PhantomData;
use crate::agg::{
    folded, lemma_folded_alike, lemma_folded_one, lemma_folded_parts, Agg, AggError,
    AggSegmentContext, FruitModel, ModelOf, PreparedAgg, SegmentAgg,
};
use crate::bucket::buckets::{
    bucket_deltas, buckets_fit, buckets_merged, buckets_ok, collect_bucket, keys_of,
    lemma_buckets_merged_alike, merge_buckets, models_of, row_deltas,
};
use crate::column::{FastColumn, FastNumber};
use crate::index::{DocId, I64Column, I64sColumn, ScoreBits, U64Column, U64sColumn};
use crate::predicate::{AllValues, Predicate, ValueFilter};

verus! {

broadcast use vstd::std_specs::hash::group_hash_axioms;

/// The fruit of a terms aggregation: the fruit of each key that was seen.
#[derive(Debug)]
pub struct TermsAggResult<K, T> {
    res: HashMap<K, T>,
}

impl<K, T> View for TermsAggResult<K, T> {
    type V = Map<K, T>;

    closed spec fn view(&self) -> Map<K, T> {
        self.res@
    }
}

impl<K, T: FruitModel> FruitModel for TermsAggResult<K, T> {
    type Model = Map<K, T::Model>;

    open spec fn model(&self) -> Map<K, T::Model> {
        models_of(self@)
    }
}

/// The entries of a map, each once.
pub fn entries_of<'a, K: FastNumber, T>(map: &'a HashMap<K, T>) -> (entries: Vec<(&'a K, &'a T)>)
    ensures
        entries@.len() == map@.dom().len(),
        forall|i: int|
            0 <= i < entries@.len() ==> map@.contains_key(*(#[trigger] entries@[i]).0) && map@[*entries@[i].0]
                == *entries@[i].1,
        forall|i: int, j: int|
            0 <= i < entries@.len() && 0 <= j < entries@.len() && i != j ==> *(
            #[trigger] entries@[i]).0 != *(#[trigger] entries@[j]).0,
        forall|k: K|
            map@.contains_key(k) ==> exists|i: int|
                0 <= i < entries@.len() && *(#[trigger] entries@[i]).0 == k,
{
    proof {
        K::law_num(arbitrary(), arbitrary());
    }
    let mut entries: Vec<(&'a K, &'a T)> = Vec::new();
    let ghost listed = vstd::std_specs::hash::spec_hash_map_iter(map).remaining();
    for entry in it: map.iter()
        invariant
            it.seq() == listed,
            entries@ == listed.take(it.index()),
    {
        entries.push(entry);
        assert(entries@ =~= listed.take(it.index() + 1));
    }
    proof {
        assert(entries@ =~= listed);
        assert forall|i: int, j: int|
            0 <= i < entries@.len() && 0 <= j < entries@.len() && i != j implies *(
        #[trigger] entries@[i]).0 != *(#[trigger] entries@[j]).0 by {
            assert(map@.contains_key(*listed[i].0) && map@[*listed[i].0] == *listed[i].1);
            assert(map@.contains_key(*listed[j].0) && map@[*listed[j].0] == *listed[j].1);
            assert(listed[i] != listed[j]);
        }
        assert forall|k: K| map@.contains_key(k) implies exists|i: int|
            0 <= i < entries@.len() && *(#[trigger] entries@[i]).0 == k by {
            assert(listed.contains((&k, &map@[k])));
            let i = choose|i: int| 0 <= i < listed.len() && listed[i] == (&k, &map@[k]);
            assert(*entries@[i].0 == k);
        }
    }
    entries
}

/// The rank that a projection gives to a fruit.
pub open spec fn score_of<T, U, F: Fn(&T) -> U>(sort_by: F, fruit: T) -> U {
    choose|score: U| call_ensures(sort_by, (&fruit,), score)
}

/// Whether the first entry comes before the second: it has the higher rank,
/// or the same rank and the lower key.
pub open spec fn outranks<K: FastNumber, T, U: FastNumber, F: Fn(&T) -> U>(
    sort_by: F,
    first: (K, T),
    second: (K, T),
) -> bool {
    let a = score_of(sort_by, first.1).num();
    let b = score_of(sort_by, second.1).num();
    a > b || (a == b && first.0.num() < second.0.num())
}

/// The projection accepts every fruit and ranks the same fruit alike whenever
/// it is asked.
pub open spec fn ranks_steadily<T, U, F: Fn(&T) -> U>(sort_by: F) -> bool {
    &&& forall|fruit: T| call_requires(sort_by, (&fruit,))
    &&& forall|fruit: T, x: U, y: U|
        call_ensures(sort_by, (&fruit,), x) && call_ensures(sort_by, (&fruit,), y) ==> x == y
}

impl<K: FastNumber, T> TermsAggResult<K, T> {
    /// A result without keys.
    pub fn new() -> (r: Self)
        ensures
            r@ == Map::<K, T>::empty(),
    {
        TermsAggResult { res: HashMap::new() }
    }

    /// The fruit of a key, if the key was seen.
    pub fn get(&self, key: &K) -> (r: Option<&T>)
        ensures
            match r {
                Some(fruit) => self@.contains_key(*key) && *fruit == self@[*key],
                None => !self@.contains_key(*key),
            },
    {
        proof {
            K::law_num(*key, *key);
        }
        self.res.get(key)
    }

    /// The number of keys.
    pub fn len(&self) -> (n: usize)
        ensures
            n == self@.dom().len(),
            self@.dom().finite(),
    {
        proof {
            K::law_num(arbitrary(), arbitrary());
        }
        self.res.len()
    }

    /// The keys, each once, in no particular order.
    pub fn keys(&self) -> (keys: Vec<K>)
        ensures
            keys@.no_duplicates(),
            forall|k: K| keys@.contains(k) <==> self@.contains_key(k),
            keys@.len() == self@.dom().len(),
    {
        keys_of(&self.res)
    }

    /// The `k` entries that the projection ranks highest, from the highest
    /// rank down. Entries of the same rank come in the order of their keys.
    /// A rank is a number of one of the kinds that the columns hold.
    #[verifier::rlimit(60)]
    pub fn top_k<'a, U: FastNumber, F: Fn(&T) -> U>(&'a self, k: usize, sort_by: F) -> (top: Vec<
        (&'a K, &'a T),
    >)
        requires
            ranks_steadily(sort_by),
        ensures
            top@.len() == if k <= self@.dom().len() {
                k as nat
            } else {
                self@.dom().len()
            },
            forall|i: int|
                0 <= i < top@.len() ==> self@.contains_key(*(#[trigger] top@[i]).0) && self@[*top@[i].0]
                    == *top@[i].1,
            ranked(sort_by, top@),
            forall|key: K| #[trigger]
                self@.contains_key(key) ==> listed(top@, key) || all_outrank(
                    sort_by,
                    top@,
                    (key, self@[key]),
                ),
            forall|key: K| #[trigger]
                self@.contains_key(key) ==> call_ensures(
                    sort_by,
                    (&self@[key],),
                    score_of(sort_by, self@[key]),
                ),
    {
        let entries = entries_of(&self.res);
        let mut top: Vec<(&'a K, &'a T)> = Vec::new();
        let mut scores: Vec<U> = Vec::new();
        let mut e: usize = 0;
        while e < entries.len()
            invariant
                ranks_steadily(sort_by),
                e <= entries.len(),
                entries@.len() == self@.dom().len(),
                forall|i: int|
                    0 <= i < entries@.len() ==> self@.contains_key(*(#[trigger] entries@[i]).0)
                        && self@[*entries@[i].0] == *entries@[i].1,
                forall|i: int, j: int|
                    0 <= i < entries@.len() && 0 <= j < entries@.len() && i != j ==> *(
                    #[trigger] entries@[i]).0 != *(#[trigger] entries@[j]).0,
                scores@.len() == top@.len(),
                top@.len() == if k <= e {
                    k
                } else {
                    e
                },
                forall|i: int|
                    0 <= i < top@.len() ==> {
                        let b = #[trigger] top@[i];
                        &&& self@.contains_key(*b.0)
                        &&& self@[*b.0] == *b.1
                        &&& scores@[i] == score_of(sort_by, *b.1)
                        &&& listed(entries@.take(e as int), *b.0)
                    },
                ranked(sort_by, top@),
                forall|m: int|
                    0 <= m < e ==> listed(top@, *(#[trigger] entries@[m]).0) || (top@.len() == k
                        && all_outrank(sort_by, top@, (*entries@[m].0, *entries@[m].1))),
                forall|m: int|
                    0 <= m < e ==> call_ensures(
                        sort_by,
                        ((#[trigger] entries@[m]).1,),
                        score_of(sort_by, *entries@[m].1),
                    ),
            decreases entries.len() - e,
        {
            let (key, fruit) = entries[e];
            let score = sort_by(fruit);
            assert(score == score_of(sort_by, *fruit));
            let mut p: usize = 0;
            while p < top.len() && (score.is_below(scores[p]) || (!scores[p].is_below(score)
                && top[p].0.is_below(*key)))
                invariant
                    p <= top.len(),
                    scores@.len() == top@.len(),
                    score == score_of(sort_by, *fruit),
                    forall|i: int|
                        0 <= i < top@.len() ==> scores@[i] == score_of(sort_by, *(#[trigger] top@[i]).1),
                    forall|i: int|
                        0 <= i < p ==> outranks(
                            sort_by,
                            (*(#[trigger] top@[i]).0, *top@[i].1),
                            (*key, *fruit),
                        ),
                decreases top.len() - p,
            {
                p += 1;
            }
            let ghost was = top@;
            let ghost seen = entries@.take(e as int);
            let ghost seen_next = entries@.take(e + 1);
            proof {
                assert forall|i: int| 0 <= i < was.len() implies *(#[trigger] was[i]).0 != *key by {
                    let m = choose|m: int| 0 <= m < seen.len() && *(#[trigger] seen[m]).0 == *was[i].0;
                    assert(*entries@[m].0 != *entries@[e as int].0);
                }
                if p < was.len() {
                    K::law_num(*was[p as int].0, *key);
                    assert(outranks(
                        sort_by,
                        (*key, *fruit),
                        (*was[p as int].0, *was[p as int].1),
                    ));
                }
                assert forall|key: K| listed(seen, key) implies listed(seen_next, key) by {
                    let m = choose|m: int| 0 <= m < seen.len() && *(#[trigger] seen[m]).0 == key;
                    assert(*seen_next[m].0 == key);
                }
                assert(*seen_next[e as int].0 == *key);
            }
            if p < k {
                top.insert(p, (key, fruit));
                scores.insert(p, score);
                let ghost grown = top@;
                proof {
                    assert forall|i: int| 0 <= i < was.len() implies #[trigger] was[i] == grown[if i
                        < p {
                        i
                    } else {
                        i + 1
                    }] by {}
                    assert forall|i: int, j: int| 0 <= i < j < grown.len() implies outranks(
                        sort_by,
                        (*(#[trigger] grown[i]).0, *grown[i].1),
                        (*(#[trigger] grown[j]).0, *grown[j].1),
                    ) by {
                        let oi = if i < p {
                            i
                        } else {
                            i - 1
                        };
                        let oj = if j < p {
                            j
                        } else {
                            j - 1
                        };
                        if i != p {
                            assert(grown[i] == was[oi]);
                        }
                        if j != p {
                            assert(grown[j] == was[oj]);
                        }
                        if i == p && oj > p {
                            assert(outranks(
                                sort_by,
                                (*was[p as int].0, *was[p as int].1),
                                (*was[oj].0, *was[oj].1),
                            ));
                        }
                    }
                    assert forall|m: int| 0 <= m < e + 1 implies listed(
                        grown,
                        *(#[trigger] entries@[m]).0,
                    ) || (was.len() == k && all_outrank(
                        sort_by,
                        grown,
                        (*entries@[m].0, *entries@[m].1),
                    )) by {
                        if m == e {
                            assert(*grown[p as int].0 == *entries@[m].0);
                        } else if listed(was, *entries@[m].0) {
                            let i = choose|i: int| 0 <= i < was.len() && *(#[trigger] was[i]).0 == *entries@[m].0;
                            let j = if i < p {
                                i
                            } else {
                                i + 1
                            };
                            assert(grown[j] == was[i]);
                        } else {
                            assert forall|j: int| 0 <= j < grown.len() implies outranks(
                                sort_by,
                                (*(#[trigger] grown[j]).0, *grown[j].1),
                                (*entries@[m].0, *entries@[m].1),
                            ) by {
                                if j < p {
                                    assert(grown[j] == was[j]);
                                } else if j > p {
                                    assert(grown[j] == was[j - 1]);
                                } else {
                                    assert(outranks(
                                        sort_by,
                                        (*was[p as int].0, *was[p as int].1),
                                        (*entries@[m].0, *entries@[m].1),
                                    ));
                                }
                            }
                        }
                    }
                }
                if top.len() > k {
                    top.pop();
                    scores.pop();
                    proof {
                        let kept = top@;
                        let dropped = grown[k as int];
                        assert forall|i: int| 0 <= i < kept.len() implies #[trigger] kept[i] == grown[i] by {}
                        assert forall|m: int| 0 <= m < e + 1 implies listed(
                            kept,
                            *(#[trigger] entries@[m]).0,
                        ) || (kept.len() == k && all_outrank(
                            sort_by,
                            kept,
                            (*entries@[m].0, *entries@[m].1),
                        )) by {
                            if listed(grown, *entries@[m].0) {
                                let j = choose|j: int| 0 <= j < grown.len() && *(#[trigger] grown[j]).0 == *entries@[m].0;
                                if j < k {
                                    assert(*kept[j].0 == *entries@[m].0);
                                } else {
                                    assert(grown[j] == dropped);
                                    assert(*entries@[m].1 == *dropped.1);
                                    assert forall|i: int| 0 <= i < kept.len() implies outranks(
                                        sort_by,
                                        (*(#[trigger] kept[i]).0, *kept[i].1),
                                        (*entries@[m].0, *entries@[m].1),
                                    ) by {
                                        assert(kept[i] == grown[i]);
                                    }
                                }
                            } else {
                                assert forall|i: int| 0 <= i < kept.len() implies outranks(
                                    sort_by,
                                    (*(#[trigger] kept[i]).0, *kept[i].1),
                                    (*entries@[m].0, *entries@[m].1),
                                ) by {
                                    assert(kept[i] == grown[i]);
                                }
                            }
                        }
                    }
                }
                proof {
                    let kept = top@;
                    assert forall|i: int| 0 <= i < kept.len() implies {
                        let b = #[trigger] kept[i];
                        &&& self@.contains_key(*b.0)
                        &&& self@[*b.0] == *b.1
                        &&& scores@[i] == score_of(sort_by, *b.1)
                        &&& listed(seen_next, *b.0)
                    } by {
                        assert(kept[i] == grown[i]);
                        if i < p {
                            assert(grown[i] == was[i]);
                        } else if i > p {
                            assert(grown[i] == was[i - 1]);
                        }
                    }
                    assert forall|i: int, j: int| 0 <= i < j < kept.len() implies outranks(
                        sort_by,
                        (*(#[trigger] kept[i]).0, *kept[i].1),
                        (*(#[trigger] kept[j]).0, *kept[j].1),
                    ) by {
                        assert(kept[i] == grown[i] && kept[j] == grown[j]);
                    }
                }
            } else {
                proof {
                    assert forall|i: int| 0 <= i < was.len() implies listed(
                        seen_next,
                        *(#[trigger] was[i]).0,
                    ) by {}
                }
            }
            e += 1;
        }
        proof {
            assert forall|key: K| #[trigger] self@.contains_key(key) implies (listed(top@, key)
                || all_outrank(sort_by, top@, (key, self@[key]))) && call_ensures(
                sort_by,
                (&self@[key],),
                score_of(sort_by, self@[key]),
            ) by {
                K::law_num(key, key);
                let m = choose|m: int| 0 <= m < entries@.len() && *(#[trigger] entries@[m]).0 == key;
                assert(self@[*entries@[m].0] == *entries@[m].1);
            }
        }
        top
    }
}

/// Whether an entry with the key is in the list.
pub open spec fn listed<K, T>(top: Seq<(&K, &T)>, key: K) -> bool {
    exists|j: int| 0 <= j < top.len() && *(#[trigger] top[j]).0 == key
}

/// Whether every entry of the list comes before the given entry.
pub open spec fn all_outrank<K: FastNumber, T, U: FastNumber, F: Fn(&T) -> U>(
    sort_by: F,
    top: Seq<(&K, &T)>,
    entry: (K, T),
) -> bool {
    forall|i: int|
        0 <= i < top.len() ==> outranks(sort_by, (*(#[trigger] top[i]).0, *top[i].1), entry)
}

/// Whether each entry of the list comes before those that follow it.
pub open spec fn ranked<K: FastNumber, T, U: FastNumber, F: Fn(&T) -> U>(
    sort_by: F,
    top: Seq<(&K, &T)>,
) -> bool {
    forall|i: int, j: int|
        0 <= i < j < top.len() ==> outranks(
            sort_by,
            (*(#[trigger] top[i]).0, *top[i].1),
            (*(#[trigger] top[j]).0, *top[j].1),
        )
}

/// Groups the documents by the values that they hold in the column of a
/// field. Only the values that pass the filter become keys.
pub struct TermsAgg<C, P, SubAgg> {
    field: tantivy::schema::Field,
    filter: P,
    sub_agg: SubAgg,
    column: PhantomData<C>,
}

/// The terms aggregation, bound to a searcher.
pub struct PreparedTermsAgg<C, P, SubAgg> {
    field: tantivy::schema::Field,
    filter: P,
    sub_agg: SubAgg,
    column: PhantomData<C>,
}

/// The terms aggregation on one segment. It keeps a buffer for the values of
/// the document at hand.
pub struct TermsSegmentAgg<C: FastColumn, P, SubAgg> {
    column: C,
    filter: P,
    sub_agg: SubAgg,
    vals: Vec<C::Value>,
}

impl<C: FastColumn, P: ValueFilter<C::Value>, SubAgg: Agg> TermsAgg<C, P, SubAgg> {
    pub closed spec fn field(&self) -> tantivy::schema::Field {
        self.field
    }

    pub closed spec fn filter(&self) -> P {
        self.filter
    }

    pub closed spec fn sub_agg(&self) -> SubAgg {
        self.sub_agg
    }

    /// The aggregation that groups by the keys of the field that pass the
    /// filter.
    pub fn new(field: tantivy::schema::Field, filter: P, sub_agg: SubAgg) -> (agg: Self)
        ensures
            agg.field() == field,
            agg.filter() == filter,
            agg.sub_agg() == sub_agg,
    {
        TermsAgg { field, filter, sub_agg, column: PhantomData }
    }
}

impl<C: FastColumn, P: ValueFilter<C::Value>, SubAgg: PreparedAgg> PreparedTermsAgg<C, P, SubAgg> {
    pub closed spec fn field(&self) -> tantivy::schema::Field {
        self.field
    }

    pub closed spec fn filter(&self) -> P {
        self.filter
    }

    pub closed spec fn sub_agg(&self) -> SubAgg {
        self.sub_agg
    }
}

impl<C: FastColumn, P: ValueFilter<C::Value>, SubAgg: SegmentAgg> TermsSegmentAgg<C, P, SubAgg> {
    pub closed spec fn rows(&self) -> Seq<Seq<C::Value>> {
        self.column.rows()
    }

    pub closed spec fn filter(&self) -> P {
        self.filter
    }

    pub closed spec fn sub_agg(&self) -> SubAgg {
        self.sub_agg
    }
}

impl<C: FastColumn, P: ValueFilter<C::Value>, SubAgg: Agg> Agg for TermsAgg<C, P, SubAgg> {
    type Fruit = TermsAggResult<C::Value, SubAgg::Fruit>;

    type Child = PreparedTermsAgg<C, P, SubAgg::Child>;

    open spec fn leaf_scoring(&self) -> Seq<bool> {
        self.sub_agg().leaf_scoring()
    }

    open spec fn inv(&self) -> bool {
        self.filter().inv() && self.sub_agg().inv()
    }

    open spec fn steady(&self) -> bool {
        self.sub_agg().steady()
    }

    open spec fn runs_on(&self, searcher: tantivy::Searcher) -> bool {
        self.sub_agg().runs_on(searcher)
    }

    open spec fn prepare_error(&self, searcher: tantivy::Searcher) -> Option<AggError> {
        self.sub_agg().prepare_error(searcher)
    }

    open spec fn prepared_by(&self, searcher: tantivy::Searcher, prepared: Self::Child) -> bool {
        self.sub_agg().prepared_by(searcher, prepared.sub_agg())
    }

    open spec fn prepares(&self, prepared: Self::Child) -> bool {
        &&& prepared.field() == self.field()
        &&& prepared.filter() == self.filter()
        &&& self.sub_agg().prepares(prepared.sub_agg())
    }

    fn prepare(&self, searcher: &tantivy::Searcher) -> (r: Result<Self::Child, AggError>) {
        match self.sub_agg.prepare(searcher) {
            Ok(sub_agg) => Ok(
                PreparedTermsAgg {
                    field: self.field,
                    filter: self.filter,
                    sub_agg,
                    column: PhantomData,
                },
            ),
            Err(e) => Err(e),
        }
    }

    fn requires_scoring(&self) -> (scoring: bool) {
        self.sub_agg.requires_scoring()
    }
}

impl<C: FastColumn, P: ValueFilter<C::Value>, SubAgg: PreparedAgg> PreparedAgg for PreparedTermsAgg<
    C,
    P,
    SubAgg,
> {
    type Fruit = TermsAggResult<C::Value, SubAgg::Fruit>;

    type Child = TermsSegmentAgg<C, P, SubAgg::Child>;

    open spec fn inv(&self) -> bool {
        self.filter().inv() && self.sub_agg().inv()
    }

    open spec fn fruit_ok(&self, fruit: ModelOf<Self::Fruit>) -> bool {
        buckets_ok(|f: ModelOf<SubAgg::Fruit>| self.sub_agg().fruit_ok(f), fruit)
    }

    open spec fn empty(&self) -> ModelOf<Self::Fruit> {
        Map::empty()
    }

    open spec fn merged(
        &self,
        a: ModelOf<Self::Fruit>,
        b: ModelOf<Self::Fruit>,
    ) -> ModelOf<Self::Fruit> {
        buckets_merged(
            |x: ModelOf<SubAgg::Fruit>, y: ModelOf<SubAgg::Fruit>|
                self.sub_agg().merged(x, y),
            a,
            b,
        )
    }

    open spec fn fits(
        &self,
        a: ModelOf<Self::Fruit>,
        b: ModelOf<Self::Fruit>,
    ) -> bool {
        buckets_fit(
            |x: ModelOf<SubAgg::Fruit>, y: ModelOf<SubAgg::Fruit>|
                self.sub_agg().fits(x, y),
            a,
            b,
        )
    }

    open spec fn spawns(
        &self,
        meaning: (Seq<Seq<C::Value>>, Set<C::Value>, <SubAgg::Child as SegmentAgg>::Meaning),
    ) -> bool {
        &&& meaning.1 == Set::new(|k: C::Value| self.filter().keeps(k))
        &&& self.sub_agg().spawns(meaning.2)
    }

    open spec fn runs_on(&self, reader: tantivy::SegmentReader) -> bool {
        self.sub_agg().runs_on(reader)
    }

    open spec fn meaning_on(&self, ctx: AggSegmentContext) -> Result<
        <Self::Child as SegmentAgg>::Meaning,
        AggError,
    > {
        match C::stored(*ctx.reader, self.field()) {
            Some(rows) => match self.sub_agg().meaning_on(ctx) {
                Ok(meaning) => Ok((rows, Set::new(|k: C::Value| self.filter().keeps(k)), meaning)),
                Err(e) => Err(e),
            },
            None => Err(AggError::FastFieldNotAvailable(self.field())),
        }
    }

    open spec fn steady(&self) -> bool {
        self.sub_agg().steady()
    }

    fn create_fruit(&self) -> (fruit: Self::Fruit) {
        let fruit = TermsAggResult::new();
        assert(fruit.model() =~= self.empty());
        fruit
    }

    fn for_segment(&self, ctx: &AggSegmentContext) -> (r: Result<Self::Child, AggError>)
        ensures
            C::stored(*ctx.reader, self.field()) is None ==> (r matches Err(e) && e
                == AggError::FastFieldNotAvailable(self.field())),
    {
        let column = match C::open(ctx.reader, self.field) {
            Some(column) => column,
            None => {
                return Err(AggError::FastFieldNotAvailable(self.field));
            },
        };
        match self.sub_agg.for_segment(ctx) {
            Ok(sub_agg) => Ok(
                TermsSegmentAgg { column, filter: self.filter, sub_agg, vals: Vec::new() },
            ),
            Err(e) => Err(e),
        }
    }

    fn merge(&self, acc: &mut Self::Fruit, fruit: Self::Fruit) {
        merge_buckets(&self.sub_agg, &mut acc.res, fruit.res);
    }

    proof fn law_identity(&self, a: ModelOf<Self::Fruit>) {
        assert(self.merged(self.empty(), a) =~= a);
        assert(self.merged(a, self.empty()) =~= a);
    }

    proof fn law_commutative(
        &self,
        a: ModelOf<Self::Fruit>,
        b: ModelOf<Self::Fruit>,
    ) {
        assert forall|k: C::Value| a.contains_key(k) && b.contains_key(k) implies {
            &&& self.sub_agg().merged(a[k], b[k]) == self.sub_agg().merged(b[k], a[k])
            &&& self.sub_agg().fruit_ok(self.sub_agg().merged(a[k], b[k]))
            &&& self.sub_agg().fits(a[k], b[k]) == self.sub_agg().fits(b[k], a[k])
        } by {
            self.sub_agg().law_commutative(a[k], b[k]);
        }
        assert(self.merged(a, b) =~= self.merged(b, a));
        assert(self.merged(a, b).dom() =~= a.dom().union(b.dom()));
    }

    proof fn law_associative(
        &self,
        a: ModelOf<Self::Fruit>,
        b: ModelOf<Self::Fruit>,
        c: ModelOf<Self::Fruit>,
    ) {
        assert forall|k: C::Value| a.contains_key(k) && b.contains_key(k) && c.contains_key(k) implies {
            &&& self.sub_agg().merged(self.sub_agg().merged(a[k], b[k]), c[k])
                == self.sub_agg().merged(a[k], self.sub_agg().merged(b[k], c[k]))
            &&& self.sub_agg().fits(a[k], self.sub_agg().merged(b[k], c[k]))
        } by {
            assert(self.merged(a, b).contains_key(k));
            assert(self.merged(a, b)[k] == self.sub_agg().merged(a[k], b[k]));
            self.sub_agg().law_associative(a[k], b[k], c[k]);
        }
        assert(self.merged(self.merged(a, b), c) =~= self.merged(a, self.merged(b, c)));
        assert forall|k: C::Value| #[trigger]
            a.contains_key(k) && self.merged(b, c).contains_key(k) implies self.sub_agg().fits(
            a[k],
            self.merged(b, c)[k],
        ) by {
            if b.contains_key(k) && c.contains_key(k) {
            } else if b.contains_key(k) {
            } else {
                assert(self.merged(a, b).contains_key(k));
                assert(c.contains_key(k));
            }
        }
    }

    proof fn law_child(
        &self,
        meaning: (Seq<Seq<C::Value>>, Set<C::Value>, <SubAgg::Child as SegmentAgg>::Meaning),
    ) {
        self.sub_agg().law_child(meaning.2);
        let child_merge = |x: ModelOf<SubAgg::Fruit>, y: ModelOf<SubAgg::Fruit>|
            SubAgg::Child::merged(meaning.2, x, y);
        let merge = |x: ModelOf<SubAgg::Fruit>, y: ModelOf<SubAgg::Fruit>|
            self.sub_agg().merged(x, y);
        assert forall|a: ModelOf<Self::Fruit>, b: ModelOf<Self::Fruit>|
            #[trigger] Self::Child::merged(meaning, a, b) == self.merged(a, b) by {
            lemma_buckets_merged_alike(child_merge, merge, a, b);
        }
        assert forall|doc: DocId, score: ScoreBits, i: int|
            0 <= i < Self::Child::contributions(meaning, doc, score).len() implies self.fruit_ok(
            #[trigger] Self::Child::contributions(meaning, doc, score)[i],
        ) by {
            if doc < meaning.0.len() {
                self.sub_agg().law_identity(self.sub_agg().empty());
                assert(self.sub_agg().fruit_ok(SubAgg::Child::empty(meaning.2)));
                assert forall|j: int|
                    0 <= j < SubAgg::Child::contributions(meaning.2, doc, score).len() implies self.sub_agg().fruit_ok(
                    #[trigger] SubAgg::Child::contributions(meaning.2, doc, score)[j],
                ) by {}
                lemma_row_deltas_ok(
                    |f: ModelOf<SubAgg::Fruit>| self.sub_agg().fruit_ok(f),
                    meaning.0[doc as int],
                    meaning.1,
                    SubAgg::Child::empty(meaning.2),
                    SubAgg::Child::contributions(meaning.2, doc, score),
                );
            }
        }
    }
}

impl<C: FastColumn, P: ValueFilter<C::Value>, SubAgg: SegmentAgg> SegmentAgg for TermsSegmentAgg<
    C,
    P,
    SubAgg,
> {
    type Fruit = TermsAggResult<C::Value, SubAgg::Fruit>;

    type Meaning = (Seq<Seq<C::Value>>, Set<C::Value>, SubAgg::Meaning);

    open spec fn meaning(&self) -> Self::Meaning {
        (self.rows(), Set::new(|k: C::Value| self.filter().keeps(k)), self.sub_agg().meaning())
    }

    open spec fn inv(&self) -> bool {
        self.filter().inv() && self.sub_agg().inv()
    }

    open spec fn frontier(&self) -> nat {
        self.sub_agg().frontier()
    }

    open spec fn doc_limit(meaning: Self::Meaning) -> nat {
        if meaning.0.len() <= SubAgg::doc_limit(meaning.2) {
            meaning.0.len()
        } else {
            SubAgg::doc_limit(meaning.2)
        }
    }

    open spec fn fruit_ok(
        meaning: Self::Meaning,
        fruit: ModelOf<Self::Fruit>,
    ) -> bool {
        buckets_ok(|f: ModelOf<SubAgg::Fruit>| SubAgg::fruit_ok(meaning.2, f), fruit)
    }

    open spec fn empty(meaning: Self::Meaning) -> ModelOf<Self::Fruit> {
        Map::empty()
    }

    open spec fn merged(
        meaning: Self::Meaning,
        a: ModelOf<Self::Fruit>,
        b: ModelOf<Self::Fruit>,
    ) -> ModelOf<Self::Fruit> {
        buckets_merged(
            |x: ModelOf<SubAgg::Fruit>, y: ModelOf<SubAgg::Fruit>|
                SubAgg::merged(meaning.2, x, y),
            a,
            b,
        )
    }

    open spec fn contributions(meaning: Self::Meaning, doc: DocId, score: ScoreBits) -> Seq<
        ModelOf<Self::Fruit>,
    > {
        if doc < meaning.0.len() {
            row_deltas(
                meaning.0[doc as int],
                meaning.1,
                SubAgg::empty(meaning.2),
                SubAgg::contributions(meaning.2, doc, score),
            )
        } else {
            Seq::empty()
        }
    }

    fn create_fruit(&self) -> (fruit: Self::Fruit) {
        let fruit = TermsAggResult::new();
        assert(fruit.model() =~= Self::empty(self.meaning()));
        fruit
    }

    proof fn law_empty(
        meaning: Self::Meaning,
        a: ModelOf<Self::Fruit>,
    ) {
        assert(Self::merged(meaning, a, Self::empty(meaning)) =~= a);
    }

    fn collect(&mut self, doc: DocId, score: ScoreBits, output: &mut Self::Fruit) {
        let ghost meaning = self.meaning();
        let ghost sub_meaning = meaning.2;
        let ghost kept = meaning.1;
        let ghost row = meaning.0[doc as int];
        let ghost start = output.model();
        let ghost empty = SubAgg::empty(sub_meaning);
        let ghost deltas = SubAgg::contributions(sub_meaning, doc, score);
        let ghost merge = |x: ModelOf<SubAgg::Fruit>, y: ModelOf<SubAgg::Fruit>|
            SubAgg::merged(sub_meaning, x, y);
        let ghost merge_maps = |x: ModelOf<Self::Fruit>, y: ModelOf<Self::Fruit>|
            buckets_merged(merge, x, y);
        self.column.read(doc, &mut self.vals);
        let mut i: usize = 0;
        proof {
            assert(row.take(0) =~= Seq::empty());
            lemma_folded_one(merge_maps, start, start);
        }
        while i < self.vals.len()
            invariant
                i <= self.vals.len(),
                self.vals@ == row,
                self.inv(),
                self.meaning() == meaning,
                sub_meaning == meaning.2,
                kept == meaning.1,
                kept == Set::new(|k: C::Value| self.filter().keeps(k)),
                self.sub_agg().frontier() <= doc < SubAgg::doc_limit(sub_meaning),
                empty == SubAgg::empty(sub_meaning),
                deltas == SubAgg::contributions(sub_meaning, doc, score),
                merge == |x: ModelOf<SubAgg::Fruit>, y: ModelOf<SubAgg::Fruit>|
                    SubAgg::merged(sub_meaning, x, y),
                merge_maps == |x: ModelOf<Self::Fruit>, y: ModelOf<Self::Fruit>|
                    buckets_merged(merge, x, y),
                Self::fruit_ok(meaning, output.model()),
                output.model() == folded(
                    merge_maps,
                    start,
                    row_deltas(row.take(i as int), kept, empty, deltas),
                ),
            decreases self.vals.len() - i,
        {
            let key = self.vals[i];
            proof {
                assert(row.take(i + 1).drop_last() =~= row.take(i as int));
                assert(row.take(i + 1).last() == key);
            }
            if self.filter.accept(key) {
                collect_bucket(&mut self.sub_agg, &mut output.res, key, doc, score);
                proof {
                    lemma_folded_parts(
                        merge_maps,
                        start,
                        row_deltas(row.take(i as int), kept, empty, deltas),
                        bucket_deltas(key, empty, deltas),
                    );
                }
            }
            i += 1;
        }
        proof {
            assert(row.take(i as int) =~= row);
            lemma_folded_alike(
                merge_maps,
                |a: ModelOf<Self::Fruit>, b: ModelOf<Self::Fruit>|
                    Self::merged(meaning, a, b),
                start,
                row_deltas(row, kept, empty, deltas),
            );
        }
    }
}

/// What a document adds to the buckets are maps of one fruit that passes the
/// test, if the empty fruit and each fruit that the document adds to a bucket
/// pass it.
pub proof fn lemma_row_deltas_ok<K, M>(
    ok: spec_fn(M) -> bool,
    row: Seq<K>,
    kept: Set<K>,
    empty: M,
    deltas: Seq<M>,
)
    requires
        ok(empty),
        forall|i: int| 0 <= i < deltas.len() ==> ok(#[trigger] deltas[i]),
    ensures
        forall|i: int|
            0 <= i < row_deltas(row, kept, empty, deltas).len() ==> buckets_ok(
                ok,
                #[trigger] row_deltas(row, kept, empty, deltas)[i],
            ),
    decreases row.len(),
{
    if row.len() > 0 {
        lemma_row_deltas_ok(ok, row.drop_last(), kept, empty, deltas);
        let front = row_deltas(row.drop_last(), kept, empty, deltas);
        let last = bucket_deltas(row.last(), empty, deltas);
        assert forall|i: int| 0 <= i < last.len() implies buckets_ok(ok, #[trigger] last[i]) by {
            if i == 0 {
                assert(last[i] == map![row.last() => empty]);
            } else {
                assert(last[i] == map![row.last() => deltas[i - 1]]);
            }
        }
        assert forall|i: int| 0 <= i < (front + last).len() implies buckets_ok(
            ok,
            #[trigger] (front + last)[i],
        ) by {
            if i >= front.len() {
                assert((front + last)[i] == last[i - front.len()]);
            }
        }
    }
}

/// Groups by the values of the field's single-valued `u64` column.
pub fn terms_agg_u64<SubAgg: Agg>(field: tantivy::schema::Field, sub_agg: SubAgg) -> (agg: TermsAgg<
    U64Column,
    AllValues,
    SubAgg,
>)
    ensures
        agg.field() == field,
        agg.sub_agg() == sub_agg,
{
    TermsAgg::new(field, AllValues, sub_agg)
}

/// Groups by the values of the field's single-valued `u64` column that pass
/// the filter.
pub fn filtered_terms_agg_u64<F: Fn(u64) -> bool + Copy, SubAgg: Agg>(
    field: tantivy::schema::Field,
    sub_agg: SubAgg,
    filter: F,
) -> (agg: TermsAgg<U64Column, Predicate<F>, SubAgg>)
    ensures
        agg.field() == field,
        agg.sub_agg() == sub_agg,
        agg.filter() == (Predicate { test: filter }),
{
    TermsAgg::new(field, Predicate { test: filter }, sub_agg)
}

/// Groups by the values of the field's single-valued `i64` column.
pub fn terms_agg_i64<SubAgg: Agg>(field: tantivy::schema::Field, sub_agg: SubAgg) -> (agg: TermsAgg<
    I64Column,
    AllValues,
    SubAgg,
>)
    ensures
        agg.field() == field,
        agg.sub_agg() == sub_agg,
{
    TermsAgg::new(field, AllValues, sub_agg)
}

/// Groups by the values of the field's single-valued `i64` column that pass
/// the filter.
pub fn filtered_terms_agg_i64<F: Fn(i64) -> bool + Copy, SubAgg: Agg>(
    field: tantivy::schema::Field,
    sub_agg: SubAgg,
    filter: F,
) -> (agg: TermsAgg<I64Column, Predicate<F>, SubAgg>)
    ensures
        agg.field() == field,
        agg.sub_agg() == sub_agg,
        agg.filter() == (Predicate { test: filter }),
{
    TermsAgg::new(field, Predicate { test: filter }, sub_agg)
}

/// Groups by the values of the field's multi-valued `u64` column.
pub fn terms_agg_u64s<SubAgg: Agg>(field: tantivy::schema::Field, sub_agg: SubAgg) -> (agg: TermsAgg<
    U64sColumn,
    AllValues,
    SubAgg,
>)
    ensures
        agg.field() == field,
        agg.sub_agg() == sub_agg,
{
    TermsAgg::new(field, AllValues, sub_agg)
}

/// Groups by the values of the field's multi-valued `u64` column that pass
/// the filter.
pub fn filtered_terms_agg_u64s<F: Fn(u64) -> bool + Copy, SubAgg: Agg>(
    field: tantivy::schema::Field,
    sub_agg: SubAgg,
    filter: F,
) -> (agg: TermsAgg<U64sColumn, Predicate<F>, SubAgg>)
    ensures
        agg.field() == field,
        agg.sub_agg() == sub_agg,
        agg.filter() == (Predicate { test: filter }),
{
    TermsAgg::new(field, Predicate { test: filter }, sub_agg)
}

/// Groups by the values of the field's multi-valued `i64` column.
pub fn terms_agg_i64s<SubAgg: Agg>(field: tantivy::schema::Field, sub_agg: SubAgg) -> (agg: TermsAgg<
    I64sColumn,
    AllValues,
    SubAgg,
>)
    ensures
        agg.field() == field,
        agg.sub_agg() == sub_agg,
{
    TermsAgg::new(field, AllValues, sub_agg)
}

/// Groups by the values of the field's multi-valued `i64` column that pass
/// the filter.
pub fn filtered_terms_agg_i64s<F: Fn(i64) -> bool + Copy, SubAgg: Agg>(
    field: tantivy::schema::Field,
    sub_agg: SubAgg,
    filter: F,
) -> (agg: TermsAgg<I64sColumn, Predicate<F>, SubAgg>)
    ensures
        agg.field() == field,
        agg.sub_agg() == sub_agg,
        agg.filter() == (Predicate { test: filter }),
{
    TermsAgg::new(field, Predicate { test: filter }, sub_agg)
}

} // verus!

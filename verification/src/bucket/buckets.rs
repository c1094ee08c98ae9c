//! Keyed fruits: a map from a key to the fruit of the documents that share
//! the key. Merging two maps merges the fruits of the keys that both hold.

use vstd::prelude::*;
use vstd::std_specs::iter::IteratorSpec;
use std::collections::HashMap;
use crate::agg::{folded, FruitModel, ModelOf, PreparedAgg, SegmentAgg};
use crate::column::FastNumber;
use crate::index::{DocId, ScoreBits};

verus! {

broadcast use vstd::std_specs::hash::group_hash_axioms;

/// The merge of two maps of fruits, key by key.
pub open spec fn buckets_merged<K, M>(merge: spec_fn(M, M) -> M, a: Map<K, M>, b: Map<K, M>) -> Map<
    K,
    M,
> {
    Map::new(
        |k: K| a.contains_key(k) || b.contains_key(k),
        |k: K|
            if a.contains_key(k) && b.contains_key(k) {
                merge(a[k], b[k])
            } else if a.contains_key(k) {
                a[k]
            } else {
                b[k]
            },
    )
}

/// A finite map whose fruits all pass the test.
pub open spec fn buckets_ok<K, M>(ok: spec_fn(M) -> bool, a: Map<K, M>) -> bool {
    &&& a.dom().finite()
    &&& forall|k: K| a.contains_key(k) ==> ok(#[trigger] a[k])
}

/// Whether the fruits of the keys that both maps hold all pass the test.
pub open spec fn buckets_fit<K, M>(fits: spec_fn(M, M) -> bool, a: Map<K, M>, b: Map<K, M>) -> bool {
    forall|k: K| #[trigger] a.contains_key(k) && b.contains_key(k) ==> fits(a[k], b[k])
}

/// What a document adds to the bucket of a key: the bucket itself, empty,
/// and then each of the fruits that the document adds to the bucket.
pub open spec fn bucket_deltas<K, M>(key: K, empty: M, deltas: Seq<M>) -> Seq<Map<K, M>> {
    seq![map![key => empty]] + Seq::new(deltas.len(), |i: int| map![key => deltas[i]])
}

/// What a document adds to the buckets of the keys that it holds and that
/// pass, key after key.
pub open spec fn row_deltas<K, M>(row: Seq<K>, kept: Set<K>, empty: M, deltas: Seq<M>) -> Seq<
    Map<K, M>,
>
    decreases row.len(),
{
    if row.len() == 0 {
        Seq::empty()
    } else if kept.contains(row.last()) {
        row_deltas(row.drop_last(), kept, empty, deltas) + bucket_deltas(row.last(), empty, deltas)
    } else {
        row_deltas(row.drop_last(), kept, empty, deltas)
    }
}

/// The fruit that a bucket holds, or the empty fruit where there is no bucket.
pub open spec fn bucket_of<K, M>(a: Map<K, M>, key: K, empty: M) -> M {
    if a.contains_key(key) {
        a[key]
    } else {
        empty
    }
}

/// Growing the bucket of a key by fruits is merging what the document adds
/// to that bucket into the map.
pub proof fn lemma_bucket_grows<K, M>(
    merge: spec_fn(M, M) -> M,
    a: Map<K, M>,
    key: K,
    empty: M,
    deltas: Seq<M>,
)
    requires
        a.contains_key(key) ==> merge(a[key], empty) == a[key],
    ensures
        folded(
            |x: Map<K, M>, y: Map<K, M>| buckets_merged(merge, x, y),
            a,
            bucket_deltas(key, empty, deltas),
        ) == a.insert(key, folded(merge, bucket_of(a, key, empty), deltas)),
    decreases deltas.len(),
{
    let merge_maps = |x: Map<K, M>, y: Map<K, M>| buckets_merged(merge, x, y);
    let all = bucket_deltas(key, empty, deltas);
    if deltas.len() == 0 {
        assert(all =~= seq![map![key => empty]]);
        assert(all.drop_last() =~= Seq::empty());
        assert(folded(merge_maps, a, Seq::empty()) == a);
        assert(all.last() == map![key => empty]);
        assert(buckets_merged(merge, a, map![key => empty]) =~= a.insert(
            key,
            bucket_of(a, key, empty),
        ));
    } else {
        let front = deltas.drop_last();
        lemma_bucket_grows(merge, a, key, empty, front);
        assert(all.drop_last() =~= bucket_deltas(key, empty, front));
        assert(all.last() == map![key => deltas.last()]);
        let grown = a.insert(key, folded(merge, bucket_of(a, key, empty), front));
        assert(buckets_merged(merge, grown, map![key => deltas.last()]) =~= a.insert(
            key,
            folded(merge, bucket_of(a, key, empty), deltas),
        ));
    }
}

/// Maps merge alike under merges that agree on all fruits.
pub proof fn lemma_buckets_merged_alike<K, M>(
    merge: spec_fn(M, M) -> M,
    other: spec_fn(M, M) -> M,
    a: Map<K, M>,
    b: Map<K, M>,
)
    requires
        forall|x: M, y: M| #[trigger] merge(x, y) == other(x, y),
    ensures
        buckets_merged(merge, a, b) == buckets_merged(other, a, b),
{
    assert(buckets_merged(merge, a, b) =~= buckets_merged(other, a, b));
}

/// The models of the fruits of a map.
pub open spec fn models_of<K, T: FruitModel>(fruits: Map<K, T>) -> Map<K, T::Model> {
    fruits.map_values(|fruit: T| fruit.model())
}

/// A map from keys to fruits, as a bucket aggregation keeps it.
pub trait BucketMap<K, T>: Sized {
    /// The fruit of each key that the map holds.
    spec fn held(&self) -> Map<K, T>;

    /// A map holds finitely many keys.
    proof fn law_finite(&self)
        ensures
            self.held().dom().finite(),
    ;

    /// A map without keys.
    fn fresh() -> (map: Self)
        ensures
            map.held() == Map::<K, T>::empty(),
    ;

    /// The fruit of a key, if the map holds the key.
    fn peek(&self, key: &K) -> (r: Option<&T>)
        ensures
            match r {
                Some(fruit) => self.held().contains_key(*key) && *fruit == self.held()[*key],
                None => !self.held().contains_key(*key),
            },
    ;

    /// Takes the fruit of a key out of the map, if the map holds the key.
    fn take(&mut self, key: K) -> (r: Option<T>)
        ensures
            final(self).held() == old(self).held().remove(key),
            match r {
                Some(fruit) => old(self).held().contains_key(key) && fruit == old(self).held()[key],
                None => !old(self).held().contains_key(key),
            },
    ;

    /// Puts the fruit of a key into the map, in place of the one that the map
    /// may hold.
    fn put(&mut self, key: K, fruit: T)
        ensures
            final(self).held() == old(self).held().insert(key, fruit),
    ;

    /// The keys, each once.
    fn key_list(&self) -> (keys: Vec<K>)
        ensures
            keys@.no_duplicates(),
            forall|k: K| keys@.contains(k) <==> self.held().contains_key(k),
            keys@.len() == self.held().dom().len(),
    ;
}

impl<K: FastNumber, T> BucketMap<K, T> for HashMap<K, T> {
    open spec fn held(&self) -> Map<K, T> {
        self@
    }

    proof fn law_finite(&self) {
    }

    fn fresh() -> (map: Self) {
        HashMap::new()
    }

    fn peek(&self, key: &K) -> (r: Option<&T>) {
        proof {
            K::law_num(*key, *key);
        }
        self.get(key)
    }

    fn take(&mut self, key: K) -> (r: Option<T>) {
        proof {
            K::law_num(key, key);
        }
        self.remove(&key)
    }

    fn put(&mut self, key: K, fruit: T) {
        proof {
            K::law_num(key, key);
        }
        self.insert(key, fruit);
    }

    fn key_list(&self) -> (keys: Vec<K>) {
        keys_of(self)
    }
}

/// The keys of a map, each once.
pub fn keys_of<K: FastNumber, T>(map: &HashMap<K, T>) -> (keys: Vec<K>)
    ensures
        keys@.no_duplicates(),
        forall|k: K| keys@.contains(k) <==> map@.contains_key(k),
        keys@.len() == map@.dom().len(),
{
    proof {
        K::law_num(arbitrary(), arbitrary());
    }
    let mut keys: Vec<K> = Vec::new();
    let ghost listed = vstd::std_specs::hash::spec_keys_iter(map).remaining();
    for key in it: map.keys()
        invariant
            it.seq() == listed,
            keys@ == listed.unref().take(it.index()),
    {
        keys.push(*key);
        assert(keys@ =~= listed.unref().take(it.index() + 1));
    }
    proof {
        let all = listed.unref();
        assert(keys@ =~= all);
        assert(all.to_set() == map@.dom());
        assert(all.no_duplicates()) by {
            assert forall|i: int, j: int|
                0 <= i < all.len() && 0 <= j < all.len() && i != j implies all[i] != all[j] by {
                assert(listed[i] != listed[j]);
            }
        }
        assert forall|k: K| keys@.contains(k) <==> map@.contains_key(k) by {
            assert(all.to_set().contains(k) <==> all.contains(k));
        }
    }
    keys
}

/// Collects a document into the bucket of a key. The bucket is made if the
/// map does not hold it yet.
pub fn collect_bucket<K: Copy, S: SegmentAgg, B: BucketMap<K, S::Fruit>>(
    sub_agg: &mut S,
    res: &mut B,
    key: K,
    doc: DocId,
    score: ScoreBits,
)
    requires
        old(sub_agg).inv(),
        old(sub_agg).frontier() <= doc < S::doc_limit(old(sub_agg).meaning()),
        buckets_ok(
            |f: ModelOf<S::Fruit>| S::fruit_ok(old(sub_agg).meaning(), f),
            models_of(old(res).held()),
        ),
    ensures
        final(sub_agg).inv(),
        final(sub_agg).meaning() == old(sub_agg).meaning(),
        final(sub_agg).frontier() <= doc,
        buckets_ok(
            |f: ModelOf<S::Fruit>| S::fruit_ok(old(sub_agg).meaning(), f),
            models_of(final(res).held()),
        ),
        models_of(final(res).held()) == folded(
            |x: Map<K, ModelOf<S::Fruit>>, y: Map<K, ModelOf<S::Fruit>>|
                buckets_merged(
                    |a: ModelOf<S::Fruit>, b: ModelOf<S::Fruit>|
                        S::merged(old(sub_agg).meaning(), a, b),
                    x,
                    y,
                ),
            models_of(old(res).held()),
            bucket_deltas(
                key,
                S::empty(old(sub_agg).meaning()),
                S::contributions(old(sub_agg).meaning(), doc, score),
            ),
        ),
{
    let ghost meaning = sub_agg.meaning();
    let ghost before = models_of(res.held());
    let ghost held = res.held();
    let ghost empty = S::empty(meaning);
    let ghost deltas = S::contributions(meaning, doc, score);
    let ghost merge = |a: ModelOf<S::Fruit>, b: ModelOf<S::Fruit>|
        S::merged(meaning, a, b);
    proof {
        assert forall|k: K| held.contains_key(k) implies S::fruit_ok(
            meaning,
            (#[trigger] held[k]).model(),
        ) by {
            assert(before.contains_key(k));
            assert(before[k] == held[k].model());
        }
    }
    let mut bucket = match res.take(key) {
        Some(bucket) => bucket,
        None => sub_agg.create_fruit(),
    };
    assert(bucket.model() == bucket_of(before, key, empty));
    sub_agg.collect(doc, score, &mut bucket);
    res.put(key, bucket);
    proof {
        if before.contains_key(key) {
            S::law_empty(meaning, before[key]);
        }
        lemma_bucket_grows(merge, before, key, empty, deltas);
        assert(models_of(res.held()) =~= before.insert(
            key,
            folded(merge, bucket_of(before, key, empty), deltas),
        ));
        assert(models_of(res.held()).dom() =~= before.dom().insert(key));
    }
}

/// Merges the fruits of one map into those of another, key by key.
pub fn merge_buckets<K: Copy, A: PreparedAgg, B: BucketMap<K, A::Fruit>>(
    sub_agg: &A,
    acc: &mut B,
    fruit: B,
)
    requires
        sub_agg.inv(),
        buckets_ok(|f: ModelOf<A::Fruit>| sub_agg.fruit_ok(f), models_of(old(acc).held())),
        buckets_ok(|f: ModelOf<A::Fruit>| sub_agg.fruit_ok(f), models_of(fruit.held())),
    ensures
        buckets_ok(|f: ModelOf<A::Fruit>| sub_agg.fruit_ok(f), models_of(final(acc).held())),
        models_of(final(acc).held()) == buckets_merged(
            |x: ModelOf<A::Fruit>, y: ModelOf<A::Fruit>|
                sub_agg.merged(x, y),
            models_of(old(acc).held()),
            models_of(fruit.held()),
        ),
{
    let mut fruit = fruit;
    let keys = fruit.key_list();
    let ghost start = acc.held();
    let ghost source = fruit.held();
    let mut i: usize = 0;
    proof {
        let given = models_of(fruit.held());
        assert forall|k: K| source.contains_key(k) implies sub_agg.fruit_ok(
            (#[trigger] source[k]).model(),
        ) by {
            assert(given.contains_key(k));
            assert(given[k] == source[k].model());
        }
        assert forall|j: int| 0 <= j < keys.len() implies source.contains_key(#[trigger] keys[j]) by {
            assert(keys@.contains(keys@[j]));
        }
        let held = models_of(acc.held());
        assert forall|k: K| start.contains_key(k) implies sub_agg.fruit_ok(
            (#[trigger] start[k]).model(),
        ) by {
            assert(held.contains_key(k));
            assert(held[k] == start[k].model());
        }
        assert(keys@.take(0) =~= Seq::empty());
    }
    while i < keys.len()
        invariant
            i <= keys.len(),
            sub_agg.inv(),
            keys@.no_duplicates(),
            forall|k: K| keys@.contains(k) <==> source.contains_key(k),
            forall|j: int| 0 <= j < keys.len() ==> source.contains_key(#[trigger] keys[j]),
            forall|k: K|
                source.contains_key(k) ==> sub_agg.fruit_ok((#[trigger] source[k]).model()),
            forall|j: int|
                i <= j < keys.len() ==> fruit.held().contains_key(#[trigger] keys[j]) && fruit.held()[keys[j]]
                    == source[keys[j]],
            forall|k: K| acc.held().contains_key(k) ==> sub_agg.fruit_ok((#[trigger] acc.held()[k]).model()),
            forall|k: K| #[trigger]
                acc.held().contains_key(k) <==> (start.contains_key(k) || keys@.take(i as int).contains(
                    k,
                )),
            forall|k: K|
                acc.held().contains_key(k) ==> (#[trigger] acc.held()[k]).model() == (if keys@.take(
                    i as int,
                ).contains(k) {
                    if start.contains_key(k) {
                        sub_agg.merged(start[k].model(), source[k].model())
                    } else {
                        source[k].model()
                    }
                } else {
                    start[k].model()
                }),
        decreases keys.len() - i,
    {
        let key = keys[i];
        proof {
                let before = keys@.take(i as int);
            let after = keys@.take(i + 1);
            assert(!before.contains(key));
            assert forall|k: K| after.contains(k) <==> (before.contains(k) || k == key) by {
                if after.contains(k) {
                    let j = choose|j: int| 0 <= j < after.len() && after[j] == k;
                    if j < i {
                        assert(before[j] == k);
                    }
                }
                if before.contains(k) {
                    let j = choose|j: int| 0 <= j < before.len() && before[j] == k;
                    assert(after[j] == k);
                }
                if k == key {
                    assert(after[i as int] == k);
                }
            }
        }
        let other = fruit.take(key).unwrap();
        let mut bucket = match acc.take(key) {
            Some(bucket) => bucket,
            None => sub_agg.create_fruit(),
        };
        sub_agg.merge(&mut bucket, other);
        let ghost held = acc.held();
        proof {
            sub_agg.law_identity(source[key].model());
        }
        acc.put(key, bucket);
        proof {
            assert forall|k: K| acc.held().contains_key(k) implies (#[trigger] acc.held()[k]).model() == (
            if keys@.take(i + 1).contains(k) {
                if start.contains_key(k) {
                    sub_agg.merged(start[k].model(), source[k].model())
                } else {
                    source[k].model()
                }
            } else {
                start[k].model()
            }) by {
                if k != key {
                    assert(held.contains_key(k));
                    assert(acc.held()[k] == held[k]);
                }
            }
        }
        i += 1;
    }
    proof {
        assert(keys@.take(i as int) =~= keys@);
        let a = models_of(start);
        let b = models_of(source);
        let merged = buckets_merged(
            |x: ModelOf<A::Fruit>, y: ModelOf<A::Fruit>|
                sub_agg.merged(x, y),
            a,
            b,
        );
        let now = models_of(acc.held());
        assert forall|k: K| now.contains_key(k) implies #[trigger] now[k] == merged[k] by {
            assert(acc.held().contains_key(k));
            assert(now[k] == acc.held()[k].model());
        }
        assert(now =~= merged);
        acc.law_finite();
        assert(now.dom() =~= acc.held().dom());
        assert forall|k: K| now.contains_key(k) implies sub_agg.fruit_ok(#[trigger] now[k]) by {
            assert(acc.held().contains_key(k));
            assert(now[k] == acc.held()[k].model());
        }
    }
}

} // verus!

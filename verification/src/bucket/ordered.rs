//! The ordered map of the standard library as a map of buckets, keyed by the
//! ordinal of the bucket.

use vstd::prelude::*;
use vstd::std_specs::iter::IteratorSpec;
use std::collections::BTreeMap;
use crate::bucket::buckets::BucketMap;

verus! {

broadcast use {vstd::std_specs::btree::group_btree_axioms, vstd::laws_cmp::group_laws_cmp};

/// The keys of an ordered map, each once.
fn ordinals_of<T>(map: &BTreeMap<u64, T>) -> (keys: Vec<u64>)
    ensures
        keys@.no_duplicates(),
        forall|k: u64| keys@.contains(k) <==> map@.contains_key(k),
        keys@.len() == map@.dom().len(),
{
    let mut keys: Vec<u64> = Vec::new();
    let ghost listed = vstd::std_specs::btree::spec_keys_iter(map).remaining();
    for key in it: map.keys()
        invariant
            it.seq() == listed,
            keys@ == listed.unref().take(it.index()),
    {
        keys.push(*key);
        assert(keys@ =~= listed.unref().take(it.index() + 1));
    }
    proof {
        let all = listed.unref();
        assert(keys@ =~= all);
        assert(all.to_set() == map@.dom());
        assert(all.no_duplicates()) by {
            assert forall|i: int, j: int|
                0 <= i < all.len() && 0 <= j < all.len() && i != j implies all[i] != all[j] by {
                assert(listed[i] != listed[j]);
            }
        }
        assert forall|k: u64| keys@.contains(k) <==> map@.contains_key(k) by {
            assert(all.to_set().contains(k) <==> all.contains(k));
        }
    }
    keys
}

impl<T> BucketMap<u64, T> for BTreeMap<u64, T> {
    open spec fn held(&self) -> Map<u64, T> {
        self@
    }

    proof fn law_finite(&self) {
    }

    fn fresh() -> (map: Self) {
        BTreeMap::new()
    }

    fn peek(&self, key: &u64) -> (r: Option<&T>) {
        self.get(key)
    }

    fn take(&mut self, key: u64) -> (r: Option<T>) {
        self.remove(&key)
    }

    fn put(&mut self, key: u64, fruit: T) {
        self.insert(key, fruit);
    }

    fn key_list(&self) -> (keys: Vec<u64>) {
        ordinals_of(self)
    }
}

} // verus!

//! The index as one hash table from UUID to level.

use crate::error::StoreError;
use crate::fx::fx_map_get;
use crate::fx::fx_map_insert;
use crate::fx::fx_map_len;
use crate::counts::counts_match;
use crate::counts::distribution_from_counts;
use crate::counts::zero_counts;
use crate::fx::fx_map_with_capacity;
use crate::model::count_at;
use crate::model::distinct_uuids;
use crate::model::first_repeat;
use crate::model::index_of;
use crate::model::lemma_count_at_bounded;
use crate::model::lemma_count_at_empty;
use crate::model::lemma_count_at_insert;
use crate::model::lemma_distinct_push;
use crate::model::lemma_index_of_keys;
use crate::model::lemma_index_of_len;
use crate::model::lists;
use crate::model::visible;
use crate::store::Store;
use rustc_hash::FxBuildHasher;
use std::collections::HashMap;
use vstd::prelude::*;

verus! {

broadcast use vstd::std_specs::hash::group_hash_axioms;

/// An index that answers every lookup with one probe of a hash table. It
/// also keeps, for each level, the number of UUIDs at that level.
pub struct HashMapStore {
    map: HashMap<u128, u8, FxBuildHasher>,
    counts: Vec<usize>,
}

impl View for HashMapStore {
    type V = Map<u128, u8>;

    closed spec fn view(&self) -> Map<u128, u8> {
        self.map@
    }
}

impl HashMapStore {
    #[verifier::type_invariant]
    spec fn well_formed(&self) -> bool {
        &&& self.map@.dom().finite()
        &&& self.map@.dom().len() <= usize::MAX
        &&& counts_match(self.counts@, self.map@)
    }

    /// Builds the index of `entries`. Fails if and only if a UUID stands in
    /// two entries, and then names the first UUID, in the order of the list,
    /// that an entry names again.
    pub fn new(entries: Vec<(u128, u8)>) -> (built: Result<Self, StoreError>)
        ensures
            built is Ok <==> distinct_uuids(entries@),
            match built {
                Ok(store) => store@ == index_of(entries@),
                Err(StoreError::DuplicateUuid(uuid)) => first_repeat(entries@, uuid),
                Err(_) => false,
            },
    {
        let mut map: HashMap<u128, u8, FxBuildHasher> = fx_map_with_capacity(entries.len());
        let mut counts = zero_counts();
        proof {
            assert forall|level: u8| (#[trigger] counts@[level as int]) == count_at(map@, level) by {
                lemma_count_at_empty(level);
            }
        }
        let mut i: usize = 0;
        while i < entries.len()
            invariant
                i <= entries.len(),
                map@ == index_of(entries@.take(i as int)),
                distinct_uuids(entries@.take(i as int)),
                counts_match(counts@, map@),
            decreases entries.len() - i,
        {
            let uuid = entries[i].0;
            let level = entries[i].1;
            let ghost before = entries@.take(i as int);
            let ghost after = entries@.take(i + 1);
            proof {
                lemma_index_of_keys(before);
                lemma_index_of_len(before);
                assert(after.drop_last() == before);
                assert(after.last() == entries@[i as int]);
            }
            let ghost index_before = map@;
            let previous = fx_map_insert(&mut map, uuid, level);
            if previous.is_some() {
                proof {
                    assert(lists(before, uuid));
                    let k = choose|k: int| 0 <= k < before.len() && (#[trigger] before[k]).0 == uuid;
                    assert(entries@[k].0 == entries@[i as int].0);
                }
                return Err(StoreError::DuplicateUuid(uuid));
            }
            proof {
                lemma_distinct_push(before, entries@[i as int]);
                assert(after == before.push(entries@[i as int]));
                lemma_count_at_bounded(index_before, level);
                assert forall|at: u8| (#[trigger] counts@.update(
                    level as int,
                    (counts@[level as int] + 1) as usize,
                )[at as int]) == count_at(map@, at) by {
                    lemma_count_at_insert(index_before, uuid, level, at);
                }
            }
            let bumped = counts[level as usize] + 1;
            counts.set(level as usize, bumped);
            i += 1;
        }
        proof {
            assert(entries@.take(entries@.len() as int) == entries@);
            lemma_index_of_len(entries@);
        }
        Ok(HashMapStore { map, counts })
    }
}

impl Store for HashMapStore {
    fn get_visibility(&self, uuid: &u128) -> (level: Option<u8>) {
        match fx_map_get(&self.map, uuid) {
            Some(level) => Some(*level),
            None => None,
        }
    }

    fn is_visible(&self, uuid: &u128, mask: u8) -> (seen: bool) {
        match fx_map_get(&self.map, uuid) {
            Some(level) => *level <= mask,
            None => false,
        }
    }

    fn check_batch(&self, uuids: &[u128], mask: u8) -> (seen: bool) {
        let mut i: usize = 0;
        while i < uuids.len()
            invariant
                i <= uuids.len(),
                forall|k: int| 0 <= k < i ==> visible(self@, #[trigger] uuids@[k], mask),
            decreases uuids.len() - i,
        {
            if !self.is_visible(&uuids[i], mask) {
                return false;
            }
            i += 1;
        }
        true
    }

    fn len(&self) -> (count: usize) {
        proof {
            use_type_invariant(self);
        }
        fx_map_len(&self.map)
    }

    fn is_empty(&self) -> (empty: bool) {
        proof {
            use_type_invariant(self);
        }
        fx_map_len(&self.map) == 0
    }

    fn visibility_distribution(&self) -> (distribution: HashMap<u8, usize, FxBuildHasher>) {
        proof {
            use_type_invariant(self);
        }
        distribution_from_counts(&self.counts, Ghost(self.map@))
    }
}

} // verus!

//! The index as one hash set of UUIDs for each level.

use crate::counts::counts_match;
use crate::counts::distribution_from_counts;
use crate::error::StoreError;
use crate::fx::fx_set_contains;
use crate::fx::fx_set_insert;
use crate::fx::fx_set_len;
use crate::fx::fx_set_new;
use crate::model::count_at;
use crate::model::distinct_uuids;
use crate::model::first_repeat;
use crate::model::index_of;
use crate::model::lemma_below_ends;
use crate::model::lemma_below_step;
use crate::model::lemma_count_at_bounded;
use crate::model::lemma_distinct_push;
use crate::model::lemma_index_of_keys;
use crate::model::lemma_index_of_len;
use crate::model::lists;
use crate::model::uuids_at;
use crate::model::uuids_below;
use crate::model::visible;
use crate::store::DistributionStats;
use crate::store::Store;
use rustc_hash::FxBuildHasher;
use std::collections::HashMap;
use std::collections::HashSet;
use vstd::prelude::*;

verus! {

broadcast use vstd::std_specs::hash::group_hash_axioms;

/// An index that keeps the UUIDs of each level in a set of their own, and
/// looks a UUID up level by level, from level 0 upwards. A lookup under a
/// small mask probes few sets.
pub struct FullHashStore {
    by_level: Vec<HashSet<u128, FxBuildHasher>>,
    index: Ghost<Map<u128, u8>>,
}

impl View for FullHashStore {
    type V = Map<u128, u8>;

    closed spec fn view(&self) -> Map<u128, u8> {
        self.index@
    }
}

/// Whether `sets` holds, for each level, the UUIDs of `index` at that level.
pub open spec fn layers_of(sets: Seq<HashSet<u128, FxBuildHasher>>, index: Map<u128, u8>) -> bool {
    &&& sets.len() == 256
    &&& forall|level: u8| (#[trigger] sets[level as int])@ == uuids_at(index, level)
}

/// 256 sets without members.
fn empty_layers() -> (sets: Vec<HashSet<u128, FxBuildHasher>>)
    ensures
        sets@.len() == 256,
        forall|i: int| 0 <= i < 256 ==> (#[trigger] sets@[i])@ == Set::<u128>::empty(),
{
    let mut sets: Vec<HashSet<u128, FxBuildHasher>> = Vec::with_capacity(256);
    let mut level: usize = 0;
    while level < 256
        invariant
            level <= 256,
            sets@.len() == level,
            forall|i: int| 0 <= i < level ==> (#[trigger] sets@[i])@ == Set::<u128>::empty(),
        decreases 256 - level,
    {
        sets.push(fx_set_new());
        level += 1;
    }
    sets
}

impl FullHashStore {
    #[verifier::type_invariant]
    spec fn well_formed(&self) -> bool {
        &&& self.index@.dom().finite()
        &&& self.index@.dom().len() <= usize::MAX
        &&& layers_of(self.by_level@, self.index@)
    }

    /// Builds the index of `entries`. Fails if and only if a UUID stands in
    /// two entries, and then names the first UUID, in the order of the list,
    /// that an entry names again.
    pub fn new(entries: Vec<(u128, u8)>) -> (built: Result<Self, StoreError>)
        ensures
            built is Ok <==> distinct_uuids(entries@),
            match built {
                Ok(store) => store@ == index_of(entries@),
                Err(StoreError::DuplicateUuid(uuid)) => first_repeat(entries@, uuid),
                Err(_) => false,
            },
    {
        let mut by_level = empty_layers();
        let mut all_uuids: HashSet<u128, FxBuildHasher> = fx_set_new();
        proof {
            assert(index_of(entries@.take(0)) == Map::<u128, u8>::empty());
            assert forall|level: u8| (#[trigger] by_level@[level as int])@ == uuids_at(
                index_of(entries@.take(0)),
                level,
            ) by {
                assert(uuids_at(Map::<u128, u8>::empty(), level) == Set::<u128>::empty());
            }
            assert(all_uuids@ == index_of(entries@.take(0)).dom());
        }
        let mut i: usize = 0;
        while i < entries.len()
            invariant
                i <= entries.len(),
                distinct_uuids(entries@.take(i as int)),
                all_uuids@ == index_of(entries@.take(i as int)).dom(),
                layers_of(by_level@, index_of(entries@.take(i as int))),
            decreases entries.len() - i,
        {
            let uuid = entries[i].0;
            let level = entries[i].1;
            let ghost before = entries@.take(i as int);
            let ghost after = entries@.take(i + 1);
            proof {
                lemma_index_of_keys(before);
                assert(after.drop_last() == before);
                assert(after.last() == entries@[i as int]);
            }
            if !fx_set_insert(&mut all_uuids, uuid) {
                proof {
                    assert(lists(before, uuid));
                    let k = choose|k: int| 0 <= k < before.len() && (#[trigger] before[k]).0 == uuid;
                    assert(entries@[k].0 == entries@[i as int].0);
                }
                return Err(StoreError::DuplicateUuid(uuid));
            }
            let ghost layers_before = by_level@;
            fx_set_insert(&mut by_level[level as usize], uuid);
            proof {
                lemma_distinct_push(before, entries@[i as int]);
                assert(after == before.push(entries@[i as int]));
                assert forall|at: u8| (#[trigger] by_level@[at as int])@ == uuids_at(
                    index_of(after),
                    at,
                ) by {
                    assert(layers_before[at as int]@ == uuids_at(index_of(before), at));
                    if at == level {
                        assert(uuids_at(index_of(after), at) == uuids_at(
                            index_of(before),
                            at,
                        ).insert(uuid));
                    } else {
                        assert(uuids_at(index_of(after), at) == uuids_at(index_of(before), at));
                    }
                }
            }
            i += 1;
        }
        proof {
            assert(entries@.take(entries@.len() as int) == entries@);
            lemma_index_of_len(entries@);
        }
        Ok(FullHashStore { by_level, index: Ghost(index_of(entries@)) })
    }

    /// The number of UUIDs at each level, level by level.
    fn level_counts(&self) -> (counts: Vec<usize>)
        ensures
            counts_match(counts@, self@),
    {
        proof {
            use_type_invariant(self);
        }
        let mut counts: Vec<usize> = Vec::with_capacity(256);
        let mut next: usize = 0;
        while next < 256
            invariant
                next <= 256,
                counts@.len() == next,
                layers_of(self.by_level@, self.index@),
                forall|level: u8| level < next ==> (#[trigger] counts@[level as int]) == count_at(
                    self.index@,
                    level,
                ),
            decreases 256 - next,
        {
            let ghost level = next as u8;
            assert(self.by_level@[level as int]@ == uuids_at(self.index@, level));
            counts.push(fx_set_len(&self.by_level[next]));
            next += 1;
        }
        counts
    }

    /// How many UUIDs the index holds at level 0 and above it.
    pub fn distribution_stats(&self) -> (stats: DistributionStats)
        ensures
            self@.dom().finite(),
            stats.total_uuids == self@.dom().len(),
            stats.level_0_count == count_at(self@, 0),
            stats.higher_levels_count == stats.total_uuids - stats.level_0_count,
    {
        proof {
            use_type_invariant(self);
            lemma_count_at_bounded(self.index@, 0);
            assert(self.by_level@[0u8 as int]@ == uuids_at(self.index@, 0));
        }
        let total_uuids = self.len();
        let level_0_count = fx_set_len(&self.by_level[0]);
        DistributionStats {
            total_uuids,
            level_0_count,
            higher_levels_count: total_uuids - level_0_count,
        }
    }
}

impl Store for FullHashStore {
    fn get_visibility(&self, uuid: &u128) -> (level: Option<u8>) {
        proof {
            use_type_invariant(self);
        }
        let mut next: usize = 0;
        while next < 256
            invariant
                next <= 256,
                layers_of(self.by_level@, self.index@),
                self.index@.contains_key(*uuid) ==> self.index@[*uuid] >= next,
            decreases 256 - next,
        {
            let ghost level = next as u8;
            assert(self.by_level@[level as int]@ == uuids_at(self.index@, level));
            if fx_set_contains(&self.by_level[next], uuid) {
                return Some(next as u8);
            }
            next += 1;
        }
        None
    }

    fn is_visible(&self, uuid: &u128, mask: u8) -> (seen: bool) {
        proof {
            use_type_invariant(self);
        }
        let mut next: usize = 0;
        while next <= mask as usize
            invariant
                next <= mask + 1,
                layers_of(self.by_level@, self.index@),
                self.index@.contains_key(*uuid) ==> self.index@[*uuid] >= next,
            decreases mask + 1 - next,
        {
            let ghost level = next as u8;
            assert(self.by_level@[level as int]@ == uuids_at(self.index@, level));
            if fx_set_contains(&self.by_level[next], uuid) {
                return true;
            }
            next += 1;
        }
        false
    }

    fn check_batch(&self, uuids: &[u128], mask: u8) -> (seen: bool) {
        let mut i: usize = 0;
        while i < uuids.len()
            invariant
                i <= uuids.len(),
                forall|k: int| 0 <= k < i ==> visible(self@, #[trigger] uuids@[k], mask),
            decreases uuids.len() - i,
        {
            if !self.is_visible(&uuids[i], mask) {
                return false;
            }
            i += 1;
        }
        true
    }

    fn len(&self) -> (count: usize) {
        proof {
            use_type_invariant(self);
            lemma_below_ends(self.index@);
        }
        let mut count: usize = 0;
        let mut next: usize = 0;
        while next < 256
            invariant
                next <= 256,
                layers_of(self.by_level@, self.index@),
                self.index@.dom().finite(),
                self.index@.dom().len() <= usize::MAX,
                count == uuids_below(self.index@, next as nat).len(),
            decreases 256 - next,
        {
            let ghost level = next as u8;
            proof {
                assert(self.by_level@[level as int]@ == uuids_at(self.index@, level));
                lemma_below_step(self.index@, level);
            }
            count = count + fx_set_len(&self.by_level[next]);
            next += 1;
        }
        count
    }

    fn is_empty(&self) -> (empty: bool) {
        self.len() == 0
    }

    fn visibility_distribution(&self) -> (distribution: HashMap<u8, usize, FxBuildHasher>) {
        proof {
            use_type_invariant(self);
        }
        let counts = self.level_counts();
        distribution_from_counts(&counts, Ghost(self.index@))
    }
}

} // verus!

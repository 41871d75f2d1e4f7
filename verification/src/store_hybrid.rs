//! The index as a hash set for level 0 beside a sorted list for the rest.

use crate::counts::count_entries;
use crate::counts::distribution_from_counts;
use crate::error::StoreError;
use crate::fx::fx_set_contains;
use crate::fx::fx_set_insert;
use crate::fx::fx_set_len;
use crate::fx::fx_set_new;
use crate::model::count_at;
use crate::model::distinct_uuids;
use crate::model::index_of;
use crate::model::lemma_distinct_push;
use crate::model::lemma_index_of_entry;
use crate::model::lemma_index_of_keys;
use crate::model::lemma_index_of_len;
use crate::model::lists;
use crate::model::repeated;
use crate::model::uuids_at;
use crate::model::visible;
use crate::partition::higher_levels;
use crate::partition::lemma_distinct_split;
use crate::partition::lemma_filter_lists;
use crate::partition::lemma_lists_push;
use crate::partition::lists_among;
use crate::partition::split_duplicate;
use crate::partition::straddles;
use crate::partition::zero_level;
use crate::rearrange::lemma_ascending_distinct;
use crate::rearrange::lemma_rearranged_distinct;
use crate::rearrange::lemma_rearranged_lists;
use crate::rearrange::lemma_rearranged_repeated;
use crate::rearrange::sort_by_uuid;
use crate::rearrange::sorted_by_uuid;
use crate::rearrange::strictly_ascending;
use crate::sorted::find_level;
use crate::sorted::first_shared_by_neighbours;
use crate::store::DistributionStats;
use crate::store::Store;
use rustc_hash::FxBuildHasher;
use std::collections::HashMap;
use std::collections::HashSet;
use vstd::prelude::*;

verus! {

broadcast use vstd::std_specs::hash::group_hash_axioms;

/// An index for data in which most UUIDs are at level 0: those are found
/// with one probe of a hash set, the others by halving a sorted list.
pub struct HybridAuthStore {
    level_0: HashSet<u128, FxBuildHasher>,
    higher_levels: Vec<(u128, u8)>,
}

/// The index that a set of UUIDs at level 0 and a list of further entries
/// describe together; the set comes first where both name a UUID.
pub open spec fn joined(zero: Set<u128>, higher: Seq<(u128, u8)>) -> Map<u128, u8> {
    Map::new(
        |uuid: u128| zero.contains(uuid) || index_of(higher).contains_key(uuid),
        |uuid: u128|
            if zero.contains(uuid) {
                0u8
            } else {
                index_of(higher)[uuid]
            },
    )
}

/// Whether a set and a list fit together as the two sides of an index: the
/// list ascends strictly, holds no entry at level 0 and names no UUID of the
/// set.
pub open spec fn sides_fit(zero: Set<u128>, higher: Seq<(u128, u8)>) -> bool {
    &&& zero.finite()
    &&& strictly_ascending(higher)
    &&& forall|k: int| 0 <= k < higher.len() ==> (#[trigger] higher[k]).1 != 0
    &&& forall|k: int| 0 <= k < higher.len() ==> !zero.contains((#[trigger] higher[k]).0)
}

/// The two sides of an index share no UUID, so the index holds as many UUIDs
/// as both sides together, and its UUIDs at level 0 are those of the set.
proof fn lemma_joined_sides(zero: Set<u128>, higher: Seq<(u128, u8)>)
    requires
        sides_fit(zero, higher),
    ensures
        joined(zero, higher).dom().finite(),
        joined(zero, higher).dom().len() == zero.len() + higher.len(),
        uuids_at(joined(zero, higher), 0) == zero,
        forall|level: u8|
            level != 0 ==> #[trigger] uuids_at(joined(zero, higher), level) == uuids_at(
                index_of(higher),
                level,
            ),
{
    let rest = index_of(higher);
    lemma_index_of_keys(higher);
    lemma_index_of_len(higher);
    assert forall|uuid: u128| rest.contains_key(uuid) implies !zero.contains(uuid) && rest[uuid]
        != 0 by {
        let k = choose|k: int| 0 <= k < higher.len() && (#[trigger] higher[k]).0 == uuid;
        lemma_index_of_entry(higher, k);
    }
    assert(joined(zero, higher).dom() == zero.union(rest.dom()));
    assert(zero.disjoint(rest.dom()));
    vstd::set_lib::lemma_set_disjoint_lens(zero, rest.dom());
    assert(uuids_at(joined(zero, higher), 0) == zero);
    assert forall|level: u8| level != 0 implies #[trigger] uuids_at(joined(zero, higher), level)
        == uuids_at(rest, level) by {
        assert(uuids_at(joined(zero, higher), level) =~= uuids_at(rest, level));
    }
}

impl View for HybridAuthStore {
    type V = Map<u128, u8>;

    closed spec fn view(&self) -> Map<u128, u8> {
        joined(self.level_0@, self.higher_levels@)
    }
}

impl HybridAuthStore {
    #[verifier::type_invariant]
    spec fn well_formed(&self) -> bool {
        &&& sides_fit(self.level_0@, self.higher_levels@)
        &&& self.level_0@.len() + self.higher_levels@.len() <= usize::MAX
    }

    /// Builds the index of `entries`. Fails if and only if a UUID stands in
    /// two entries, and then names the duplicate that [`split_duplicate`]
    /// describes.
    pub fn new(entries: Vec<(u128, u8)>) -> (built: Result<Self, StoreError>)
        ensures
            built is Ok <==> distinct_uuids(entries@),
            match built {
                Ok(store) => store@ == index_of(entries@),
                Err(StoreError::DuplicateUuid(uuid)) => split_duplicate(entries@, uuid),
                Err(_) => false,
            },
    {
        let mut level_0: HashSet<u128, FxBuildHasher> = fx_set_new();
        let mut higher: Vec<(u128, u8)> = Vec::new();
        proof {
            lemma_distinct_split(entries@);
            entries@.take(0).lemma_filter_len(|entry: (u128, u8)| entry.1 == 0);
            entries@.take(0).lemma_filter_len(|entry: (u128, u8)| entry.1 != 0);
        }
        let mut i: usize = 0;
        while i < entries.len()
            invariant
                i <= entries.len(),
                level_0@.finite(),
                forall|uuid: u128|
                    level_0@.contains(uuid) <==> lists(
                        zero_level(entries@.take(i as int)),
                        uuid,
                    ),
                distinct_uuids(zero_level(entries@.take(i as int))),
                higher@ == higher_levels(entries@.take(i as int)),
                level_0@.len() + higher@.len() == i,
                distinct_uuids(entries@) ==> distinct_uuids(zero_level(entries@)),
            decreases entries.len() - i,
        {
            let uuid = entries[i].0;
            let level = entries[i].1;
            let ghost before = entries@.take(i as int);
            let ghost after = entries@.take(i + 1);
            let ghost zero_before = zero_level(before);
            proof {
                assert(after == before.push(entries@[i as int]));
                before.lemma_filter_push(entries@[i as int], |entry: (u128, u8)| entry.1 == 0);
                before.lemma_filter_push(entries@[i as int], |entry: (u128, u8)| entry.1 != 0);
            }
            if level == 0 {
                let fresh = fx_set_insert(&mut level_0, uuid);
                if !fresh {
                    proof {
                        let zero = zero_level(entries@);
                        after.lemma_filter_monotone(entries@, |entry: (u128, u8)| entry.1 == 0);
                        let j = zero_before.len() as int;
                        assert(zero_level(after)[j] == entries@[i as int]);
                        assert(zero.take(j) == zero_before);
                        assert(zero[j].0 == uuid);
                        let k = choose|k: int|
                            0 <= k < zero_before.len() && (#[trigger] zero_before[k]).0 == uuid;
                        assert(zero[k].0 == zero[j].0);
                    }
                    return Err(StoreError::DuplicateUuid(uuid));
                }
                proof {
                    lemma_distinct_push(zero_before, entries@[i as int]);
                    assert forall|other: u128|
                        level_0@.contains(other) <==> lists(zero_level(after), other) by {
                        lemma_lists_push(zero_before, entries@[i as int], other);
                    }
                }
            } else {
                higher.push((uuid, level));
            }
            i += 1;
        }
        proof {
            assert(entries@.take(entries@.len() as int) == entries@);
        }
        let ghost unsorted = higher@;
        sort_by_uuid(&mut higher);
        proof {
            vstd::seq_lib::to_multiset_len(unsorted);
            vstd::seq_lib::to_multiset_len(higher@);
        }
        match first_shared_by_neighbours(&higher) {
            Some(uuid) => {
                proof {
                    lemma_rearranged_repeated(higher@, unsorted, uuid);
                    assert forall|other: u128| repeated(unsorted, other) implies uuid
                        <= other by {
                        lemma_rearranged_repeated(unsorted, higher@, other);
                    }
                    crate::model::lemma_distinct_iff_none_repeated(unsorted);
                }
                return Err(StoreError::DuplicateUuid(uuid));
            },
            None => {},
        }
        proof {
            lemma_ascending_distinct(higher@);
            lemma_rearranged_distinct(higher@, unsorted);
        }
        let mut k: usize = 0;
        while k < higher.len()
            invariant
                k <= higher.len(),
                forall|j: int| 0 <= j < k ==> !level_0@.contains((#[trigger] higher@[j]).0),
                sorted_by_uuid(higher@),
                higher@.to_multiset() == unsorted.to_multiset(),
                unsorted == higher_levels(entries@),
                distinct_uuids(unsorted),
                distinct_uuids(zero_level(entries@)),
                forall|uuid: u128| level_0@.contains(uuid) <==> lists(zero_level(entries@), uuid),
                distinct_uuids(entries@) <==> (distinct_uuids(zero_level(entries@))
                    && distinct_uuids(higher_levels(entries@)) && forall|uuid: u128|
                    !straddles(entries@, uuid)),
            decreases higher.len() - k,
        {
            let uuid = higher[k].0;
            if fx_set_contains(&level_0, &uuid) {
                proof {
                    assert(lists(higher@, uuid));
                    lemma_rearranged_lists(higher@, unsorted, uuid);
                    assert(straddles(entries@, uuid));
                    assert forall|other: u128| straddles(entries@, other) implies uuid
                        <= other by {
                        lemma_rearranged_lists(unsorted, higher@, other);
                        let b = choose|b: int|
                            0 <= b < higher@.len() && (#[trigger] higher@[b]).0 == other;
                        if b >= k {
                            assert(higher@[k as int].0 <= higher@[b].0);
                        }
                    }
                }
                return Err(StoreError::DuplicateUuid(uuid));
            }
            k += 1;
        }
        proof {
            assert forall|uuid: u128| !straddles(entries@, uuid) by {
                if straddles(entries@, uuid) {
                    lemma_rearranged_lists(unsorted, higher@, uuid);
                    let b = choose|b: int|
                        0 <= b < higher@.len() && (#[trigger] higher@[b]).0 == uuid;
                    assert(!level_0@.contains(higher@[b].0));
                }
            }
            lemma_built_index(entries@, level_0@, higher@);
        }
        Ok(HybridAuthStore { level_0, higher_levels: higher })
    }

    /// How many UUIDs stand on each side of the index.
    pub fn distribution_stats(&self) -> (stats: DistributionStats)
        ensures
            self@.dom().finite(),
            stats.total_uuids == self@.dom().len(),
            stats.level_0_count == count_at(self@, 0),
            stats.higher_levels_count == stats.total_uuids - stats.level_0_count,
    {
        proof {
            use_type_invariant(self);
            lemma_joined_sides(self.level_0@, self.higher_levels@);
        }
        let level_0_count = fx_set_len(&self.level_0);
        let higher_levels_count = self.higher_levels.len();
        DistributionStats {
            total_uuids: level_0_count + higher_levels_count,
            level_0_count,
            higher_levels_count,
        }
    }
}

/// The two sides that a build ends with describe the index of the entries.
proof fn lemma_built_index(entries: Seq<(u128, u8)>, zero: Set<u128>, sorted: Seq<(u128, u8)>)
    requires
        distinct_uuids(entries),
        zero.finite(),
        forall|uuid: u128| zero.contains(uuid) <==> lists(zero_level(entries), uuid),
        sorted.to_multiset() == higher_levels(entries).to_multiset(),
        strictly_ascending(sorted),
        forall|uuid: u128| !straddles(entries, uuid),
    ensures
        sides_fit(zero, sorted),
        joined(zero, sorted) == index_of(entries),
{
    broadcast use vstd::seq_lib::to_multiset_contains;

    let is_zero = |entry: (u128, u8)| entry.1 == 0;
    let is_higher = |entry: (u128, u8)| entry.1 != 0;
    let higher = higher_levels(entries);
    assert forall|k: int| 0 <= k < sorted.len() implies (#[trigger] sorted[k]).1 != 0
        && !zero.contains(sorted[k].0) by {
        assert(sorted.contains(sorted[k]));
        assert(higher.to_multiset().count(sorted[k]) > 0);
        assert(higher.contains(sorted[k]));
        let j = choose|j: int| 0 <= j < higher.len() && higher[j] == sorted[k];
        entries.lemma_filter_pred(is_higher, j);
        assert(lists(higher, sorted[k].0));
        assert(!straddles(entries, sorted[k].0));
    }
    lemma_ascending_distinct(sorted);
    lemma_index_of_keys(sorted);
    lemma_index_of_keys(entries);
    assert forall|uuid: u128| #[trigger]
        joined(zero, sorted).dom().contains(uuid) == index_of(entries).dom().contains(uuid) by {
        lemma_filter_lists(entries, is_zero, uuid);
        lemma_filter_lists(entries, is_higher, uuid);
        if lists(sorted, uuid) {
            lemma_rearranged_lists(sorted, higher, uuid);
        }
        if lists(higher, uuid) {
            lemma_rearranged_lists(higher, sorted, uuid);
        }
        if lists(entries, uuid) {
            let i = choose|i: int| 0 <= i < entries.len() && (#[trigger] entries[i]).0 == uuid;
            if is_zero(entries[i]) {
                assert(lists_among(entries, is_zero, uuid));
            } else {
                assert(lists_among(entries, is_higher, uuid));
            }
        }
        if lists_among(entries, is_zero, uuid) {
            let i = choose|i: int|
                0 <= i < entries.len() && is_zero(#[trigger] entries[i]) && entries[i].0 == uuid;
            assert(entries[i].0 == uuid);
        }
        if lists_among(entries, is_higher, uuid) {
            let i = choose|i: int|
                0 <= i < entries.len() && is_higher(#[trigger] entries[i]) && entries[i].0
                    == uuid;
            assert(entries[i].0 == uuid);
        }
    }
    assert forall|uuid: u128| joined(zero, sorted).dom().contains(uuid) implies #[trigger] joined(
        zero,
        sorted,
    )[uuid] == index_of(entries)[uuid] by {
        let i = choose|i: int| 0 <= i < entries.len() && (#[trigger] entries[i]).0 == uuid;
        lemma_index_of_entry(entries, i);
        lemma_filter_lists(entries, is_zero, uuid);
        lemma_filter_lists(entries, is_higher, uuid);
        if is_zero(entries[i]) {
            assert(lists_among(entries, is_zero, uuid));
        } else {
            assert(lists_among(entries, is_higher, uuid));
            assert(!straddles(entries, uuid));
            entries.lemma_filter_contains(is_higher, i);
            assert(higher.to_multiset().count(entries[i]) > 0);
            assert(sorted.contains(entries[i]));
            let k = choose|k: int| 0 <= k < sorted.len() && sorted[k] == entries[i];
            lemma_index_of_entry(sorted, k);
        }
    }
    assert(joined(zero, sorted) =~= index_of(entries));
}

impl Store for HybridAuthStore {
    fn get_visibility(&self, uuid: &u128) -> (level: Option<u8>) {
        proof {
            use_type_invariant(self);
        }
        if fx_set_contains(&self.level_0, uuid) {
            return Some(0);
        }
        find_level(&self.higher_levels, *uuid)
    }

    fn is_visible(&self, uuid: &u128, mask: u8) -> (seen: bool) {
        proof {
            use_type_invariant(self);
            lemma_joined_sides(self.level_0@, self.higher_levels@);
        }
        if fx_set_contains(&self.level_0, uuid) {
            return true;
        }
        if mask == 0 {
            proof {
                lemma_index_of_keys(self.higher_levels@);
                if index_of(self.higher_levels@).contains_key(*uuid) {
                    let k = choose|k: int|
                        0 <= k < self.higher_levels@.len() && (#[trigger] self.higher_levels@[k]).0
                            == *uuid;
                    lemma_ascending_distinct(self.higher_levels@);
                    lemma_index_of_entry(self.higher_levels@, k);
                }
            }
            return false;
        }
        match find_level(&self.higher_levels, *uuid) {
            Some(level) => level <= mask,
            None => false,
        }
    }

    fn check_batch(&self, uuids: &[u128], mask: u8) -> (seen: bool) {
        let mut i: usize = 0;
        while i < uuids.len()
            invariant
                i <= uuids.len(),
                forall|k: int| 0 <= k < i ==> visible(self@, #[trigger] uuids@[k], mask),
            decreases uuids.len() - i,
        {
            if !self.is_visible(&uuids[i], mask) {
                return false;
            }
            i += 1;
        }
        true
    }

    fn len(&self) -> (count: usize) {
        proof {
            use_type_invariant(self);
            lemma_joined_sides(self.level_0@, self.higher_levels@);
        }
        fx_set_len(&self.level_0) + self.higher_levels.len()
    }

    fn is_empty(&self) -> (empty: bool) {
        proof {
            use_type_invariant(self);
            lemma_joined_sides(self.level_0@, self.higher_levels@);
        }
        fx_set_len(&self.level_0) == 0 && self.higher_levels.len() == 0
    }

    fn visibility_distribution(&self) -> (distribution: HashMap<u8, usize, FxBuildHasher>) {
        proof {
            use_type_invariant(self);
            lemma_joined_sides(self.level_0@, self.higher_levels@);
            lemma_ascending_distinct(self.higher_levels@);
        }
        let mut counts = count_entries(&self.higher_levels);
        let ghost counted = counts@;
        counts.set(0, fx_set_len(&self.level_0));
        proof {
            assert forall|level: u8| (#[trigger] counts@[level as int]) == count_at(
                self@,
                level,
            ) by {
                if level != 0 {
                    assert(counts@[level as int] == counted[level as int]);
                }
            }
        }
        distribution_from_counts(&counts, Ghost(self@))
    }
}

} // verus!

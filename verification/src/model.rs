//! The mathematical model of an index: a finite map from UUIDs to levels.
//!
//! A UUID is held as its 128-bit value, the big-endian reading of its sixteen
//! bytes, so that the order of the numbers is the order of the byte strings.
//! An entry is a pair of a UUID and a visibility level.

use vstd::prelude::*;

verus! {

/// Whether some entry of `entries` is about `uuid`.
pub open spec fn lists(entries: Seq<(u128, u8)>, uuid: u128) -> bool {
    exists|i: int| 0 <= i < entries.len() && (#[trigger] entries[i]).0 == uuid
}

/// Whether at least two entries of `entries` are about `uuid`.
pub open spec fn repeated(entries: Seq<(u128, u8)>, uuid: u128) -> bool {
    exists|i: int, j: int|
        0 <= i < j < entries.len() && (#[trigger] entries[i]).0 == uuid && (#[trigger] entries[j]).0
            == uuid
}

/// Whether no UUID stands in two entries of `entries`.
pub open spec fn distinct_uuids(entries: Seq<(u128, u8)>) -> bool {
    forall|i: int, j: int|
        0 <= i < j < entries.len() ==> (#[trigger] entries[i]).0 != (#[trigger] entries[j]).0
}

/// Whether `uuid` is the first UUID, in the order of the list, that an entry
/// names again: the entries before that one name each UUID once.
pub open spec fn first_repeat(entries: Seq<(u128, u8)>, uuid: u128) -> bool {
    exists|j: int|
        0 <= j < entries.len() && (#[trigger] entries[j]).0 == uuid && lists(entries.take(j), uuid)
            && distinct_uuids(entries.take(j))
}

/// Whether `uuid` is the smallest UUID that stands in two entries.
pub open spec fn least_repeat(entries: Seq<(u128, u8)>, uuid: u128) -> bool {
    repeated(entries, uuid) && forall|other: u128| repeated(entries, other) ==> uuid <= other
}

/// The index that a list of entries describes: each entry binds its UUID to
/// its level. Where a UUID stands in several entries, the last one counts; an
/// index is only ever built from a list in which none does.
pub open spec fn index_of(entries: Seq<(u128, u8)>) -> Map<u128, u8>
    decreases entries.len(),
{
    if entries.len() == 0 {
        Map::empty()
    } else {
        index_of(entries.drop_last()).insert(entries.last().0, entries.last().1)
    }
}

/// Whether `uuid` is visible under `mask` in `index`: it is present and its
/// level is at most the mask.
pub open spec fn visible(index: Map<u128, u8>, uuid: u128, mask: u8) -> bool {
    index.contains_key(uuid) && index[uuid] <= mask
}

/// Whether every UUID of `uuids` is visible under `mask` in `index`.
pub open spec fn all_visible(index: Map<u128, u8>, uuids: Seq<u128>, mask: u8) -> bool {
    forall|i: int| 0 <= i < uuids.len() ==> visible(index, #[trigger] uuids[i], mask)
}

/// The level of `uuid` in `index`, if it is present.
pub open spec fn level_in(index: Map<u128, u8>, uuid: u128) -> Option<u8> {
    if index.contains_key(uuid) {
        Some(index[uuid])
    } else {
        None
    }
}

/// The UUIDs that `index` holds at `level`.
pub open spec fn uuids_at(index: Map<u128, u8>, level: u8) -> Set<u128> {
    Set::new(|uuid: u128| index.contains_key(uuid) && index[uuid] == level)
}

/// The number of UUIDs that `index` holds at `level`.
pub open spec fn count_at(index: Map<u128, u8>, level: u8) -> nat {
    uuids_at(index, level).len()
}

/// Whether `distribution` gives, for each level at which `index` holds a
/// UUID, the number of UUIDs at that level, and nothing for the other levels.
pub open spec fn is_distribution_of(distribution: Map<u8, usize>, index: Map<u128, u8>) -> bool {
    forall|level: u8|
        #![trigger distribution.contains_key(level)]
        #![trigger distribution[level]]
        {
            &&& distribution.contains_key(level) <==> count_at(index, level) > 0
            &&& distribution.contains_key(level) ==> distribution[level] == count_at(index, level)
        }
}

/// The counts of `distribution` for the levels below `bound`, added up.
pub open spec fn total_below(distribution: Map<u8, usize>, bound: nat) -> nat
    decreases bound,
{
    if bound == 0 {
        0
    } else {
        let level = (bound - 1) as u8;
        let here: nat = if distribution.contains_key(level) {
            distribution[level] as nat
        } else {
            0
        };
        total_below(distribution, (bound - 1) as nat) + here
    }
}

/// All the counts of `distribution`, added up.
pub open spec fn total(distribution: Map<u8, usize>) -> nat {
    total_below(distribution, 256)
}

/// The UUIDs that `index` holds at a level below `bound`.
pub open spec fn uuids_below(index: Map<u128, u8>, bound: nat) -> Set<u128> {
    Set::new(|uuid: u128| index.contains_key(uuid) && index[uuid] < bound)
}

/// An index built from a list binds exactly the UUIDs that the list names.
pub proof fn lemma_index_of_keys(entries: Seq<(u128, u8)>)
    ensures
        forall|uuid: u128| #[trigger] index_of(entries).contains_key(uuid) <==> lists(entries, uuid),
        index_of(entries).dom().finite(),
    decreases entries.len(),
{
    if entries.len() == 0 {
    } else {
        let front = entries.drop_last();
        lemma_index_of_keys(front);
        assert forall|uuid: u128| #[trigger]
            index_of(entries).contains_key(uuid) <==> lists(entries, uuid) by {
            if lists(entries, uuid) {
                let i = choose|i: int| 0 <= i < entries.len() && (#[trigger] entries[i]).0 == uuid;
                if i < front.len() {
                    assert(front[i].0 == uuid);
                }
            }
            if lists(front, uuid) {
                let i = choose|i: int| 0 <= i < front.len() && (#[trigger] front[i]).0 == uuid;
                assert(entries[i].0 == uuid);
            }
            if uuid == entries.last().0 {
                assert(entries[entries.len() - 1].0 == uuid);
            }
        }
    }
}

/// In an index built from a list without repeats, each entry's UUID is bound
/// to that entry's level.
pub proof fn lemma_index_of_entry(entries: Seq<(u128, u8)>, i: int)
    requires
        distinct_uuids(entries),
        0 <= i < entries.len(),
    ensures
        index_of(entries).contains_key(entries[i].0),
        index_of(entries)[entries[i].0] == entries[i].1,
    decreases entries.len(),
{
    let front = entries.drop_last();
    if i == entries.len() - 1 {
    } else {
        assert(distinct_uuids(front)) by {
            assert forall|a: int, b: int| 0 <= a < b < front.len() implies (#[trigger] front[a]).0 != (
            #[trigger] front[b]).0 by {
                assert(entries[a].0 != entries[b].0);
            }
        }
        lemma_index_of_entry(front, i);
        assert(front[i] == entries[i]);
        assert(entries[i].0 != entries[entries.len() - 1].0);
    }
}

/// An index built from a list without repeats holds as many UUIDs as the list
/// has entries.
pub proof fn lemma_index_of_len(entries: Seq<(u128, u8)>)
    requires
        distinct_uuids(entries),
    ensures
        index_of(entries).dom().finite(),
        index_of(entries).dom().len() == entries.len(),
    decreases entries.len(),
{
    lemma_index_of_keys(entries);
    if entries.len() == 0 {
    } else {
        let front = entries.drop_last();
        lemma_distinct_prefix(entries, entries.len() - 1);
        assert(entries.take(entries.len() - 1) == front);
        lemma_index_of_len(front);
        lemma_index_of_keys(front);
        let uuid = entries.last().0;
        if lists(front, uuid) {
            let i = choose|i: int| 0 <= i < front.len() && (#[trigger] front[i]).0 == uuid;
            assert(entries[i].0 == entries[entries.len() - 1].0);
        }
        assert(!index_of(front).contains_key(uuid));
        assert(index_of(entries).dom() == index_of(front).dom().insert(uuid));
    }
}

/// A prefix of a list without repeats has no repeats.
pub proof fn lemma_distinct_prefix(entries: Seq<(u128, u8)>, n: int)
    requires
        distinct_uuids(entries),
        0 <= n <= entries.len(),
    ensures
        distinct_uuids(entries.take(n)),
{
    let front = entries.take(n);
    assert forall|a: int, b: int| 0 <= a < b < front.len() implies (#[trigger] front[a]).0 != (
    #[trigger] front[b]).0 by {
        assert(entries[a].0 != entries[b].0);
    }
}

/// A list has no repeats exactly when no UUID is repeated in it.
pub proof fn lemma_distinct_iff_none_repeated(entries: Seq<(u128, u8)>)
    ensures
        distinct_uuids(entries) <==> forall|uuid: u128| !repeated(entries, uuid),
{
    if !distinct_uuids(entries) {
        let (i, j) = choose|i: int, j: int|
            0 <= i < j < entries.len() && (#[trigger] entries[i]).0 == (#[trigger] entries[j]).0;
        assert(repeated(entries, entries[i].0));
    }
}

/// Adding an entry for a UUID that the list does not name keeps the list
/// without repeats.
pub proof fn lemma_distinct_push(entries: Seq<(u128, u8)>, entry: (u128, u8))
    requires
        distinct_uuids(entries),
        !lists(entries, entry.0),
    ensures
        distinct_uuids(entries.push(entry)),
{
    let longer = entries.push(entry);
    assert forall|a: int, b: int| 0 <= a < b < longer.len() implies (#[trigger] longer[a]).0 != (
    #[trigger] longer[b]).0 by {
        if b < entries.len() {
            assert(entries[a].0 != entries[b].0);
        } else {
            assert(entries[a].0 != entry.0);
        }
    }
}

/// The UUIDs that a finite index holds at one level are finitely many, and no
/// more than the index holds in all.
pub proof fn lemma_count_at_bounded(index: Map<u128, u8>, level: u8)
    requires
        index.dom().finite(),
    ensures
        uuids_at(index, level).finite(),
        count_at(index, level) <= index.dom().len(),
{
    vstd::set_lib::lemma_len_subset(uuids_at(index, level), index.dom());
}

/// Binding a UUID that an index does not hold adds one to the count of the
/// level it is bound to, and leaves the counts of the other levels.
pub proof fn lemma_count_at_insert(index: Map<u128, u8>, uuid: u128, level: u8, at: u8)
    requires
        index.dom().finite(),
        !index.contains_key(uuid),
    ensures
        count_at(index.insert(uuid, level), at) == count_at(index, at) + (if at == level {
            1nat
        } else {
            0nat
        }),
{
    lemma_count_at_bounded(index, at);
    let grown = index.insert(uuid, level);
    if at == level {
        assert(uuids_at(grown, at) == uuids_at(index, at).insert(uuid));
    } else {
        assert(uuids_at(grown, at) == uuids_at(index, at));
    }
}

/// An index that holds nothing holds nothing at any level.
pub proof fn lemma_count_at_empty(level: u8)
    ensures
        count_at(Map::<u128, u8>::empty(), level) == 0,
{
    assert(uuids_at(Map::<u128, u8>::empty(), level) == Set::<u128>::empty());
}

/// The UUIDs of a finite index below a level and one more are those below
/// the level together with those at the level, and the two do not overlap.
pub proof fn lemma_below_step(index: Map<u128, u8>, level: u8)
    requires
        index.dom().finite(),
    ensures
        uuids_below(index, level as nat).finite(),
        uuids_below(index, level as nat + 1).finite(),
        uuids_below(index, level as nat + 1).len() == uuids_below(index, level as nat).len()
            + count_at(index, level),
        uuids_below(index, level as nat + 1).len() <= index.dom().len(),
{
    let below = uuids_below(index, level as nat);
    let here = uuids_at(index, level);
    let both = uuids_below(index, level as nat + 1);
    vstd::set_lib::lemma_len_subset(below, index.dom());
    vstd::set_lib::lemma_len_subset(here, index.dom());
    vstd::set_lib::lemma_len_subset(both, index.dom());
    assert(both == below.union(here));
    assert(below.disjoint(here));
    vstd::set_lib::lemma_set_disjoint_lens(below, here);
}

/// No UUID is below level 0, and every UUID of an index is below 256.
pub proof fn lemma_below_ends(index: Map<u128, u8>)
    ensures
        uuids_below(index, 0) == Set::<u128>::empty(),
        uuids_below(index, 256) == index.dom(),
{
    assert(uuids_below(index, 0) == Set::<u128>::empty());
    assert(uuids_below(index, 256) == index.dom());
}

/// The counts of a distribution for the levels below a bound add up to the
/// number of UUIDs that the index holds below that bound.
pub proof fn lemma_total_below(distribution: Map<u8, usize>, index: Map<u128, u8>, bound: nat)
    requires
        index.dom().finite(),
        is_distribution_of(distribution, index),
        bound <= 256,
    ensures
        total_below(distribution, bound) == uuids_below(index, bound).len(),
    decreases bound,
{
    if bound == 0 {
        lemma_below_ends(index);
    } else {
        let level = (bound - 1) as u8;
        lemma_total_below(distribution, index, (bound - 1) as nat);
        lemma_below_step(index, level);
        assert(distribution.contains_key(level) <==> count_at(index, level) > 0);
        if distribution.contains_key(level) {
            assert(distribution[level] == count_at(index, level));
        }
    }
}

/// The counts of the distribution of a finite index add up to the number of
/// UUIDs that the index holds.
pub proof fn lemma_distribution_total(distribution: Map<u8, usize>, index: Map<u128, u8>)
    requires
        index.dom().finite(),
        is_distribution_of(distribution, index),
    ensures
        total(distribution) == index.dom().len(),
{
    lemma_total_below(distribution, index, 256);
    lemma_below_ends(index);
}

} // verus!

//! Lists of entries that hold the same entries in another order.
//!
//! Two lists are rearrangements of one another when they are equal as
//! multisets. What a list says about UUIDs does not depend on its order.

use crate::model::distinct_uuids;
use crate::model::index_of;
use crate::model::lemma_distinct_iff_none_repeated;
use crate::model::lemma_index_of_entry;
use crate::model::lemma_index_of_keys;
use crate::model::lists;
use crate::model::repeated;
use vstd::prelude::*;

verus! {

/// Whether `entries` stands in ascending order of UUID.
pub open spec fn sorted_by_uuid(entries: Seq<(u128, u8)>) -> bool {
    forall|i: int, j: int|
        0 <= i <= j < entries.len() ==> (#[trigger] entries[i]).0 <= (#[trigger] entries[j]).0
}

/// Whether the UUIDs of `entries` ascend strictly.
pub open spec fn strictly_ascending(entries: Seq<(u128, u8)>) -> bool {
    forall|i: int, j: int|
        0 <= i < j < entries.len() ==> (#[trigger] entries[i]).0 < (#[trigger] entries[j]).0
}

/// An entry that stands at two places of a list counts at least twice in it.
proof fn lemma_two_places_count(entries: Seq<(u128, u8)>, i: int, j: int)
    requires
        0 <= i < j < entries.len(),
        entries[i] == entries[j],
    ensures
        entries.to_multiset().count(entries[i]) >= 2,
{
    broadcast use vstd::seq_lib::to_multiset_remove;
    broadcast use vstd::seq_lib::to_multiset_contains;
    broadcast use vstd::multiset::group_multiset_axioms;

    let rest = entries.remove(i);
    assert(rest[j - 1] == entries[j]);
    assert(rest.contains(entries[i]));
    assert(rest.to_multiset().count(entries[i]) > 0);
}

/// An entry that counts at least twice in a list stands at two places of it.
proof fn lemma_count_two_places(entries: Seq<(u128, u8)>, entry: (u128, u8)) -> (places: (int, int))
    requires
        entries.to_multiset().count(entry) >= 2,
    ensures
        0 <= places.0 < places.1 < entries.len(),
        entries[places.0] == entry,
        entries[places.1] == entry,
{
    broadcast use vstd::seq_lib::to_multiset_remove;
    broadcast use vstd::seq_lib::to_multiset_contains;
    broadcast use vstd::multiset::group_multiset_axioms;

    assert(entries.contains(entry));
    let p = choose|p: int| 0 <= p < entries.len() && entries[p] == entry;
    let rest = entries.remove(p);
    assert(rest.to_multiset().count(entry) > 0);
    assert(rest.contains(entry));
    let q = choose|q: int| 0 <= q < rest.len() && rest[q] == entry;
    if q < p {
        (q, p)
    } else {
        assert(entries[q + 1] == rest[q]);
        (p, q + 1)
    }
}

/// A rearrangement of a list names the UUIDs that the list names.
pub proof fn lemma_rearranged_lists(entries: Seq<(u128, u8)>, other: Seq<(u128, u8)>, uuid: u128)
    requires
        entries.to_multiset() == other.to_multiset(),
        lists(entries, uuid),
    ensures
        lists(other, uuid),
{
    broadcast use vstd::seq_lib::to_multiset_contains;

    let i = choose|i: int| 0 <= i < entries.len() && (#[trigger] entries[i]).0 == uuid;
    assert(entries.contains(entries[i]));
    assert(other.to_multiset().count(entries[i]) > 0);
    assert(other.contains(entries[i]));
    let k = choose|k: int| 0 <= k < other.len() && other[k] == entries[i];
    assert(other[k].0 == uuid);
}

/// A rearrangement of a list repeats the UUIDs that the list repeats.
pub proof fn lemma_rearranged_repeated(entries: Seq<(u128, u8)>, other: Seq<(u128, u8)>, uuid: u128)
    requires
        entries.to_multiset() == other.to_multiset(),
        repeated(entries, uuid),
    ensures
        repeated(other, uuid),
{
    broadcast use vstd::seq_lib::to_multiset_contains;

    let (i, j) = choose|i: int, j: int|
        0 <= i < j < entries.len() && (#[trigger] entries[i]).0 == uuid && (#[trigger] entries[j]).0
            == uuid;
    if entries[i] == entries[j] {
        lemma_two_places_count(entries, i, j);
        let places = lemma_count_two_places(other, entries[i]);
        assert(other[places.0].0 == uuid && other[places.1].0 == uuid);
    } else {
        assert(entries.contains(entries[i]));
        assert(entries.contains(entries[j]));
        assert(other.to_multiset().count(entries[i]) > 0);
        assert(other.to_multiset().count(entries[j]) > 0);
        assert(other.contains(entries[i]));
        assert(other.contains(entries[j]));
        let p = choose|p: int| 0 <= p < other.len() && other[p] == entries[i];
        let q = choose|q: int| 0 <= q < other.len() && other[q] == entries[j];
        if p < q {
            assert(other[p].0 == uuid && other[q].0 == uuid);
        } else {
            assert(other[q].0 == uuid && other[p].0 == uuid);
        }
    }
}

/// A rearrangement of a list without repeats has no repeats.
pub proof fn lemma_rearranged_distinct(entries: Seq<(u128, u8)>, other: Seq<(u128, u8)>)
    requires
        entries.to_multiset() == other.to_multiset(),
        distinct_uuids(entries),
    ensures
        distinct_uuids(other),
{
    lemma_distinct_iff_none_repeated(entries);
    lemma_distinct_iff_none_repeated(other);
    assert forall|uuid: u128| !repeated(other, uuid) by {
        if repeated(other, uuid) {
            lemma_rearranged_repeated(other, entries, uuid);
        }
    }
}

/// The index of a list without repeats does not depend on the order of the
/// list: every rearrangement has no repeats either and describes the same
/// index.
pub proof fn lemma_index_of_rearranged(entries: Seq<(u128, u8)>, other: Seq<(u128, u8)>)
    requires
        entries.to_multiset() == other.to_multiset(),
        distinct_uuids(entries),
    ensures
        distinct_uuids(other),
        index_of(other) == index_of(entries),
{
    broadcast use vstd::seq_lib::to_multiset_contains;

    lemma_rearranged_distinct(entries, other);
    lemma_index_of_keys(entries);
    lemma_index_of_keys(other);
    assert forall|uuid: u128| #[trigger]
        index_of(other).dom().contains(uuid) == index_of(entries).dom().contains(uuid) by {
        if lists(entries, uuid) {
            lemma_rearranged_lists(entries, other, uuid);
        }
        if lists(other, uuid) {
            lemma_rearranged_lists(other, entries, uuid);
        }
    }
    assert forall|uuid: u128| index_of(other).dom().contains(uuid) implies #[trigger] index_of(
        other,
    )[uuid] == index_of(entries)[uuid] by {
        let i = choose|i: int| 0 <= i < entries.len() && (#[trigger] entries[i]).0 == uuid;
        lemma_index_of_entry(entries, i);
        assert(entries.contains(entries[i]));
        assert(other.to_multiset().count(entries[i]) > 0);
        assert(other.contains(entries[i]));
        let k = choose|k: int| 0 <= k < other.len() && other[k] == entries[i];
        lemma_index_of_entry(other, k);
    }
    assert(index_of(other) =~= index_of(entries));
}

/// A list whose UUIDs ascend strictly has no repeats.
pub proof fn lemma_ascending_distinct(entries: Seq<(u128, u8)>)
    requires
        strictly_ascending(entries),
    ensures
        distinct_uuids(entries),
{
}

/// `<[T]>::sort_unstable_by_key` with the UUID as the key: afterwards the
/// list holds the entries it held before, in ascending order of UUID. Which
/// of two entries with one UUID comes first is left open.
#[verifier::external_body]
pub(crate) fn sort_by_uuid(entries: &mut Vec<(u128, u8)>)
    ensures
        final(entries)@.to_multiset() == old(entries)@.to_multiset(),
        sorted_by_uuid(final(entries)@),
{
    entries.sort_unstable_by_key(|entry| entry.0);
}

/// `Vec::shrink_to_fit`: gives back the room that the list does not use; the
/// list itself stays as it is.
#[verifier::external_body]
pub(crate) fn shrink(entries: &mut Vec<(u128, u8)>)
    ensures
        final(entries)@ == old(entries)@,
{
    entries.shrink_to_fit();
}

} // verus!

//! A list of entries split in two: the entries at level 0 and the others.

use crate::model::distinct_uuids;
use crate::model::first_repeat;
use crate::model::least_repeat;
use crate::model::lists;
use crate::model::repeated;
use vstd::prelude::*;

verus! {

/// The entries of `entries` at level 0, in their order.
pub open spec fn zero_level(entries: Seq<(u128, u8)>) -> Seq<(u128, u8)> {
    entries.filter(|entry: (u128, u8)| entry.1 == 0)
}

/// The entries of `entries` at a level above 0, in their order.
pub open spec fn higher_levels(entries: Seq<(u128, u8)>) -> Seq<(u128, u8)> {
    entries.filter(|entry: (u128, u8)| entry.1 != 0)
}

/// Whether `uuid` stands both in an entry at level 0 and in one above it.
pub open spec fn straddles(entries: Seq<(u128, u8)>, uuid: u128) -> bool {
    lists(zero_level(entries), uuid) && lists(higher_levels(entries), uuid)
}

/// Whether `uuid` is the duplicate that a search in three steps comes upon
/// first: the first UUID that the entries at level 0 name again, in their
/// order; where there is none, the smallest UUID that the entries above
/// level 0 repeat; where there is none either, the smallest UUID that stands
/// on both sides.
pub open spec fn split_duplicate(entries: Seq<(u128, u8)>, uuid: u128) -> bool {
    if !distinct_uuids(zero_level(entries)) {
        first_repeat(zero_level(entries), uuid)
    } else if !distinct_uuids(higher_levels(entries)) {
        least_repeat(higher_levels(entries), uuid)
    } else {
        straddles(entries, uuid) && forall|other: u128| straddles(entries, other) ==> uuid <= other
    }
}

/// Whether some entry of `entries` that `keep` accepts is about `uuid`.
pub open spec fn lists_among(
    entries: Seq<(u128, u8)>,
    keep: spec_fn((u128, u8)) -> bool,
    uuid: u128,
) -> bool {
    exists|i: int| 0 <= i < entries.len() && keep(#[trigger] entries[i]) && entries[i].0 == uuid
}

/// Whether two entries of `entries` that `keep` accepts are about `uuid`.
pub open spec fn repeated_among(
    entries: Seq<(u128, u8)>,
    keep: spec_fn((u128, u8)) -> bool,
    uuid: u128,
) -> bool {
    exists|i: int, j: int|
        0 <= i < j < entries.len() && keep(#[trigger] entries[i]) && keep(#[trigger] entries[j])
            && entries[i].0 == uuid && entries[j].0 == uuid
}

/// A list with one more entry names what the list names, and the UUID of
/// that entry.
pub proof fn lemma_lists_push(entries: Seq<(u128, u8)>, entry: (u128, u8), uuid: u128)
    ensures
        lists(entries.push(entry), uuid) <==> (lists(entries, uuid) || entry.0 == uuid),
{
    let longer = entries.push(entry);
    if lists(entries, uuid) {
        let i = choose|i: int| 0 <= i < entries.len() && (#[trigger] entries[i]).0 == uuid;
        assert(longer[i].0 == uuid);
    }
    if entry.0 == uuid {
        assert(longer[entries.len() as int].0 == uuid);
    }
    if lists(longer, uuid) {
        let i = choose|i: int| 0 <= i < longer.len() && (#[trigger] longer[i]).0 == uuid;
        if i < entries.len() {
            assert(entries[i].0 == uuid);
        }
    }
}

/// A list with one more entry repeats what the list repeats, and the UUID
/// of that entry if the list names it.
pub proof fn lemma_repeated_push(entries: Seq<(u128, u8)>, entry: (u128, u8), uuid: u128)
    ensures
        repeated(entries.push(entry), uuid) <==> (repeated(entries, uuid) || (entry.0 == uuid
            && lists(entries, uuid))),
{
    let longer = entries.push(entry);
    if repeated(entries, uuid) {
        let (i, j) = choose|i: int, j: int|
            0 <= i < j < entries.len() && (#[trigger] entries[i]).0 == uuid && (
            #[trigger] entries[j]).0 == uuid;
        assert(longer[i].0 == uuid && longer[j].0 == uuid);
    }
    if entry.0 == uuid && lists(entries, uuid) {
        let i = choose|i: int| 0 <= i < entries.len() && (#[trigger] entries[i]).0 == uuid;
        assert(longer[i].0 == uuid && longer[entries.len() as int].0 == uuid);
    }
    if repeated(longer, uuid) {
        let (i, j) = choose|i: int, j: int|
            0 <= i < j < longer.len() && (#[trigger] longer[i]).0 == uuid && (
            #[trigger] longer[j]).0 == uuid;
        if j < entries.len() {
            assert(entries[i].0 == uuid && entries[j].0 == uuid);
        } else {
            assert(entries[i].0 == uuid);
        }
    }
}

/// What a filtered list names is what the accepted entries of the list name.
pub proof fn lemma_filter_lists(
    entries: Seq<(u128, u8)>,
    keep: spec_fn((u128, u8)) -> bool,
    uuid: u128,
)
    ensures
        lists(entries.filter(keep), uuid) <==> lists_among(entries, keep, uuid),
{
    let kept = entries.filter(keep);
    if lists(kept, uuid) {
        let k = choose|k: int| 0 <= k < kept.len() && (#[trigger] kept[k]).0 == uuid;
        entries.lemma_filter_pred(keep, k);
        assert(kept.contains(kept[k]));
        entries.lemma_filter_contains_rev(keep, kept[k]);
        let i = choose|i: int| 0 <= i < entries.len() && entries[i] == kept[k];
        assert(keep(entries[i]) && entries[i].0 == uuid);
    }
    if lists_among(entries, keep, uuid) {
        let i = choose|i: int|
            0 <= i < entries.len() && keep(#[trigger] entries[i]) && entries[i].0 == uuid;
        entries.lemma_filter_contains(keep, i);
        let k = choose|k: int| 0 <= k < kept.len() && kept[k] == entries[i];
        assert(kept[k].0 == uuid);
    }
}

/// What a filtered list repeats is what the accepted entries of the list
/// repeat.
pub proof fn lemma_filter_repeated(
    entries: Seq<(u128, u8)>,
    keep: spec_fn((u128, u8)) -> bool,
    uuid: u128,
)
    ensures
        repeated(entries.filter(keep), uuid) <==> repeated_among(entries, keep, uuid),
    decreases entries.len(),
{
    if entries.len() == 0 {
        entries.lemma_filter_len(keep);
    } else {
        let front = entries.drop_last();
        let last = entries.last();
        assert(entries == front.push(last));
        front.lemma_filter_push(last, keep);
        lemma_filter_repeated(front, keep, uuid);
        lemma_filter_lists(front, keep, uuid);
        lemma_repeated_push(front.filter(keep), last, uuid);
        if repeated_among(front, keep, uuid) {
            let (i, j) = choose|i: int, j: int|
                0 <= i < j < front.len() && keep(#[trigger] front[i]) && keep(#[trigger] front[j])
                    && front[i].0 == uuid && front[j].0 == uuid;
            assert(keep(entries[i]) && keep(entries[j]) && entries[i].0 == uuid && entries[j].0
                == uuid);
        }
        if keep(last) && last.0 == uuid && lists_among(front, keep, uuid) {
            let i = choose|i: int|
                0 <= i < front.len() && keep(#[trigger] front[i]) && front[i].0 == uuid;
            let j = entries.len() - 1;
            assert(keep(entries[i]) && keep(entries[j]) && entries[i].0 == uuid && entries[j].0
                == uuid);
        }
        if repeated_among(entries, keep, uuid) {
            let (i, j) = choose|i: int, j: int|
                0 <= i < j < entries.len() && keep(#[trigger] entries[i]) && keep(
                    #[trigger] entries[j],
                ) && entries[i].0 == uuid && entries[j].0 == uuid;
            if j < front.len() {
                assert(keep(front[i]) && keep(front[j]) && front[i].0 == uuid && front[j].0
                    == uuid);
            } else {
                assert(keep(front[i]) && front[i].0 == uuid);
            }
        }
    }
}

/// A list has no repeats exactly when neither of its two parts has one and
/// no UUID stands on both sides.
pub proof fn lemma_distinct_split(entries: Seq<(u128, u8)>)
    ensures
        distinct_uuids(entries) <==> (distinct_uuids(zero_level(entries)) && distinct_uuids(
            higher_levels(entries),
        ) && forall|uuid: u128| !straddles(entries, uuid)),
{
    let is_zero = |entry: (u128, u8)| entry.1 == 0;
    let is_higher = |entry: (u128, u8)| entry.1 != 0;
    let zero = zero_level(entries);
    let higher = higher_levels(entries);
    crate::model::lemma_distinct_iff_none_repeated(zero);
    crate::model::lemma_distinct_iff_none_repeated(higher);
    if distinct_uuids(entries) {
        assert forall|uuid: u128| !repeated(zero, uuid) by {
            lemma_filter_repeated(entries, is_zero, uuid);
            if repeated_among(entries, is_zero, uuid) {
                let (i, j) = choose|i: int, j: int|
                    0 <= i < j < entries.len() && is_zero(#[trigger] entries[i]) && is_zero(
                        #[trigger] entries[j],
                    ) && entries[i].0 == uuid && entries[j].0 == uuid;
                assert(entries[i].0 != entries[j].0);
            }
        }
        assert forall|uuid: u128| !repeated(higher, uuid) by {
            lemma_filter_repeated(entries, is_higher, uuid);
            if repeated_among(entries, is_higher, uuid) {
                let (i, j) = choose|i: int, j: int|
                    0 <= i < j < entries.len() && is_higher(#[trigger] entries[i]) && is_higher(
                        #[trigger] entries[j],
                    ) && entries[i].0 == uuid && entries[j].0 == uuid;
                assert(entries[i].0 != entries[j].0);
            }
        }
        assert forall|uuid: u128| !straddles(entries, uuid) by {
            lemma_filter_lists(entries, is_zero, uuid);
            lemma_filter_lists(entries, is_higher, uuid);
            if straddles(entries, uuid) {
                let i = choose|i: int|
                    0 <= i < entries.len() && is_zero(#[trigger] entries[i]) && entries[i].0
                        == uuid;
                let j = choose|j: int|
                    0 <= j < entries.len() && is_higher(#[trigger] entries[j]) && entries[j].0
                        == uuid;
                if i < j {
                    assert(entries[i].0 != entries[j].0);
                } else {
                    assert(entries[j].0 != entries[i].0);
                }
            }
        }
    } else {
        let (i, j) = choose|i: int, j: int|
            0 <= i < j < entries.len() && (#[trigger] entries[i]).0 == (#[trigger] entries[j]).0;
        let uuid = entries[i].0;
        lemma_filter_repeated(entries, is_zero, uuid);
        lemma_filter_repeated(entries, is_higher, uuid);
        lemma_filter_lists(entries, is_zero, uuid);
        lemma_filter_lists(entries, is_higher, uuid);
        if is_zero(entries[i]) && is_zero(entries[j]) {
            assert(repeated_among(entries, is_zero, uuid));
        } else if is_higher(entries[i]) && is_higher(entries[j]) {
            assert(repeated_among(entries, is_higher, uuid));
        } else {
            assert(lists_among(entries, is_zero, uuid));
            assert(lists_among(entries, is_higher, uuid));
            assert(straddles(entries, uuid));
        }
    }
}

} // verus!

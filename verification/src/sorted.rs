//! Entries kept in ascending order of UUID, and searched by halving.

use crate::model::index_of;
use crate::model::least_repeat;
use crate::model::lemma_index_of_entry;
use crate::model::lemma_index_of_keys;
use crate::model::level_in;
use crate::model::lists;
use crate::model::repeated;
use crate::rearrange::sorted_by_uuid;
use crate::rearrange::strictly_ascending;
use vstd::prelude::*;

verus! {

/// Looks for a UUID that two neighbours of a sorted list share. Finds none
/// exactly when the UUIDs ascend strictly; otherwise gives the smallest UUID
/// that the list repeats.
pub(crate) fn first_shared_by_neighbours(entries: &Vec<(u128, u8)>) -> (found: Option<u128>)
    requires
        sorted_by_uuid(entries@),
    ensures
        match found {
            None => strictly_ascending(entries@),
            Some(uuid) => least_repeat(entries@, uuid),
        },
{
    if entries.len() == 0 {
        return None;
    }
    let mut next: usize = 1;
    while next < entries.len()
        invariant
            1 <= next <= entries.len(),
            sorted_by_uuid(entries@),
            strictly_ascending(entries@.take(next as int)),
        decreases entries.len() - next,
    {
        let uuid = entries[next].0;
        if entries[next - 1].0 == uuid {
            proof {
                assert(repeated(entries@, uuid));
                assert forall|other: u128| repeated(entries@, other) implies uuid <= other by {
                    let (a, b) = choose|a: int, b: int|
                        0 <= a < b < entries@.len() && (#[trigger] entries@[a]).0 == other && (
                        #[trigger] entries@[b]).0 == other;
                    if b < next {
                        let front = entries@.take(next as int);
                        assert(front[a].0 < front[b].0);
                    } else {
                        assert(entries@[next as int].0 <= entries@[b].0);
                    }
                }
            }
            return Some(uuid);
        }
        proof {
            let front = entries@.take(next as int);
            let longer = entries@.take(next + 1);
            assert forall|a: int, b: int| 0 <= a < b < longer.len() implies (#[trigger] longer[a]).0
                < (#[trigger] longer[b]).0 by {
                if b < next {
                    assert(front[a].0 < front[b].0);
                } else {
                    assert(entries@[a].0 <= entries@[next - 1].0);
                }
            }
        }
        next += 1;
    }
    proof {
        assert(entries@.take(entries@.len() as int) == entries@);
    }
    None
}

/// The level of `uuid` in the index that a strictly ascending list
/// describes, found by halving the list.
pub(crate) fn find_level(entries: &Vec<(u128, u8)>, uuid: u128) -> (level: Option<u8>)
    requires
        strictly_ascending(entries@),
    ensures
        level == level_in(index_of(entries@), uuid),
{
    let mut low: usize = 0;
    let mut high: usize = entries.len();
    while low < high
        invariant
            low <= high <= entries.len(),
            strictly_ascending(entries@),
            forall|i: int| 0 <= i < low ==> (#[trigger] entries@[i]).0 < uuid,
            forall|i: int| high <= i < entries.len() ==> (#[trigger] entries@[i]).0 > uuid,
        decreases high - low,
    {
        let middle = low + (high - low) / 2;
        let here = entries[middle].0;
        if here == uuid {
            proof {
                lemma_index_of_entry(entries@, middle as int);
            }
            return Some(entries[middle].1);
        } else if here < uuid {
            proof {
                assert forall|i: int| 0 <= i < middle + 1 implies (#[trigger] entries@[i]).0
                    < uuid by {
                    if i < middle {
                        assert(entries@[i].0 < entries@[middle as int].0);
                    }
                }
            }
            low = middle + 1;
        } else {
            proof {
                assert forall|i: int| middle <= i < entries.len() implies (#[trigger] entries@[i]).0
                    > uuid by {
                    if middle < i {
                        assert(entries@[middle as int].0 < entries@[i].0);
                    }
                }
            }
            high = middle;
        }
    }
    proof {
        lemma_index_of_keys(entries@);
        assert(!lists(entries@, uuid));
    }
    None
}

} // verus!

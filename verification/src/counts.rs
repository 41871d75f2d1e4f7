//! Counting the UUIDs of an index level by level.

use crate::fx::fx_map_insert;
use crate::fx::fx_map_with_capacity;
use crate::model::count_at;
use crate::model::distinct_uuids;
use crate::model::index_of;
use crate::model::is_distribution_of;
use crate::model::lemma_count_at_bounded;
use crate::model::lemma_count_at_empty;
use crate::model::lemma_count_at_insert;
use crate::model::lemma_distinct_prefix;
use crate::model::lemma_index_of_keys;
use crate::model::lemma_index_of_len;
use crate::model::lists;
use rustc_hash::FxBuildHasher;
use std::collections::HashMap;
use vstd::prelude::*;

verus! {

broadcast use vstd::std_specs::hash::group_hash_axioms;

/// Whether `counts` holds, for each level, the number of UUIDs of `index` at
/// that level.
pub open spec fn counts_match(counts: Seq<usize>, index: Map<u128, u8>) -> bool {
    &&& counts.len() == 256
    &&& forall|level: u8| (#[trigger] counts[level as int]) == count_at(index, level)
}

/// A table of 256 counts, all of them zero.
pub(crate) fn zero_counts() -> (counts: Vec<usize>)
    ensures
        counts@.len() == 256,
        forall|i: int| 0 <= i < 256 ==> counts@[i] == 0,
{
    let mut counts: Vec<usize> = Vec::with_capacity(256);
    let mut level: usize = 0;
    while level < 256
        invariant
            level <= 256,
            counts@.len() == level,
            forall|i: int| 0 <= i < level ==> counts@[i] == 0,
        decreases 256 - level,
    {
        counts.push(0);
        level += 1;
    }
    counts
}

/// The distribution that a table of counts describes: its levels with a
/// count above zero, each with its count.
pub(crate) fn distribution_from_counts(counts: &Vec<usize>, Ghost(index): Ghost<Map<u128, u8>>) -> (distribution:
    HashMap<u8, usize, FxBuildHasher>)
    requires
        counts_match(counts@, index),
    ensures
        distribution@.dom().finite(),
        is_distribution_of(distribution@, index),
{
    let mut distribution: HashMap<u8, usize, FxBuildHasher> = fx_map_with_capacity(0);
    let mut next: usize = 0;
    while next < 256
        invariant
            next <= 256,
            counts_match(counts@, index),
            distribution@.dom().finite(),
            forall|level: u8|
                #![trigger distribution@.contains_key(level)]
                #![trigger distribution@[level]]
                {
                    &&& distribution@.contains_key(level) <==> (level < next && count_at(
                        index,
                        level,
                    ) > 0)
                    &&& distribution@.contains_key(level) ==> distribution@[level] == count_at(
                        index,
                        level,
                    )
                },
        decreases 256 - next,
    {
        let count = counts[next];
        let level = next as u8;
        assert(counts@[level as int] == count_at(index, level));
        if count > 0 {
            fx_map_insert(&mut distribution, level, count);
        }
        next += 1;
    }
    distribution
}

/// The counts, level by level, of the index that `entries` describes.
pub(crate) fn count_entries(entries: &Vec<(u128, u8)>) -> (counts: Vec<usize>)
    requires
        distinct_uuids(entries@),
    ensures
        counts_match(counts@, index_of(entries@)),
{
    let mut counts = zero_counts();
    proof {
        assert forall|level: u8| (#[trigger] counts@[level as int]) == count_at(
            index_of(entries@.take(0)),
            level,
        ) by {
            lemma_count_at_empty(level);
        }
    }
    let mut i: usize = 0;
    while i < entries.len()
        invariant
            i <= entries.len(),
            distinct_uuids(entries@),
            counts_match(counts@, index_of(entries@.take(i as int))),
        decreases entries.len() - i,
    {
        let level = entries[i].1;
        let ghost before = entries@.take(i as int);
        let ghost after = entries@.take(i + 1);
        proof {
            lemma_distinct_prefix(entries@, i as int);
            lemma_distinct_prefix(entries@, i + 1);
            lemma_index_of_keys(before);
            lemma_index_of_len(before);
            assert(after.drop_last() == before);
            assert(after.last() == entries@[i as int]);
            if lists(before, entries@[i as int].0) {
                let k = choose|k: int|
                    0 <= k < before.len() && (#[trigger] before[k]).0 == entries@[i as int].0;
                assert(entries@[k].0 == entries@[i as int].0);
            }
            lemma_count_at_bounded(index_of(before), level);
            assert forall|at: u8| (#[trigger] counts@.update(
                level as int,
                (counts@[level as int] + 1) as usize,
            )[at as int]) == count_at(index_of(after), at) by {
                lemma_count_at_insert(index_of(before), entries@[i as int].0, level, at);
            }
        }
        let bumped = counts[level as usize] + 1;
        counts.set(level as usize, bumped);
        i += 1;
    }
    proof {
        assert(entries@.take(entries@.len() as int) == entries@);
    }
    counts
}

} // verus!

//! The index as a list of entries in ascending order of UUID.

use crate::counts::count_entries;
use crate::counts::distribution_from_counts;
use crate::error::StoreError;
use crate::model::distinct_uuids;
use crate::model::index_of;
use crate::model::least_repeat;
use crate::model::lemma_distinct_iff_none_repeated;
use crate::model::lemma_index_of_len;
use crate::model::repeated;
use crate::model::visible;
use crate::rearrange::lemma_index_of_rearranged;
use crate::rearrange::lemma_rearranged_repeated;
use crate::rearrange::shrink;
use crate::rearrange::sort_by_uuid;
use crate::rearrange::strictly_ascending;
use crate::sorted::find_level;
use crate::sorted::first_shared_by_neighbours;
use crate::store::Store;
use rustc_hash::FxBuildHasher;
use std::collections::HashMap;
use vstd::prelude::*;

verus! {

/// An index that keeps its entries sorted and finds a UUID by halving the
/// list. It needs the least memory of all the layouts.
pub struct VecStore {
    entries: Vec<(u128, u8)>,
}

impl View for VecStore {
    type V = Map<u128, u8>;

    closed spec fn view(&self) -> Map<u128, u8> {
        index_of(self.entries@)
    }
}

impl VecStore {
    #[verifier::type_invariant]
    spec fn well_formed(&self) -> bool {
        strictly_ascending(self.entries@)
    }

    /// Builds the index of `entries`. Fails if and only if a UUID stands in
    /// two entries, and then names the smallest such UUID.
    pub fn new(entries: Vec<(u128, u8)>) -> (built: Result<Self, StoreError>)
        ensures
            built is Ok <==> distinct_uuids(entries@),
            match built {
                Ok(store) => store@ == index_of(entries@),
                Err(StoreError::DuplicateUuid(uuid)) => least_repeat(entries@, uuid),
                Err(_) => false,
            },
    {
        let mut sorted = entries;
        sort_by_uuid(&mut sorted);
        match first_shared_by_neighbours(&sorted) {
            Some(uuid) => {
                proof {
                    lemma_rearranged_repeated(sorted@, entries@, uuid);
                    assert forall|other: u128| repeated(entries@, other) implies uuid <= other by {
                        lemma_rearranged_repeated(entries@, sorted@, other);
                    }
                    lemma_distinct_iff_none_repeated(entries@);
                }
                Err(StoreError::DuplicateUuid(uuid))
            },
            None => {
                proof {
                    lemma_index_of_rearranged(sorted@, entries@);
                }
                shrink(&mut sorted);
                Ok(VecStore { entries: sorted })
            },
        }
    }
}

impl Store for VecStore {
    fn get_visibility(&self, uuid: &u128) -> (level: Option<u8>) {
        proof {
            use_type_invariant(self);
        }
        find_level(&self.entries, *uuid)
    }

    fn is_visible(&self, uuid: &u128, mask: u8) -> (seen: bool) {
        match self.get_visibility(uuid) {
            Some(level) => level <= mask,
            None => false,
        }
    }

    fn check_batch(&self, uuids: &[u128], mask: u8) -> (seen: bool) {
        let mut i: usize = 0;
        while i < uuids.len()
            invariant
                i <= uuids.len(),
                forall|k: int| 0 <= k < i ==> visible(self@, #[trigger] uuids@[k], mask),
            decreases uuids.len() - i,
        {
            if !self.is_visible(&uuids[i], mask) {
                return false;
            }
            i += 1;
        }
        true
    }

    fn len(&self) -> (count: usize) {
        proof {
            use_type_invariant(self);
            lemma_index_of_len(self.entries@);
        }
        self.entries.len()
    }

    fn is_empty(&self) -> (empty: bool) {
        proof {
            use_type_invariant(self);
            lemma_index_of_len(self.entries@);
        }
        self.entries.len() == 0
    }

    fn visibility_distribution(&self) -> (distribution: HashMap<u8, usize, FxBuildHasher>) {
        proof {
            use_type_invariant(self);
            lemma_index_of_len(self.entries@);
        }
        let counts = count_entries(&self.entries);
        distribution_from_counts(&counts, Ghost(index_of(self.entries@)))
    }
}

} // verus!

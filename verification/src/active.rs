//! An index of any layout, and the functions that build one.

use crate::algorithm::StoreAlgorithm;
use crate::error::StoreError;
use crate::model::distinct_uuids;
use crate::model::first_repeat;
use crate::model::index_of;
use crate::model::least_repeat;
use crate::partition::split_duplicate;
use crate::store::Store;
use crate::store_fullhash::FullHashStore;
use crate::store_hashmap::HashMapStore;
use crate::store_hybrid::HybridAuthStore;
use crate::store_vecstore::VecStore;
use rustc_hash::FxBuildHasher;
use std::collections::HashMap;
use vstd::prelude::*;

verus! {

/// An index in one of the four layouts. The layout is chosen when the index
/// is built; the queries do not depend on it.
pub enum ActiveStore {
    /// One hash table.
    HashMap(HashMapStore),
    /// A sorted list.
    Vec(VecStore),
    /// A hash set for level 0 and a sorted list.
    Hybrid(HybridAuthStore),
    /// One hash set for each level.
    FullHash(FullHashStore),
}

impl View for ActiveStore {
    type V = Map<u128, u8>;

    open spec fn view(&self) -> Map<u128, u8> {
        match self {
            ActiveStore::HashMap(store) => store@,
            ActiveStore::Vec(store) => store@,
            ActiveStore::Hybrid(store) => store@,
            ActiveStore::FullHash(store) => store@,
        }
    }
}

/// Whether `uuid` is the duplicate that a build in the layout `algorithm`
/// names for `entries`: the hash layouts walk the list and name the first
/// UUID that comes again; the sorted layout names the smallest repeated
/// UUID; the hybrid layout searches its two sides in turn.
pub open spec fn named_duplicate(
    algorithm: StoreAlgorithm,
    entries: Seq<(u128, u8)>,
    uuid: u128,
) -> bool {
    match algorithm {
        StoreAlgorithm::HashMap => first_repeat(entries, uuid),
        StoreAlgorithm::Vec => least_repeat(entries, uuid),
        StoreAlgorithm::Hybrid => split_duplicate(entries, uuid),
        StoreAlgorithm::FullHash => first_repeat(entries, uuid),
    }
}

impl ActiveStore {
    /// The layout of the index.
    pub open spec fn layout(&self) -> StoreAlgorithm {
        match self {
            ActiveStore::HashMap(_) => StoreAlgorithm::HashMap,
            ActiveStore::Vec(_) => StoreAlgorithm::Vec,
            ActiveStore::Hybrid(_) => StoreAlgorithm::Hybrid,
            ActiveStore::FullHash(_) => StoreAlgorithm::FullHash,
        }
    }

    /// The layout of the index.
    pub fn algorithm(&self) -> (algorithm: StoreAlgorithm)
        ensures
            algorithm == self.layout(),
    {
        match self {
            ActiveStore::HashMap(_) => StoreAlgorithm::HashMap,
            ActiveStore::Vec(_) => StoreAlgorithm::Vec,
            ActiveStore::Hybrid(_) => StoreAlgorithm::Hybrid,
            ActiveStore::FullHash(_) => StoreAlgorithm::FullHash,
        }
    }

    /// Builds the index of `entries` in the layout `algorithm`. Fails if and
    /// only if a UUID stands in two entries, and then names the duplicate
    /// that the layout comes upon first.
    pub fn build(algorithm: StoreAlgorithm, entries: Vec<(u128, u8)>) -> (built: Result<
        Self,
        StoreError,
    >)
        ensures
            built is Ok <==> distinct_uuids(entries@),
            match built {
                Ok(store) => store@ == index_of(entries@) && store.layout() == algorithm,
                Err(StoreError::DuplicateUuid(uuid)) => named_duplicate(algorithm, entries@, uuid),
                Err(_) => false,
            },
    {
        match algorithm {
            StoreAlgorithm::HashMap => match HashMapStore::new(entries) {
                Ok(store) => Ok(ActiveStore::HashMap(store)),
                Err(error) => Err(error),
            },
            StoreAlgorithm::Vec => match VecStore::new(entries) {
                Ok(store) => Ok(ActiveStore::Vec(store)),
                Err(error) => Err(error),
            },
            StoreAlgorithm::Hybrid => match HybridAuthStore::new(entries) {
                Ok(store) => Ok(ActiveStore::Hybrid(store)),
                Err(error) => Err(error),
            },
            StoreAlgorithm::FullHash => match FullHashStore::new(entries) {
                Ok(store) => Ok(ActiveStore::FullHash(store)),
                Err(error) => Err(error),
            },
        }
    }

    /// An index in the layout `algorithm` that holds nothing. Every query is
    /// defined on it.
    pub fn empty(algorithm: StoreAlgorithm) -> (store: Self)
        ensures
            store@ == Map::<u128, u8>::empty(),
            store.layout() == algorithm,
    {
        let entries: Vec<(u128, u8)> = Vec::new();
        match ActiveStore::build(algorithm, entries) {
            Ok(store) => store,
            Err(_) => {
                proof {
                    assert(false);
                }
                vstd::pervasive::unreached()
            },
        }
    }
}

impl Store for ActiveStore {
    fn get_visibility(&self, uuid: &u128) -> (level: Option<u8>) {
        match self {
            ActiveStore::HashMap(store) => store.get_visibility(uuid),
            ActiveStore::Vec(store) => store.get_visibility(uuid),
            ActiveStore::Hybrid(store) => store.get_visibility(uuid),
            ActiveStore::FullHash(store) => store.get_visibility(uuid),
        }
    }

    fn is_visible(&self, uuid: &u128, mask: u8) -> (seen: bool) {
        match self {
            ActiveStore::HashMap(store) => store.is_visible(uuid, mask),
            ActiveStore::Vec(store) => store.is_visible(uuid, mask),
            ActiveStore::Hybrid(store) => store.is_visible(uuid, mask),
            ActiveStore::FullHash(store) => store.is_visible(uuid, mask),
        }
    }

    fn check_batch(&self, uuids: &[u128], mask: u8) -> (seen: bool) {
        match self {
            ActiveStore::HashMap(store) => store.check_batch(uuids, mask),
            ActiveStore::Vec(store) => store.check_batch(uuids, mask),
            ActiveStore::Hybrid(store) => store.check_batch(uuids, mask),
            ActiveStore::FullHash(store) => store.check_batch(uuids, mask),
        }
    }

    fn len(&self) -> (count: usize) {
        match self {
            ActiveStore::HashMap(store) => store.len(),
            ActiveStore::Vec(store) => store.len(),
            ActiveStore::Hybrid(store) => store.len(),
            ActiveStore::FullHash(store) => store.len(),
        }
    }

    fn is_empty(&self) -> (empty: bool) {
        match self {
            ActiveStore::HashMap(store) => store.is_empty(),
            ActiveStore::Vec(store) => store.is_empty(),
            ActiveStore::Hybrid(store) => store.is_empty(),
            ActiveStore::FullHash(store) => store.is_empty(),
        }
    }

    fn visibility_distribution(&self) -> (distribution: HashMap<u8, usize, FxBuildHasher>) {
        match self {
            ActiveStore::HashMap(store) => store.visibility_distribution(),
            ActiveStore::Vec(store) => store.visibility_distribution(),
            ActiveStore::Hybrid(store) => store.visibility_distribution(),
            ActiveStore::FullHash(store) => store.visibility_distribution(),
        }
    }
}

/// Builds the index of `entries` in the default layout, one hash table.
/// Fails if and only if a UUID stands in two entries, and then names the
/// first UUID, in the order of the list, that an entry names again.
pub fn build_store(entries: Vec<(u128, u8)>) -> (built: Result<ActiveStore, StoreError>)
    ensures
        built is Ok <==> distinct_uuids(entries@),
        match built {
            Ok(store) => store@ == index_of(entries@) && store.layout() == StoreAlgorithm::HashMap,
            Err(StoreError::DuplicateUuid(uuid)) => first_repeat(entries@, uuid),
            Err(_) => false,
        },
{
    ActiveStore::build(StoreAlgorithm::HashMap, entries)
}

/// Builds the index of `entries` as one hash table.
pub fn build_hashmap_store(entries: Vec<(u128, u8)>) -> (built: Result<HashMapStore, StoreError>)
    ensures
        built is Ok <==> distinct_uuids(entries@),
        match built {
            Ok(store) => store@ == index_of(entries@),
            Err(StoreError::DuplicateUuid(uuid)) => first_repeat(entries@, uuid),
            Err(_) => false,
        },
{
    HashMapStore::new(entries)
}

/// Builds the index of `entries` as a sorted list.
pub fn build_vec_store(entries: Vec<(u128, u8)>) -> (built: Result<VecStore, StoreError>)
    ensures
        built is Ok <==> distinct_uuids(entries@),
        match built {
            Ok(store) => store@ == index_of(entries@),
            Err(StoreError::DuplicateUuid(uuid)) => least_repeat(entries@, uuid),
            Err(_) => false,
        },
{
    VecStore::new(entries)
}

/// Builds the index of `entries` as a hash set for level 0 and a sorted
/// list.
pub fn build_hybrid_store(entries: Vec<(u128, u8)>) -> (built: Result<HybridAuthStore, StoreError>)
    ensures
        built is Ok <==> distinct_uuids(entries@),
        match built {
            Ok(store) => store@ == index_of(entries@),
            Err(StoreError::DuplicateUuid(uuid)) => split_duplicate(entries@, uuid),
            Err(_) => false,
        },
{
    HybridAuthStore::new(entries)
}

/// Builds the index of `entries` as one hash set for each level.
pub fn build_fullhash_store(entries: Vec<(u128, u8)>) -> (built: Result<FullHashStore, StoreError>)
    ensures
        built is Ok <==> distinct_uuids(entries@),
        match built {
            Ok(store) => store@ == index_of(entries@),
            Err(StoreError::DuplicateUuid(uuid)) => first_repeat(entries@, uuid),
            Err(_) => false,
        },
{
    FullHashStore::new(entries)
}

} // verus!

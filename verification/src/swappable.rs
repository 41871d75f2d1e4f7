//! A handle to the index in use, which can be replaced while it is read.

use crate::active::ActiveStore;
use crate::model::all_visible;
use crate::model::is_distribution_of;
use crate::shared::lock_new;
use crate::shared::lock_read;
use crate::shared::lock_write;
use crate::store::Store;
use rustc_hash::FxBuildHasher;
use std::collections::HashMap;
use std::sync::Arc;
use std::sync::RwLock;
use vstd::prelude::*;

verus! {

/// A handle to one index that many threads share. Clones of a handle share
/// the same index: a swap through one is seen through all.
///
/// A query takes the index that is installed when it begins, and answers
/// from that index alone; the index stays alive until the last query on it
/// has ended, also when another one is installed meanwhile. The lock is
/// held only while the pointer to the index is read or written.
#[derive(Clone)]
pub struct SwappableStore {
    inner: Arc<RwLock<Arc<ActiveStore>>>,
}

impl SwappableStore {
    /// A handle to `store`.
    pub fn new(store: ActiveStore) -> (handle: Self) {
        SwappableStore { inner: Arc::new(lock_new(Arc::new(store))) }
    }

    /// Installs `new_store` in place of the index in use. Queries that begin
    /// after the call has returned are answered from `new_store`, or from an
    /// index that was installed later still.
    pub fn swap(&self, new_store: ActiveStore) {
        lock_write(&self.inner, Arc::new(new_store));
    }

    /// Installs an empty index of the layout of the index in use.
    pub fn clear(&self) {
        let current = self.snapshot();
        let empty = ActiveStore::empty(current.algorithm());
        self.swap(empty);
    }

    /// The index in use at the time of the call. It does not change while
    /// the caller holds it.
    pub fn snapshot(&self) -> (current: Arc<ActiveStore>) {
        lock_read(&self.inner)
    }

    /// The level of `uuid` in the index in use.
    pub fn get_visibility(&self, uuid: &u128) -> (level: Option<u8>) {
        let current = self.snapshot();
        current.get_visibility(uuid)
    }

    /// Whether `uuid` is visible under `mask` in the index in use.
    pub fn is_visible(&self, uuid: &u128, mask: u8) -> (seen: bool) {
        let current = self.snapshot();
        current.is_visible(uuid, mask)
    }

    /// Whether all of `uuids` are visible under `mask` in the index in use.
    /// All of them are looked up in one and the same index.
    pub fn check_batch(&self, uuids: &[u128], mask: u8) -> (seen: bool)
        ensures
            exists|index: Map<u128, u8>| seen == all_visible(index, uuids@, mask),
            uuids@.len() == 0 ==> seen,
    {
        let current = self.snapshot();
        let seen = current.check_batch(uuids, mask);
        assert(seen == all_visible(current@, uuids@, mask));
        seen
    }

    /// The number of UUIDs in the index in use.
    pub fn len(&self) -> (count: usize) {
        let current = self.snapshot();
        current.len()
    }

    /// Whether the index in use holds no UUID.
    pub fn is_empty(&self) -> (empty: bool) {
        let current = self.snapshot();
        current.is_empty()
    }

    /// The distribution of the index in use over the levels. All the counts
    /// are taken from one and the same index.
    pub fn visibility_distribution(&self) -> (distribution: HashMap<u8, usize, FxBuildHasher>)
        ensures
            exists|index: Map<u128, u8>|
                index.dom().finite() && is_distribution_of(distribution@, index),
    {
        let current = self.snapshot();
        let distribution = current.visibility_distribution();
        assert(current@.dom().finite() && is_distribution_of(distribution@, current@));
        distribution
    }
}

} // verus!

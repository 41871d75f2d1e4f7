//! What every index offers, whatever its layout in memory.

use crate::model::all_visible;
use crate::model::is_distribution_of;
use crate::model::level_in;
use crate::model::visible;
use rustc_hash::FxBuildHasher;
use std::collections::HashMap;
use vstd::prelude::*;

verus! {

/// How the UUIDs of an index divide between level 0 and the levels above.
#[derive(Debug, Clone, Copy, PartialEq, Eq, Structural)]
pub struct DistributionStats {
    /// The number of UUIDs in all.
    pub total_uuids: usize,
    /// The number of UUIDs at level 0.
    pub level_0_count: usize,
    /// The number of UUIDs above level 0.
    pub higher_levels_count: usize,
}

/// An immutable index from UUIDs to visibility levels. Its view is the finite
/// map that it holds; every query is answered from that map alone.
pub trait Store: View<V = Map<u128, u8>> + Send + Sync {
    /// The level of `uuid`, if the index holds it.
    fn get_visibility(&self, uuid: &u128) -> (level: Option<u8>)
        ensures
            level == level_in(self@, *uuid),
    ;

    /// Whether the index holds `uuid` at a level of at most `mask`.
    fn is_visible(&self, uuid: &u128, mask: u8) -> (seen: bool)
        ensures
            seen == visible(self@, *uuid, mask),
    ;

    /// Whether all of `uuids` are visible under `mask`; true of no UUIDs.
    fn check_batch(&self, uuids: &[u128], mask: u8) -> (seen: bool)
        ensures
            seen == all_visible(self@, uuids@, mask),
    ;

    /// The number of UUIDs that the index holds.
    fn len(&self) -> (count: usize)
        ensures
            self@.dom().finite(),
            count == self@.dom().len(),
    ;

    /// Whether the index holds no UUID.
    fn is_empty(&self) -> (empty: bool)
        ensures
            self@.dom().finite(),
            empty == (self@.dom().len() == 0),
    ;

    /// For each level at which the index holds a UUID, the number of UUIDs at
    /// that level; nothing for the other levels.
    fn visibility_distribution(&self) -> (distribution: HashMap<u8, usize, FxBuildHasher>)
        ensures
            self@.dom().finite(),
            distribution@.dom().finite(),
            is_distribution_of(distribution@, self@),
    ;
}

} // verus!

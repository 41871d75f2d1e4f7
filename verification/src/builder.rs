//! Choosing a layout, then loading an index in it.

use crate::active::ActiveStore;
use crate::algorithm::StoreAlgorithm;
use crate::error::StoreError;
use crate::loader::index_view;
use crate::loader::is_load_of;
use crate::loader::load_with;
use vstd::prelude::*;

verus! {

/// A builder of indexes: it holds the layout that the next index will have.
#[derive(Debug, Clone, Copy)]
pub struct StoreBuilder {
    algorithm: StoreAlgorithm,
}

impl View for StoreBuilder {
    type V = StoreAlgorithm;

    closed spec fn view(&self) -> StoreAlgorithm {
        self.algorithm
    }
}

impl StoreBuilder {
    /// A builder for the default layout, one hash table.
    pub fn new() -> (builder: Self)
        ensures
            builder@ == StoreAlgorithm::HashMap,
    {
        StoreBuilder { algorithm: StoreAlgorithm::default() }
    }

    /// The builder, set to the layout `algorithm`.
    pub fn algorithm(self, algorithm: StoreAlgorithm) -> (builder: Self)
        ensures
            builder@ == algorithm,
    {
        StoreBuilder { algorithm }
    }

    /// Loads CSV text into an index of the chosen layout.
    pub fn load_from_csv(self, text: &[u8]) -> (built: Result<ActiveStore, StoreError>)
        ensures
            is_load_of(index_view(built), text@, self@),
            built matches Ok(store) ==> store.layout() == self@,
    {
        load_with(self.algorithm, text)
    }

    /// The layout that the builder is set to.
    pub fn get_algorithm(&self) -> (algorithm: StoreAlgorithm)
        ensures
            algorithm == self@,
    {
        self.algorithm
    }
}

impl Default for StoreBuilder {
    fn default() -> (builder: Self)
        ensures
            builder@ == StoreAlgorithm::HashMap,
    {
        StoreBuilder::new()
    }
}

} // verus!

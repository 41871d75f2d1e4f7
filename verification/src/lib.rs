//! An in-process lookup engine for the visibility of objects.
//!
//! Every object has a 128-bit UUID and one visibility level from 0 to 255. A
//! request carries a visibility mask and sees an object if and only if the
//! object's level is at most the mask.
//!
//! An index is built once, from a list of entries or from CSV text, and is
//! never changed afterwards. The index in use is replaced as a whole through
//! a [`SwappableStore`]; the decisions of the scheduler that reloads the
//! data are in [`scheduler`] and [`reload`].

pub mod active;
pub mod algorithm;
pub mod builder;
pub mod counts;
pub mod error;
pub mod fx;
pub mod laws;
pub mod level_text;
pub mod loader;
pub mod model;
pub mod partition;
pub mod rearrange;
pub mod records;
pub mod reload;
pub mod scheduler;
pub mod shared;
pub mod sorted;
pub mod source;
pub mod store;
pub mod store_fullhash;
pub mod store_hashmap;
pub mod store_hybrid;
pub mod store_vecstore;
pub mod swappable;
pub mod text;
pub mod uuid_text;

pub use active::build_fullhash_store;
pub use active::build_hashmap_store;
pub use active::build_hybrid_store;
pub use active::build_store;
pub use active::build_vec_store;
pub use active::ActiveStore;
pub use algorithm::StoreAlgorithm;
pub use builder::StoreBuilder;
pub use error::FormatIssue;
pub use error::StoreError;
pub use loader::load_from_csv;
pub use loader::load_fullhash_from_csv;
pub use loader::load_hashmap_from_csv;
pub use loader::load_hybrid_from_csv;
pub use loader::load_vec_from_csv;
pub use reload::check_source_changed;
pub use reload::LoadError;
pub use reload::ReloadState;
pub use scheduler::FailureAction;
pub use scheduler::FailureResponse;
pub use scheduler::FailureTracker;
pub use source::DataSource;
pub use source::SourceMetadata;
pub use store::DistributionStats;
pub use store::Store;
pub use store_fullhash::FullHashStore;
pub use store_hashmap::HashMapStore;
pub use store_hybrid::HybridAuthStore;
pub use store_vecstore::VecStore;
pub use swappable::SwappableStore;

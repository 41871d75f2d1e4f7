//! Hash maps and hash sets that hash with `rustc_hash`'s Fx algorithm.
//!
//! The collections are those of the standard library; only the hasher comes
//! from `rustc_hash`. They are reached through the functions below, whose
//! contracts are stated over the collections' views and are not proved here.

use rustc_hash::FxBuildHasher;
use std::collections::HashMap;
use std::collections::HashSet;
use std::hash::Hash;
use vstd::prelude::*;
use vstd::std_specs::hash::obeys_key_model;

verus! {

/// `rustc_hash::FxBuildHasher`, the builder of Fx hashers. It has no state:
/// every hasher it builds starts from the same fixed seed.
#[verifier::external_type_specification]
#[verifier::external_body]
pub struct ExFxBuildHasher(FxBuildHasher);

/// `HashMap::with_capacity_and_hasher` with an `FxBuildHasher`: a map that
/// holds nothing, with room for `capacity` entries.
#[verifier::external_body]
pub(crate) fn fx_map_with_capacity<K, V>(capacity: usize) -> (created: HashMap<K, V, FxBuildHasher>)
    ensures
        created@ == (Map::<K, V>::empty()),
{
    HashMap::with_capacity_and_hasher(capacity, FxBuildHasher)
}

/// `HashMap::insert` on an Fx map: `key` is bound to `value` afterwards, every
/// other binding is kept, and the value that `key` was bound to before, if
/// any, is returned.
#[verifier::external_body]
pub(crate) fn fx_map_insert<K: Eq + Hash, V>(
    map: &mut HashMap<K, V, FxBuildHasher>,
    key: K,
    value: V,
) -> (previous: Option<V>)
    requires
        obeys_key_model::<K>(),
    ensures
        final(map)@ == old(map)@.insert(key, value),
        previous == (if old(map)@.contains_key(key) {
            Some(old(map)@[key])
        } else {
            None
        }),
{
    map.insert(key, value)
}

/// `HashMap::get` on an Fx map: the value that `key` is bound to, if any.
#[verifier::external_body]
pub(crate) fn fx_map_get<'a, K: Eq + Hash, V>(map: &'a HashMap<K, V, FxBuildHasher>, key: &K) -> (found:
    Option<&'a V>)
    requires
        obeys_key_model::<K>(),
    ensures
        found == (if map@.contains_key(*key) {
            Some(&map@[*key])
        } else {
            None
        }),
{
    map.get(key)
}

/// `HashMap::len` on an Fx map: the number of keys that are bound.
#[verifier::external_body]
pub(crate) fn fx_map_len<K, V>(map: &HashMap<K, V, FxBuildHasher>) -> (count: usize)
    ensures
        count == map@.dom().len(),
{
    map.len()
}

/// `HashSet::with_hasher` with an `FxBuildHasher`: a set without members.
#[verifier::external_body]
pub(crate) fn fx_set_new<K>() -> (created: HashSet<K, FxBuildHasher>)
    ensures
        created@ == Set::<K>::empty(),
{
    HashSet::with_hasher(FxBuildHasher)
}

/// `HashSet::insert` on an Fx set: `key` is a member afterwards, every other
/// member is kept, and the result says whether `key` was absent before.
#[verifier::external_body]
pub(crate) fn fx_set_insert<K: Eq + Hash>(set: &mut HashSet<K, FxBuildHasher>, key: K) -> (fresh: bool)
    requires
        obeys_key_model::<K>(),
    ensures
        final(set)@ == old(set)@.insert(key),
        fresh == !old(set)@.contains(key),
{
    set.insert(key)
}

/// `HashSet::contains` on an Fx set: whether `key` is a member.
#[verifier::external_body]
pub(crate) fn fx_set_contains<K: Eq + Hash>(set: &HashSet<K, FxBuildHasher>, key: &K) -> (present: bool)
    requires
        obeys_key_model::<K>(),
    ensures
        present == set@.contains(*key),
{
    set.contains(key)
}

/// `HashSet::len` on an Fx set: the number of members.
#[verifier::external_body]
pub(crate) fn fx_set_len<K>(set: &HashSet<K, FxBuildHasher>) -> (count: usize)
    ensures
        count == set@.len(),
{
    set.len()
}

} // verus!

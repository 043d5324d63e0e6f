use fnv::FnvHashMap;
use fnv::FnvHasher;
use std::hash::BuildHasherDefault;
use vstd::prelude::*;

verus! {

#[verifier::external_type_specification]
#[verifier::external_body]
pub struct ExFnvHasher(FnvHasher);

#[verifier::external_type_specification]
#[verifier::external_body]
#[verifier::reject_recursive_types(H)]
pub struct ExBuildHasherDefault<H>(BuildHasherDefault<H>);

/// A hash map with the FNV hasher, keyed by the numbers of markers and
/// conditions.
pub type IdMap<V> = FnvHashMap<usize, V>;

/// What an `IdMap` without entries holds.
pub open spec fn no_entries<V>() -> Map<usize, V> {
    Map::empty()
}

/// Calls `FnvHashMap::default`: a hash map with the FNV hasher, which
/// starts from a fixed state. The contract claims that the map is empty.
#[verifier::external_body]
pub(crate) fn new_map<V>() -> (table: IdMap<V>)
    ensures
        table@ == no_entries::<V>(),
{
    FnvHashMap::default()
}

/// Calls `HashMap::insert`. The FNV hasher is a pure function of the key's
/// bytes, so the map finds a key again. The contract claims that `key` now
/// leads to `value` and that all other keys are as before.
#[verifier::external_body]
pub(crate) fn map_insert<V>(map: &mut IdMap<V>, key: usize, value: V)
    ensures
        final(map)@ == old(map)@.insert(key, value),
{
    map.insert(key, value);
}

/// Calls `HashMap::get`. The contract claims that the value stored under
/// `key` comes back, and `None` when there is none.
#[verifier::external_body]
pub(crate) fn map_get<'m, V>(map: &'m IdMap<V>, key: usize) -> (value: Option<&'m V>)
    ensures
        value == (if map@.contains_key(key) {
            Some(&map@[key])
        } else {
            None
        }),
{
    map.get(&key)
}

/// Calls `HashMap::contains_key`. The contract claims that it tells whether
/// a value is stored under `key`.
#[verifier::external_body]
pub(crate) fn map_contains_key<V>(map: &IdMap<V>, key: usize) -> (found: bool)
    ensures
        found == map@.contains_key(key),
{
    map.contains_key(&key)
}

/// Calls `HashMap::remove`. The contract claims that the value stored under
/// `key` comes back, `None` when there was none, and that afterwards
/// nothing is stored under `key`, all other keys being as before.
#[verifier::external_body]
pub(crate) fn map_remove<V>(map: &mut IdMap<V>, key: usize) -> (value: Option<V>)
    ensures
        final(map)@ == old(map)@.remove(key),
        value == (if old(map)@.contains_key(key) {
            Some(old(map)@[key])
        } else {
            None
        }),
{
    map.remove(&key)
}

} // verus!

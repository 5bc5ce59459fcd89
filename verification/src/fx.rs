//! Maps and sets of panels, hashed by `rustc_hash`.

use rustc_hash::{FxHashMap, FxHashSet};
use vstd::prelude::*;

verus! {

/// The hasher of `rustc_hash`.
#[verifier::external_type_specification]
#[verifier::external_body]
pub struct ExFxBuildHasher(rustc_hash::FxBuildHasher);

/// `FxHashMap::default` makes a map with nothing in it.
#[verifier::external_body]
pub(crate) fn empty_map() -> (map: FxHashMap<u128, u64>)
    ensures
        (map@ == Map::<u128, u64>::empty()),
{
    FxHashMap::default()
}

/// `FxHashMap::get`, copied out: the value under a key, where there is one.
#[verifier::external_body]
pub(crate) fn map_get(map: &FxHashMap<u128, u64>, key: u128) -> (value: Option<u64>)
    ensures
        value == (if map@.contains_key(key) {
            Some(map@[key])
        } else {
            None
        }),
{
    map.get(&key).copied()
}

/// `FxHashMap::insert` puts a value under a key, in place of one that is
/// there.
#[verifier::external_body]
pub(crate) fn map_insert(map: &mut FxHashMap<u128, u64>, key: u128, value: u64)
    ensures
        final(map)@ == old(map)@.insert(key, value),
{
    map.insert(key, value);
}

/// `FxHashMap::remove` takes a key out.
#[verifier::external_body]
pub(crate) fn map_remove(map: &mut FxHashMap<u128, u64>, key: u128)
    ensures
        final(map)@ == old(map)@.remove(key),
{
    map.remove(&key);
}

/// `FxHashSet::default` makes a set with nothing in it.
#[verifier::external_body]
pub(crate) fn empty_set() -> (set: FxHashSet<u128>)
    ensures
        set@ == Set::<u128>::empty(),
{
    FxHashSet::default()
}

/// `FxHashSet::contains` says whether a value is in the set.
#[verifier::external_body]
pub(crate) fn set_contains(set: &FxHashSet<u128>, value: u128) -> (b: bool)
    ensures
        b == set@.contains(value),
{
    set.contains(&value)
}

/// `FxHashSet::insert` adds a value.
#[verifier::external_body]
pub(crate) fn set_insert(set: &mut FxHashSet<u128>, value: u128)
    ensures
        final(set)@ == old(set)@.insert(value),
{
    set.insert(value);
}

/// `FxHashSet::remove` takes a value out.
#[verifier::external_body]
pub(crate) fn set_remove(set: &mut FxHashSet<u128>, value: u128)
    ensures
        final(set)@ == old(set)@.remove(value),
{
    set.remove(&value);
}

} // verus!

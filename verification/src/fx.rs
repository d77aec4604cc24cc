//! The fast hash tables of `rustc_hash`, keyed by an integer id.
//!
//! `FxHashMap` and `FxHashSet` are the standard tables with `rustc_hash`'s hasher, which has no
//! seed. The functions here call their methods; what each states is what the standard library
//! documents of the method.
use crate::idmap::{distinct_ids, entries_map};
use rustc_hash::{FxBuildHasher, FxHashMap, FxHashSet};
use vstd::prelude::*;

verus! {

/// The hasher of `rustc_hash`'s tables.
#[verifier::external_type_specification]
#[verifier::external_body]
pub struct ExFxBuildHasher(FxBuildHasher);

/// Calls `FxHashMap::insert`, which puts the value under the key and hands back the one that was
/// there.
#[verifier::external_body]
pub(crate) fn fx_insert<V>(map: &mut FxHashMap<u64, V>, key: u64, value: V) -> (r: Option<V>)
    ensures
        final(map)@ == old(map)@.insert(key, value),
        r == (if old(map)@.contains_key(key) { Some(old(map)@[key]) } else { None::<V> }),
{
    map.insert(key, value)
}

/// Calls `FxHashMap::remove`, which takes the key out and hands back its value.
#[verifier::external_body]
pub(crate) fn fx_remove<V>(map: &mut FxHashMap<u64, V>, key: u64) -> (r: Option<V>)
    ensures
        final(map)@ == old(map)@.remove(key),
        r == (if old(map)@.contains_key(key) { Some(old(map)@[key]) } else { None::<V> }),
{
    map.remove(&key)
}

/// Calls `FxHashMap::get`, which looks the key up.
#[verifier::external_body]
pub(crate) fn fx_get<V>(map: &FxHashMap<u64, V>, key: u64) -> (r: Option<&V>)
    ensures
        match r {
            Some(v) => map@.contains_key(key) && *v == map@[key],
            None => !map@.contains_key(key),
        },
{
    map.get(&key)
}

/// Calls `FxHashMap::len`, the number of keys.
#[verifier::external_body]
pub(crate) fn fx_len<V>(map: &FxHashMap<u64, V>) -> (n: usize)
    ensures
        n == map@.len(),
{
    map.len()
}

/// Calls `FxHashMap::keys` and gathers what it walks over: each key once, in an order that is
/// left open.
#[verifier::external_body]
pub(crate) fn fx_keys<V>(map: &FxHashMap<u64, V>) -> (r: Vec<u64>)
    ensures
        r@.to_set() == map@.dom(),
        r@.no_duplicates(),
{
    map.keys().copied().collect()
}

/// Calls `FxHashMap::drain`, which empties the map and hands out each key once, with its value, in
/// an order that is left open.
#[verifier::external_body]
pub(crate) fn fx_drain<V>(map: &mut FxHashMap<u64, V>) -> (r: Vec<(u64, V)>)
    ensures
        (final(map)@ == Map::<u64, V>::empty()),
        distinct_ids(r@),
        entries_map(r@) == old(map)@,
{
    map.drain().collect()
}

/// Calls `FxHashSet::insert`, which adds the value and says whether it was new.
#[verifier::external_body]
pub(crate) fn fx_set_insert(set: &mut FxHashSet<u64>, value: u64) -> (r: bool)
    ensures
        final(set)@ == old(set)@.insert(value),
        r == !old(set)@.contains(value),
{
    set.insert(value)
}

/// Calls `FxHashSet::drain`, which empties the set and hands out each value once, in an order
/// that is left open.
#[verifier::external_body]
pub(crate) fn fx_set_drain(set: &mut FxHashSet<u64>) -> (r: Vec<u64>)
    ensures
        final(set)@ == Set::<u64>::empty(),
        r@.to_set() == old(set)@,
        r@.no_duplicates(),
{
    set.drain().collect()
}

} // verus!

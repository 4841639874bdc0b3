//! Hash maps keyed by integers, hashed with `rustc_hash`.

use rustc_hash::{FxBuildHasher, FxHashMap};
use std::hash::Hash;
use vstd::prelude::*;

verus! {

/// The hasher of `rustc_hash`.
#[verifier::external_type_specification]
#[verifier::external_body]
pub struct ExFxBuildHasher(FxBuildHasher);

/// A key made of integers alone: std compares two of them by value and hashes
/// equal ones alike.
pub(crate) trait IntegerKey: Eq + Hash {}

impl IntegerKey for u32 {}

impl IntegerKey for (bool, u128) {}

/// Calls `std::collections::HashMap::get` on a map hashed with `FxBuildHasher`:
/// the value that the map holds under the key, or nothing where it holds none.
#[verifier::external_body]
pub(crate) fn get<'a, K: IntegerKey, V>(map: &'a FxHashMap<K, V>, key: &K) -> (r: Option<&'a V>)
    ensures
        match r {
            Some(v) => map@.contains_key(*key) && *v == map@[*key],
            None => !map@.contains_key(*key),
        },
{
    map.get(key)
}

/// Calls `std::collections::HashMap::insert` on a map hashed with
/// `FxBuildHasher`: afterwards the map holds the value under the key, and what
/// stood there before is handed back.
#[verifier::external_body]
pub(crate) fn insert<K: IntegerKey, V>(map: &mut FxHashMap<K, V>, key: K, value: V) -> (r: Option<
    V,
>)
    ensures
        final(map)@ == old(map)@.insert(key, value),
        match r {
            Some(v) => old(map)@.contains_key(key) && v == old(map)@[key],
            None => !old(map)@.contains_key(key),
        },
{
    map.insert(key, value)
}

/// Calls `std::collections::HashMap::remove` on a map hashed with
/// `FxBuildHasher`: afterwards the map holds nothing under the key, and what
/// stood there before is handed back.
#[verifier::external_body]
pub(crate) fn remove<K: IntegerKey, V>(map: &mut FxHashMap<K, V>, key: &K) -> (r: Option<V>)
    ensures
        final(map)@ == old(map)@.remove(*key),
        match r {
            Some(v) => old(map)@.contains_key(*key) && v == old(map)@[*key],
            None => !old(map)@.contains_key(*key),
        },
{
    map.remove(key)
}

/// Calls `std::collections::HashMap::len` on a map hashed with `FxBuildHasher`:
/// the number of keys that the map holds.
#[verifier::external_body]
pub(crate) fn len<K: IntegerKey, V>(map: &FxHashMap<K, V>) -> (r: usize)
    ensures
        r == map@.dom().len(),
{
    map.len()
}

} // verus!

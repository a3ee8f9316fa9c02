//! The hashed collections of `ahash` that this library keeps its tag names and
//! its manifest in. Verus sees nothing inside them: what a collection holds has
//! a name, and each method that the library calls says over that name what the
//! method does.

use vstd::prelude::*;
use ahash::{AHashMap, AHashSet};

verus! {

/// `ahash::RandomState`, opaque to the verifier.
#[verifier::external_type_specification]
#[verifier::external_body]
pub struct ExRandomState(ahash::RandomState);

/// `ahash::AHashSet`, opaque to the verifier.
#[verifier::external_type_specification]
#[verifier::external_body]
#[verifier::reject_recursive_types(T)]
#[verifier::reject_recursive_types(S)]
pub struct ExAHashSet<T, S>(ahash::AHashSet<T, S>);

/// `ahash::AHashMap`, opaque to the verifier.
#[verifier::external_type_specification]
#[verifier::external_body]
#[verifier::reject_recursive_types(K)]
#[verifier::reject_recursive_types(V)]
#[verifier::reject_recursive_types(S)]
pub struct ExAHashMap<K, V, S>(ahash::AHashMap<K, V, S>);

/// The byte strings that a set holds.
pub uninterp spec fn set_items(set: AHashSet<Vec<u8>>) -> Set<Seq<u8>>;

/// The keys of a map, each with its value.
pub uninterp spec fn map_entries(map: AHashMap<String, String>) -> Map<Seq<char>, Seq<char>>;

/// `AHashSet::new`: a set that holds nothing.
#[verifier::external_body]
pub(crate) fn new_set() -> (set: AHashSet<Vec<u8>>)
    ensures
        set_items(set) == Set::<Seq<u8>>::empty(),
{
    AHashSet::new()
}

/// `HashSet::insert`, which an `AHashSet` hands on to: afterwards the set
/// holds the item besides what it held.
#[verifier::external_body]
pub(crate) fn set_insert(set: &mut AHashSet<Vec<u8>>, item: Vec<u8>)
    ensures
        set_items(*final(set)) == set_items(*old(set)).insert(item@),
{
    set.insert(item);
}

/// `HashSet::contains`, which an `AHashSet` hands on to: whether the set
/// holds these bytes.
#[verifier::external_body]
pub(crate) fn set_contains(set: &AHashSet<Vec<u8>>, item: &[u8]) -> (found: bool)
    ensures
        found == set_items(*set).contains(item@),
{
    set.contains(item)
}

/// `AHashMap::new`: a map without keys.
#[verifier::external_body]
pub(crate) fn new_map() -> (table: AHashMap<String, String>)
    ensures
        map_entries(table).dom() == Set::<Seq<char>>::empty(),
{
    AHashMap::new()
}

/// `AHashMap::insert`: afterwards the key has this value, whether or not it
/// had one, and every other key is as before.
#[verifier::external_body]
pub(crate) fn map_insert(map: &mut AHashMap<String, String>, key: String, value: String)
    ensures
        map_entries(*final(map)) == map_entries(*old(map)).insert(key@, value@),
{
    map.insert(key, value);
}

/// `AHashMap::remove`: hands out the value of the key, if it has one, and
/// leaves the map without the key.
#[verifier::external_body]
pub(crate) fn map_remove(map: &mut AHashMap<String, String>, key: &str) -> (value: Option<String>)
    ensures
        value is Some <==> map_entries(*old(map)).contains_key(key@),
        value matches Some(v) ==> v@ == map_entries(*old(map))[key@],
        map_entries(*final(map)) == map_entries(*old(map)).remove(key@),
{
    map.remove(key)
}

/// `HashMap::contains_key`, which an `AHashMap` hands on to: whether the key
/// has a value.
#[verifier::external_body]
pub(crate) fn map_contains_key(map: &AHashMap<String, String>, key: &str) -> (found: bool)
    ensures
        found == map_entries(*map).contains_key(key@),
{
    map.contains_key(key)
}

} // verus!

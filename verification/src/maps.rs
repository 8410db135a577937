//! The hash maps of the `ahash` crate, as far as this library uses them:
//! from a text or from a number to a number. What `ahash` does is not
//! verified: the functions here state it.

use ahash::AHashMap;
use ahash::RandomState;
use vstd::prelude::*;

verus! {

/// The hasher state of `ahash`; nothing is said of it.
#[verifier::external_type_specification]
#[verifier::external_body]
pub struct ExRandomState(RandomState);

/// `ahash::AHashMap`, a hash map of std with the hasher of `ahash`.
#[verifier::external_type_specification]
#[verifier::external_body]
#[verifier::reject_recursive_types(K)]
#[verifier::reject_recursive_types(V)]
#[verifier::reject_recursive_types(S)]
pub struct ExAHashMap<K, V, S>(AHashMap<K, V, S>);

/// What a map from texts holds: the number stored under each key.
pub uninterp spec fn text_map_entries(m: AHashMap<String, u64>) -> Map<Seq<char>, u64>;

/// What a map from numbers holds: the number stored under each key.
pub uninterp spec fn id_map_entries(m: AHashMap<u64, u64>) -> Map<u64, u64>;

/// `AHashMap::new`: a map that holds nothing.
#[verifier::external_body]
pub(crate) fn text_map_new() -> (m: AHashMap<String, u64>)
    ensures
        text_map_entries(m).dom() == Set::<Seq<char>>::empty(),
{
    AHashMap::new()
}

/// `AHashMap::insert`: afterwards the key leads to the value, whether or
/// not it led to one before; every other key is as it was.
#[verifier::external_body]
pub(crate) fn text_map_insert(m: &mut AHashMap<String, u64>, key: String, value: u64)
    ensures
        text_map_entries(*final(m)) == text_map_entries(*old(m)).insert(key@, value),
{
    m.insert(key, value);
}

/// `AHashMap::get`: the value that the key leads to, if it leads to one.
#[verifier::external_body]
pub(crate) fn text_map_get(m: &AHashMap<String, u64>, key: &str) -> (r: Option<u64>)
    ensures
        text_map_entries(*m).dom().contains(key@) ==> r == Some(text_map_entries(*m)[key@]),
        !text_map_entries(*m).dom().contains(key@) ==> r is None,
{
    m.get(key).copied()
}

/// `AHashMap::new`: a map that holds nothing.
#[verifier::external_body]
pub(crate) fn id_map_new() -> (m: AHashMap<u64, u64>)
    ensures
        id_map_entries(m).dom() == Set::<u64>::empty(),
{
    AHashMap::new()
}

/// `AHashMap::insert`: afterwards the key leads to the value, whether or
/// not it led to one before; every other key is as it was.
#[verifier::external_body]
pub(crate) fn id_map_insert(m: &mut AHashMap<u64, u64>, key: u64, value: u64)
    ensures
        id_map_entries(*final(m)) == id_map_entries(*old(m)).insert(key, value),
{
    m.insert(key, value);
}

/// `AHashMap::get`: the value that the key leads to, if it leads to one.
#[verifier::external_body]
pub(crate) fn id_map_get(m: &AHashMap<u64, u64>, key: u64) -> (r: Option<u64>)
    ensures
        id_map_entries(*m).dom().contains(key) ==> r == Some(id_map_entries(*m)[key]),
        !id_map_entries(*m).dom().contains(key) ==> r is None,
{
    m.get(&key).copied()
}

} // verus!

//! Where things are stored by name, in the concurrent map of the `dashmap` crate.
use dashmap::DashMap;
use vstd::prelude::*;

verus! {

/// A hash map in shards, each behind a lock.
#[verifier::external_type_specification]
#[verifier::external_body]
#[verifier::reject_recursive_types(K)]
#[verifier::reject_recursive_types(V)]
#[verifier::reject_recursive_types(S)]
pub struct ExDashMap<K, V, S>(DashMap<K, V, S>);

/// The numbers that a map holds, by the text of their keys.
pub uninterp spec fn slots(m: DashMap<String, usize>) -> Map<Seq<char>, usize>;

/// `DashMap::new` makes a map that holds nothing.
#[verifier::external_body]
pub(crate) fn empty_index() -> (r: DashMap<String, usize>)
    ensures
        slots(r).dom() == Set::<Seq<char>>::empty(),
{
    DashMap::new()
}

/// `DashMap::contains_key` tells whether the map holds something under the key.
#[verifier::external_body]
pub(crate) fn index_contains(m: &DashMap<String, usize>, key: &str) -> (r: bool)
    ensures
        r == slots(*m).dom().contains(key@),
{
    m.contains_key(key)
}

/// `DashMap::get` gives what the map holds under the key, if anything.
#[verifier::external_body]
pub(crate) fn index_get(m: &DashMap<String, usize>, key: &str) -> (r: Option<usize>)
    ensures
        r == if slots(*m).dom().contains(key@) {
            Some(slots(*m)[key@])
        } else {
            None
        },
{
    m.get(key).map(|entry| *entry.value())
}

/// `DashMap::insert` puts the number under the key, in place of what was there.
#[verifier::external_body]
pub(crate) fn index_insert(m: &mut DashMap<String, usize>, key: &str, slot: usize)
    ensures
        slots(*final(m)) == slots(*old(m)).insert(key@, slot),
{
    m.insert(key.to_string(), slot);
}

/// The entries are those of the map, each key once.
pub open spec fn lists(entries: Seq<(String, usize)>, m: Map<Seq<char>, usize>) -> bool {
    &&& forall|i: int|
        0 <= i < entries.len() ==> m.dom().contains((#[trigger] entries[i]).0@) && m[entries[i].0@]
            == entries[i].1
    &&& forall|i: int, j: int|
        0 <= i < j < entries.len() ==> (#[trigger] entries[i]).0@ != (#[trigger] entries[j]).0@
    &&& forall|k: Seq<char>| #[trigger]
        m.dom().contains(k) ==> exists|i: int|
            0 <= i < entries.len() && (#[trigger] entries[i]).0@ == k
}

/// `DashMap::iter` visits every entry of the map once, in an order that is not known.
#[verifier::external_body]
pub(crate) fn index_entries(m: &DashMap<String, usize>) -> (r: Vec<(String, usize)>)
    ensures
        lists(r@, slots(*m)),
{
    m.iter().map(|entry| (entry.key().clone(), *entry.value())).collect()
}

} // verus!

//! The concurrent maps that hold the daemon's state.
//!
//! A map stands in a private field and is changed through an exclusive reference
//! only, so that what it holds is a function of its value.

use dashmap::DashMap;
use vstd::prelude::*;

verus! {

/// A concurrent hash map.
#[verifier::external_type_specification]
#[verifier::external_body]
#[verifier::reject_recursive_types(K)]
#[verifier::reject_recursive_types(V)]
#[verifier::reject_recursive_types(S)]
pub struct ExDashMap<K, V, S>(DashMap<K, V, S>);

/// What a map from texts to texts holds.
pub uninterp spec fn texts(m: DashMap<String, String>) -> Map<Seq<char>, Seq<char>>;

/// What a map from texts to flags holds.
pub uninterp spec fn flags(m: DashMap<String, bool>) -> Map<Seq<char>, bool>;

/// The map that a list of entries spells out, later entries over earlier ones.
pub open spec fn entries_map(entries: Seq<(String, String)>) -> Map<Seq<char>, Seq<char>>
    decreases entries.len(),
{
    if entries.len() == 0 {
        Map::empty()
    } else {
        entries_map(entries.drop_last()).insert(entries.last().0@, entries.last().1@)
    }
}

/// `DashMap::new` holds nothing.
#[verifier::external_body]
pub(crate) fn new_texts() -> (r: DashMap<String, String>)
    ensures
        texts(r).dom() == Set::<Seq<char>>::empty(),
{
    DashMap::new()
}

/// `DashMap::insert` sets the value of one key.
#[verifier::external_body]
pub(crate) fn put_text(m: &mut DashMap<String, String>, key: String, value: String)
    ensures
        texts(*final(m)) == texts(*old(m)).insert(key@, value@),
{
    m.insert(key, value);
}

/// `DashMap::get` finds the value of a key; the value is copied out.
#[verifier::external_body]
pub(crate) fn get_text(m: &DashMap<String, String>, key: &str) -> (r: Option<String>)
    ensures
        r is Some <==> texts(*m).contains_key(key@),
        r matches Some(v) ==> v@ == texts(*m)[key@],
{
    m.get(key).map(|v| v.clone())
}

/// `DashMap::remove` takes a key out.
#[verifier::external_body]
pub(crate) fn remove_text(m: &mut DashMap<String, String>, key: &str)
    ensures
        texts(*final(m)) == texts(*old(m)).remove(key@),
{
    m.remove(key);
}

/// `DashMap::iter` gives every entry once, in no set order; the entries are copied out.
#[verifier::external_body]
pub(crate) fn text_entries(m: &DashMap<String, String>) -> (r: Vec<(String, String)>)
    ensures
        entries_map(r@) == texts(*m),
        forall|i: int, j: int|
            0 <= i < j < r@.len() ==> (#[trigger] r@[i]).0@ != (#[trigger] r@[j]).0@,
{
    m.iter().map(|e| (e.key().clone(), e.value().clone())).collect()
}

/// `DashMap::new` holds nothing.
#[verifier::external_body]
pub(crate) fn new_flags() -> (r: DashMap<String, bool>)
    ensures
        flags(r).dom() == Set::<Seq<char>>::empty(),
{
    DashMap::new()
}

/// `DashMap::insert` sets the value of one key.
#[verifier::external_body]
pub(crate) fn put_flag(m: &mut DashMap<String, bool>, key: String, value: bool)
    ensures
        flags(*final(m)) == flags(*old(m)).insert(key@, value),
{
    m.insert(key, value);
}

/// `DashMap::get` finds the value of a key.
#[verifier::external_body]
pub(crate) fn get_flag(m: &DashMap<String, bool>, key: &str) -> (r: Option<bool>)
    ensures
        r is Some <==> flags(*m).contains_key(key@),
        r matches Some(v) ==> v == flags(*m)[key@],
{
    m.get(key).map(|v| *v)
}

/// `DashMap::remove` takes a key out.
#[verifier::external_body]
pub(crate) fn remove_flag(m: &mut DashMap<String, bool>, key: &str)
    ensures
        flags(*final(m)) == flags(*old(m)).remove(key@),
{
    m.remove(key);
}

/// Where no key comes twice, each entry is in the map that the entries spell out.
pub proof fn lemma_entry_held(entries: Seq<(String, String)>, i: int)
    requires
        0 <= i < entries.len(),
        forall|i: int, j: int|
            0 <= i < j < entries.len() ==> (#[trigger] entries[i]).0@ != (#[trigger] entries[j]).0@,
    ensures
        entries_map(entries).contains_key(entries[i].0@),
        entries_map(entries)[entries[i].0@] == entries[i].1@,
    decreases entries.len(),
{
    let before = entries.drop_last();
    if i < before.len() {
        assert(forall|i: int, j: int|
            0 <= i < j < before.len() ==> (#[trigger] before[i]).0@ != (#[trigger] before[j]).0@);
        lemma_entry_held(before, i);
        assert(entries[i].0@ != entries.last().0@);
    }
}

/// Every key of the map that a list of entries spells out is the key of an entry.
pub proof fn lemma_entry_found(entries: Seq<(String, String)>, key: Seq<char>)
    requires
        entries_map(entries).contains_key(key),
    ensures
        exists|i: int| 0 <= i < entries.len() && (#[trigger] entries[i]).0@ == key,
    decreases entries.len(),
{
    if entries.last().0@ != key {
        lemma_entry_found(entries.drop_last(), key);
        let i = choose|i: int|
            0 <= i < entries.drop_last().len() && (#[trigger] entries.drop_last()[i]).0@ == key;
        assert(entries[i].0@ == key);
    } else {
        assert(entries[entries.len() - 1].0@ == key);
    }
}

} // verus!

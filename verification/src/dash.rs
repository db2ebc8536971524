//! Concurrent maps and sets, which the `dashmap` crate provides. A function that takes one by
//! mutable reference has it to itself.

use vstd::prelude::*;

use dashmap::{DashMap, DashSet};

use crate::servicegroup::client::contains_id;

verus! {

/// A concurrent map.
#[verifier::external_type_specification]
#[verifier::external_body]
#[verifier::reject_recursive_types(K)]
#[verifier::reject_recursive_types(V)]
#[verifier::reject_recursive_types(S)]
pub struct ExDashMap<K, V, S>(dashmap::DashMap<K, V, S>);

/// The entries of a concurrent map of counters.
pub uninterp spec fn counters(map: DashMap<u64, u64>) -> Map<u64, u64>;

/// [`DashMap::new`]: a map without entries.
#[verifier::external_body]
pub(crate) fn new_counters() -> (map: DashMap<u64, u64>)
    ensures
        forall|id: u64| !(#[trigger] counters(map).contains_key(id)),
{
    DashMap::new()
}

/// [`DashMap::insert`]: sets the entry of `id` and leaves every other one.
#[verifier::external_body]
pub(crate) fn set_counter(map: &mut DashMap<u64, u64>, id: u64, count: u64)
    ensures
        counters(*final(map)) == counters(*old(map)).insert(id, count),
{
    map.insert(id, count);
}

/// [`DashMap::get`]: the entry of `id`.
#[verifier::external_body]
pub(crate) fn get_counter(map: &DashMap<u64, u64>, id: u64) -> (count: Option<u64>)
    ensures
        match count {
            Some(n) => counters(*map).contains_key(id) && n == counters(*map)[id],
            None => !counters(*map).contains_key(id),
        },
{
    map.get(&id).map(|count| *count)
}

/// [`DashMap::retain`]: drops the entries whose identifier is not among `live`.
#[verifier::external_body]
pub(crate) fn retain_counters(map: &mut DashMap<u64, u64>, live: &Vec<u64>)
    ensures
        counters(*final(map)) == counters(*old(map)).restrict(live@.to_set()),
{
    map.retain(|id, _| contains_id(live, *id));
}

/// The entries of a concurrent map from names to numbers.
pub uninterp spec fn numbered(map: DashMap<String, u64>) -> Map<Seq<char>, u64>;

/// [`DashMap::new`]: a map without entries.
#[verifier::external_body]
pub(crate) fn new_numbered() -> (map: DashMap<String, u64>)
    ensures
        forall|name: Seq<char>| !(#[trigger] numbered(map).contains_key(name)),
{
    DashMap::new()
}

/// [`DashMap::insert`]: sets the entry of `name` and leaves every other one.
#[verifier::external_body]
pub(crate) fn set_number(map: &mut DashMap<String, u64>, name: String, number: u64)
    ensures
        numbered(*final(map)) == numbered(*old(map)).insert(name@, number),
{
    map.insert(name, number);
}

/// [`DashMap::get`]: the entry of `name`.
#[verifier::external_body]
pub(crate) fn get_number(map: &DashMap<String, u64>, name: &str) -> (number: Option<u64>)
    ensures
        match number {
            Some(n) => numbered(*map).contains_key(name@) && n == numbered(*map)[name@],
            None => !numbered(*map).contains_key(name@),
        },
{
    map.get(name).map(|number| *number)
}

/// A concurrent set.
#[verifier::external_type_specification]
#[verifier::external_body]
#[verifier::reject_recursive_types(K)]
#[verifier::reject_recursive_types(S)]
pub struct ExDashSet<K, S>(dashmap::DashSet<K, S>);

/// The members of a concurrent set of names.
pub uninterp spec fn members(set: DashSet<String>) -> Set<Seq<char>>;

/// [`DashSet::new`]: a set without members.
#[verifier::external_body]
pub(crate) fn new_members() -> (set: DashSet<String>)
    ensures
        forall|name: Seq<char>| !(#[trigger] members(set).contains(name)),
{
    DashSet::new()
}

/// [`DashSet::insert`]: adds a member.
#[verifier::external_body]
pub(crate) fn add_member(set: &mut DashSet<String>, name: String)
    ensures
        members(*final(set)) == members(*old(set)).insert(name@),
{
    set.insert(name);
}

/// [`DashSet::remove`]: takes a member out.
#[verifier::external_body]
pub(crate) fn remove_member(set: &mut DashSet<String>, name: &str)
    ensures
        members(*final(set)) == members(*old(set)).remove(name@),
{
    set.remove(name);
}

/// [`DashSet::iter`] with every name cloned: each member once, in an order that is left open.
#[verifier::external_body]
pub(crate) fn list_members(set: &DashSet<String>) -> (names: Vec<String>)
    ensures
        forall|name: Seq<char>| #[trigger] members(*set).contains(name) <==> exists|i: int|
            0 <= i < names@.len() && (#[trigger] names@[i])@ == name,
        forall|i: int, j: int|
            0 <= i < j < names@.len() ==> (#[trigger] names@[i])@ != (#[trigger] names@[j])@,
{
    set.iter().map(|name| name.key().clone()).collect()
}

/// [`DashSet::clear`]: takes every member out.
#[verifier::external_body]
pub(crate) fn clear_members(set: &mut DashSet<String>)
    ensures
        forall|name: Seq<char>| !(#[trigger] members(*final(set)).contains(name)),
{
    set.clear();
}

} // verus!

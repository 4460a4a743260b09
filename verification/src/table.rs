//! Tables from names to handles, kept in a `dashmap::DashMap`.
//!
//! A handle stands for something that only the caller can run or wake: a hook callback, a tool
//! server, a waiting request.

use vstd::prelude::*;

verus! {

/// A concurrent map of `dashmap`. Every change to one goes through a mutable reference here, so
/// what it holds cannot change behind a shared one.
#[verifier::external_type_specification]
#[verifier::external_body]
#[verifier::reject_recursive_types(K)]
#[verifier::reject_recursive_types(V)]
#[verifier::reject_recursive_types(S)]
pub struct ExDashMap<K, V, S>(dashmap::DashMap<K, V, S>);

/// The entries that a table holds.
pub uninterp spec fn table_entries(table: dashmap::DashMap<String, u64>) -> Map<Seq<char>, u64>;

/// `DashMap::new` holds no entry.
#[verifier::external_body]
pub(crate) fn new_table() -> (r: dashmap::DashMap<String, u64>)
    ensures
        (table_entries(r) == Map::<Seq<char>, u64>::empty()),
{
    dashmap::DashMap::new()
}

/// `DashMap::clear` removes every entry.
#[verifier::external_body]
pub(crate) fn clear_table(table: &mut dashmap::DashMap<String, u64>)
    ensures
        (table_entries(*final(table)) == Map::<Seq<char>, u64>::empty()),
{
    table.clear();
}

/// `DashMap::insert` sets the entry of that name and leaves the others alone.
#[verifier::external_body]
pub(crate) fn insert_entry(table: &mut dashmap::DashMap<String, u64>, name: String, handle: u64)
    ensures
        table_entries(*final(table)) == table_entries(*old(table)).insert(name@, handle),
{
    table.insert(name, handle);
}

/// `DashMap::remove` removes the entry of that name, hands it back if there was one, and leaves
/// the others alone.
#[verifier::external_body]
pub(crate) fn remove_entry(table: &mut dashmap::DashMap<String, u64>, name: &str) -> (r: Option<u64>)
    ensures
        table_entries(*final(table)) == table_entries(*old(table)).remove(name@),
        r == entry_of(table_entries(*old(table)), name@),
{
    table.remove(name).map(|entry| entry.1)
}

/// `DashMap::get` finds the entry of that name if there is one.
#[verifier::external_body]
pub(crate) fn find_entry(table: &dashmap::DashMap<String, u64>, name: &str) -> (r: Option<u64>)
    ensures
        r == entry_of(table_entries(*table), name@),
{
    table.get(name).map(|entry| *entry.value())
}

/// The handle that a name stands for, if any.
pub open spec fn entry_of(entries: Map<Seq<char>, u64>, name: Seq<char>) -> Option<u64> {
    if entries.contains_key(name) {
        Some(entries[name])
    } else {
        None
    }
}

} // verus!

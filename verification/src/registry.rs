//! The table of resident databases, held in a `DashMap`.
//!
//! A `DashMap` can be changed through a shared reference. Here every change takes the map
//! by exclusive reference, so that what a shared one holds stays as it is.

use crate::db::DatabaseEntry;
use dashmap::DashMap;
use vstd::prelude::*;

verus! {

/// `dashmap::DashMap`, opaque here.
#[verifier::external_type_specification]
#[verifier::external_body]
#[verifier::reject_recursive_types(K)]
#[verifier::reject_recursive_types(V)]
#[verifier::reject_recursive_types(S)]
pub struct ExDashMap<K, V, S>(DashMap<K, V, S>);

/// The entries that a table holds, by database name.
pub uninterp spec fn resident(
    table: DashMap<String, DatabaseEntry>,
) -> Map<Seq<char>, DatabaseEntry>;

/// `DashMap::new`: the table holds nothing.
#[verifier::external_body]
pub(crate) fn empty_table() -> (table: DashMap<String, DatabaseEntry>)
    ensures
        resident(table) == (Map::<Seq<char>, DatabaseEntry>::empty()),
{
    DashMap::new()
}

/// `DashMap::get`: the entry under `name`, if there is one.
#[verifier::external_body]
pub(crate) fn lookup(table: &DashMap<String, DatabaseEntry>, name: &str) -> (entry: Option<
    DatabaseEntry,
>)
    ensures
        entry == (if resident(*table).contains_key(name@) {
            Some(resident(*table)[name@])
        } else {
            None
        }),
{
    table.get(name).map(|entry| *entry.value())
}

/// `DashMap::insert`: `entry` stands under `name`, in place of what stood there.
#[verifier::external_body]
pub(crate) fn store(table: &mut DashMap<String, DatabaseEntry>, name: &str, entry: DatabaseEntry)
    ensures
        resident(*final(table)) == resident(*old(table)).insert(name@, entry),
{
    table.insert(name.to_owned(), entry);
}

/// `DashMap::remove`: nothing stands under `name` any more.
#[verifier::external_body]
pub(crate) fn unlink(table: &mut DashMap<String, DatabaseEntry>, name: &str)
    ensures
        resident(*final(table)) == resident(*old(table)).remove(name@),
{
    table.remove(name);
}

/// `DashMap::clear`: the table holds nothing any more.
#[verifier::external_body]
pub(crate) fn unlink_all(table: &mut DashMap<String, DatabaseEntry>)
    ensures
        resident(*final(table)) == (Map::<Seq<char>, DatabaseEntry>::empty()),
{
    table.clear();
}

/// `DashMap::len`: how many names the table holds.
#[verifier::external_body]
pub(crate) fn size(table: &DashMap<String, DatabaseEntry>) -> (count: usize)
    ensures
        count == resident(*table).dom().len(),
{
    table.len()
}

/// `DashMap::iter`: every name with its entry, each once, in an order that is left open.
#[verifier::external_body]
pub(crate) fn listing(table: &DashMap<String, DatabaseEntry>) -> (items: Vec<
    (String, DatabaseEntry),
>)
    ensures
        forall|i: int|
            0 <= i < items@.len() ==> resident(*table).contains_key(#[trigger] items@[i].0@)
                && resident(*table)[items@[i].0@] == items@[i].1,
        forall|i: int, j: int|
            0 <= i < j < items@.len() ==> #[trigger] items@[i].0@ != #[trigger] items@[j].0@,
        forall|name: Seq<char>| #[trigger]
            resident(*table).contains_key(name) ==> exists|i: int|
                0 <= i < items@.len() && #[trigger] items@[i].0@ == name,
{
    table.iter().map(|item| (item.key().clone(), *item.value())).collect()
}

} // verus!

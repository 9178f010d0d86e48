//! How many leases a table of databases carries in all.

use crate::db::DatabaseEntry;
use vstd::prelude::*;

verus! {

/// The leases of all entries, added up.
pub open spec fn lease_sum(entries: Map<Seq<char>, DatabaseEntry>) -> nat
    decreases entries.dom().len(),
    when entries.dom().finite()
{
    if entries.dom().len() == 0 {
        0
    } else {
        let name = entries.dom().choose();
        entries[name].active_leases as nat + lease_sum(entries.remove(name))
    }
}

/// Any entry can be counted first.
pub proof fn lemma_lease_sum_remove(entries: Map<Seq<char>, DatabaseEntry>, name: Seq<char>)
    requires
        entries.dom().finite(),
        entries.contains_key(name),
    ensures
        lease_sum(entries) == entries[name].active_leases + lease_sum(entries.remove(name)),
    decreases entries.dom().len(),
{
    let first = entries.dom().choose();
    assert(entries.dom().contains(first));
    if first != name {
        let rest = entries.remove(first);
        lemma_lease_sum_remove(rest, name);
        lemma_lease_sum_remove(entries.remove(name), first);
        assert(rest.remove(name) =~= entries.remove(name).remove(first));
    }
}

/// An entry that is added adds its leases.
pub proof fn lemma_lease_sum_insert(
    entries: Map<Seq<char>, DatabaseEntry>,
    name: Seq<char>,
    entry: DatabaseEntry,
)
    requires
        entries.dom().finite(),
        !entries.contains_key(name),
    ensures
        lease_sum(entries.insert(name, entry)) == entry.active_leases + lease_sum(entries),
{
    let after = entries.insert(name, entry);
    lemma_lease_sum_remove(after, name);
    assert(after.remove(name) =~= entries);
}

/// An entry that takes the place of another replaces its leases.
pub proof fn lemma_lease_sum_update(
    entries: Map<Seq<char>, DatabaseEntry>,
    name: Seq<char>,
    entry: DatabaseEntry,
)
    requires
        entries.dom().finite(),
        entries.contains_key(name),
    ensures
        lease_sum(entries.insert(name, entry)) + entries[name].active_leases == lease_sum(entries)
            + entry.active_leases,
{
    let after = entries.insert(name, entry);
    lemma_lease_sum_remove(entries, name);
    lemma_lease_sum_remove(after, name);
    assert(after.remove(name) =~= entries.remove(name));
}

} // verus!

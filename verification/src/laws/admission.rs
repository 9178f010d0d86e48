//! Which requests are admitted, which databases make room, and which are closed.

use crate::config::DatabaseView;
use crate::db::{
    acquires, file_name, lists, makes_resident, stale, valid_name, Admission, DatabaseEntry,
    LeaseView, ManagerView, Residency,
};
use crate::duration::Duration;
use crate::error::AppError;
use crate::leases::{lease_sum, lemma_lease_sum_insert};
use crate::metrics::MetricsView;
use vstd::prelude::*;

verus! {

/// ASCII letters and digits.
pub open spec fn letter_or_digit(c: char) -> bool {
    'a' <= c <= 'z' || 'A' <= c <= 'Z' || '0' <= c <= '9'
}

/// 1 to 64 ASCII letters, digits, `-` and `_`, the first a letter or digit.
pub open spec fn proper_name(name: Seq<char>) -> bool {
    &&& 0 < name.len() <= 64
    &&& letter_or_digit(name[0])
    &&& forall|i: int|
        0 <= i < name.len() ==> letter_or_digit(#[trigger] name[i]) || name[i] == '_' || name[i]
            == '-'
}

/// Database names are what they are said to be.
pub proof fn law_names_are_proper(name: Seq<char>)
    ensures
        valid_name(name) <==> proper_name(name),
{
}

/// The file of a database is its name with the extension `.db`, whatever the name is.
pub proof fn law_files_are_named_after_databases(name: Seq<char>)
    ensures
        file_name(name).len() == name.len() + 3,
        forall|i: int| 0 <= i < name.len() ==> #[trigger] file_name(name)[i] == name[i],
        file_name(name)[name.len() as int] == '.',
        file_name(name)[name.len() as int + 1] == 'd',
        file_name(name)[name.len() as int + 2] == 'b',
{
    reveal_strlit(".db");
}

/// A lease adds one to the count of its entry and a release takes one off; closing marks the
/// count, using sets the moment, and nothing else changes.
pub proof fn law_entries_change_one_field(entry: DatabaseEntry, now_ms: u64)
    ensures
        entry.active_leases < usize::MAX ==> entry.leased().active_leases == entry.active_leases
            + 1,
        entry.active_leases > 0 ==> entry.released().active_leases == entry.active_leases - 1,
        entry.closed().active_leases == usize::MAX,
        entry.touched(now_ms).last_used_ms == now_ms,
        entry.touched(now_ms).active_leases == entry.active_leases,
        entry.leased().last_used_ms == entry.last_used_ms,
        entry.released().last_used_ms == entry.last_used_ms,
        entry.closed().last_used_ms == entry.last_used_ms,
        entry.leased().id == entry.id && entry.leased().open == entry.open,
        entry.released().id == entry.id && entry.released().open == entry.open,
        entry.closed().id == entry.id && entry.closed().open == entry.open,
        entry.touched(now_ms).id == entry.id && entry.touched(now_ms).open == entry.open,
        entry.idle() <==> entry.active_leases == 0,
        entry.closing() <==> entry.active_leases == usize::MAX,
{
}

/// How many requests hold a database.
pub open spec fn holders(manager: ManagerView, name: Seq<char>) -> int {
    if manager.resident.contains_key(name) {
        manager.resident[name].active_leases as int
    } else {
        0
    }
}

/// A name that is not proper is refused, and nothing changes.
pub proof fn law_improper_names_are_refused(
    before: ManagerView,
    after: ManagerView,
    name: Seq<char>,
    waited: Duration,
    now_ms: u64,
    result: Result<Admission, AppError>,
)
    requires
        acquires(before, after, name, waited, now_ms, result),
    ensures
        result == Err::<Admission, AppError>(AppError::InvalidDatabaseName) <==> !proper_name(name),
        !proper_name(name) ==> after == before,
{
    law_names_are_proper(name);
}

/// A request is never told to wait, nor shed, while fewer requests are in flight than the
/// process may have and fewer hold its database than one may have.
pub proof fn law_free_slots_are_given_out(
    before: ManagerView,
    after: ManagerView,
    name: Seq<char>,
    waited: Duration,
    now_ms: u64,
    result: Result<Admission, AppError>,
)
    requires
        acquires(before, after, name, waited, now_ms, result),
        proper_name(name),
        before.in_flight < before.settings.max_concurrent_requests,
        holders(before, name) < before.settings.max_requests_per_database,
        holders(before, name) < usize::MAX - 1,
    ensures
        result matches Ok(admission) ==> admission is Leased,
        result matches Err(error) ==> error == AppError::CapacityBusy,
{
    law_names_are_proper(name);
}

/// A request without a slot waits out the timeout to the millisecond: until then it is told how
/// many milliseconds are left, begun ones counted whole, and nothing changes; from then on it is
/// shed, which is counted, and nothing else changes.
pub proof fn law_taken_slots_wait_and_shed(
    before: ManagerView,
    after: ManagerView,
    name: Seq<char>,
    waited: Duration,
    now_ms: u64,
    result: Result<Admission, AppError>,
)
    requires
        acquires(before, after, name, waited, now_ms, result),
        proper_name(name),
        before.in_flight >= before.settings.max_concurrent_requests || holders(before, name)
            >= before.settings.max_requests_per_database,
    ensures
        waited.nanos >= before.settings.admission_timeout_ms * 1_000_000 ==> {
            &&& result == Err::<Admission, AppError>(AppError::Overloaded)
            &&& after.metrics.requests_shed == before.metrics.requests_shed.wrapping_add(1)
            &&& after == (ManagerView {
                metrics: MetricsView {
                    requests_shed: after.metrics.requests_shed,
                    ..before.metrics
                },
                ..before
            })
        },
        waited.nanos < before.settings.admission_timeout_ms * 1_000_000 ==> {
            &&& result matches Ok(Admission::Wait { remaining_ms })
            &&& (remaining_ms - 1) * 1_000_000 < before.settings.admission_timeout_ms * 1_000_000
                - waited.nanos <= remaining_ms * 1_000_000
            &&& after == before
        },
{
    law_names_are_proper(name);
}

/// Whether a request went in to wait `waited` and came out with one more slot taken, and nothing
/// but `resident`, the next number and the evictions changed beside it.
pub open spec fn took_a_slot(before: ManagerView, after: ManagerView, waited: Duration) -> bool {
    &&& after.in_flight == before.in_flight + 1
    &&& after.detached == before.detached
    &&& after.settings == before.settings
    &&& after.metrics.admission_wait == before.metrics.admission_wait.recorded(waited)
    &&& after.metrics == (MetricsView {
        admission_wait: after.metrics.admission_wait,
        databases_evicted: after.metrics.databases_evicted,
        ..before.metrics
    })
}

/// A database that is resident is lent where slots are free, however full the table is: it has
/// one lease more, is used now if its connections are open, and no other database changes.
pub proof fn law_resident_databases_are_lent(
    before: ManagerView,
    after: ManagerView,
    name: Seq<char>,
    waited: Duration,
    now_ms: u64,
    result: Result<Admission, AppError>,
)
    requires
        acquires(before, after, name, waited, now_ms, result),
        proper_name(name),
        before.in_flight < before.settings.max_concurrent_requests,
        holders(before, name) < before.settings.max_requests_per_database,
        holders(before, name) < usize::MAX - 1,
        before.resident.contains_key(name),
    ensures
        result matches Ok(Admission::Leased { lease, must_open, evicted }) && {
            &&& lease@.name == name
            &&& lease@.id == before.resident[name].id
            &&& must_open == !before.resident[name].open
            &&& evicted is None
        },
        after.resident.remove(name) == before.resident.remove(name),
        after.resident.contains_key(name),
        after.resident[name].id == before.resident[name].id,
        after.resident[name].open == before.resident[name].open,
        after.resident[name].active_leases == before.resident[name].active_leases + 1,
        after.resident[name].last_used_ms == (if before.resident[name].open {
            now_ms
        } else {
            before.resident[name].last_used_ms
        }),
        after.next_id == before.next_id,
        after.metrics.databases_evicted == before.metrics.databases_evicted,
        took_a_slot(before, after, waited),
{
    law_names_are_proper(name);
    assert(after.resident.remove(name) =~= before.resident.remove(name));
}

/// A database that is not resident is admitted where slots are free and fewer are resident than
/// are allowed: under a number of its own, with one lease and closed connections, used now; and
/// no other database changes.
pub proof fn law_room_is_given_out(
    before: ManagerView,
    after: ManagerView,
    name: Seq<char>,
    waited: Duration,
    now_ms: u64,
    result: Result<Admission, AppError>,
)
    requires
        acquires(before, after, name, waited, now_ms, result),
        proper_name(name),
        before.in_flight < before.settings.max_concurrent_requests,
        0 < before.settings.max_requests_per_database,
        !before.resident.contains_key(name),
        before.resident.dom().len() < before.settings.max_open_databases,
        before.next_id < u64::MAX,
    ensures
        result matches Ok(Admission::Leased { lease, must_open, evicted }) && {
            &&& lease@.name == name
            &&& lease@.id == before.next_id
            &&& must_open
            &&& evicted is None
        },
        after.resident == before.resident.insert(
            name,
            DatabaseEntry {
                id: before.next_id,
                open: false,
                last_used_ms: now_ms,
                active_leases: 1,
            },
        ),
        after.next_id == before.next_id + 1,
        after.metrics.databases_evicted == before.metrics.databases_evicted,
        took_a_slot(before, after, waited),
{
    law_names_are_proper(name);
    assert(after.resident =~= before.resident.insert(
        name,
        DatabaseEntry { id: before.next_id, open: false, last_used_ms: now_ms, active_leases: 1 },
    ));
}

/// Where slots are free but as many databases are resident as are allowed, one that nobody holds
/// leaves for a new one, and none of those that nobody holds was used less recently. Nobody else
/// leaves or changes. Where every one is held, the new one is refused and nothing changes.
pub proof fn law_the_least_recently_used_makes_room(
    before: ManagerView,
    after: ManagerView,
    name: Seq<char>,
    waited: Duration,
    now_ms: u64,
    result: Result<Admission, AppError>,
)
    requires
        acquires(before, after, name, waited, now_ms, result),
        proper_name(name),
        before.in_flight < before.settings.max_concurrent_requests,
        0 < before.settings.max_requests_per_database,
        !before.resident.contains_key(name),
        before.resident.dom().len() >= before.settings.max_open_databases,
        before.next_id < u64::MAX,
    ensures
        (forall|other: Seq<char>| #[trigger]
            before.resident.contains_key(other) ==> before.resident[other].active_leases != 0)
            ==> result == Err::<Admission, AppError>(AppError::CapacityBusy) && after == before,
        (exists|other: Seq<char>| #[trigger]
            before.resident.contains_key(other) && before.resident[other].active_leases == 0) ==> {
            &&& result matches Ok(Admission::Leased { lease, must_open, evicted })
            &&& lease@.name == name
            &&& lease@.id == before.next_id
            &&& must_open
            &&& evicted matches Some(left)
            &&& before.resident.contains_key(left.name@)
            &&& left.id == before.resident[left.name@].id
            &&& left.open == before.resident[left.name@].open
            &&& before.resident[left.name@].active_leases == 0
            &&& forall|other: Seq<char>| #[trigger]
                before.resident.contains_key(other) && before.resident[other].active_leases == 0
                    ==> before.resident[left.name@].last_used_ms
                    <= before.resident[other].last_used_ms
            &&& after.resident == before.resident.remove(left.name@).insert(
                name,
                DatabaseEntry {
                    id: before.next_id,
                    open: false,
                    last_used_ms: now_ms,
                    active_leases: 1,
                },
            )
            &&& after.next_id == before.next_id + 1
            &&& after.metrics.databases_evicted == before.metrics.databases_evicted.wrapping_add(1)
            &&& took_a_slot(before, after, waited)
        },
{
    law_names_are_proper(name);
    if exists|other: Seq<char>| #[trigger]
        before.resident.contains_key(other) && before.resident[other].active_leases == 0 {
        let other = choose|other: Seq<char>| #[trigger]
            before.resident.contains_key(other) && before.resident[other].active_leases == 0;
        assert(before.resident[other].idle());
        let left = result->Ok_0->evicted->Some_0.name@;
        assert forall|other: Seq<char>| #[trigger]
            before.resident.contains_key(other) && before.resident[other].active_leases
                == 0 implies before.resident[left].last_used_ms
            <= before.resident[other].last_used_ms by {
            assert(before.resident[other].idle());
        }
        assert(after.resident =~= before.resident.remove(left).insert(
            name,
            DatabaseEntry {
                id: before.next_id,
                open: false,
                last_used_ms: now_ms,
                active_leases: 1,
            },
        ));
    } else {
        assert forall|other: Seq<char>| #[trigger]
            before.resident.contains_key(other) implies !before.resident[other].idle() by {}
    }
}

/// To make a database resident without lending it does the same as to a request, short of the
/// lease: nothing where it is resident; a new stay where there is room, or where one that nobody
/// holds, the least recently used, leaves for it; a refusal where every one is held.
pub proof fn law_stays_begin_without_a_lease(
    before: ManagerView,
    after: ManagerView,
    name: Seq<char>,
    now_ms: u64,
    result: Result<Option<Residency>, AppError>,
)
    requires
        makes_resident(before, after, name, now_ms, result),
        before.next_id < u64::MAX,
    ensures
        before.resident.contains_key(name) ==> after == before && result == Ok::<
            Option<Residency>,
            AppError,
        >(None),
        !before.resident.contains_key(name) && before.resident.dom().len()
            < before.settings.max_open_databases ==> {
            &&& result == Ok::<Option<Residency>, AppError>(None)
            &&& after.resident == before.resident.insert(
                name,
                DatabaseEntry {
                    id: before.next_id,
                    open: false,
                    last_used_ms: now_ms,
                    active_leases: 0,
                },
            )
        },
        !before.resident.contains_key(name) && before.resident.dom().len()
            >= before.settings.max_open_databases && result is Ok ==> {
            &&& result->Ok_0 matches Some(left)
            &&& before.resident.contains_key(left.name@)
            &&& left.id == before.resident[left.name@].id
            &&& left.open == before.resident[left.name@].open
            &&& before.resident[left.name@].active_leases == 0
            &&& forall|other: Seq<char>| #[trigger]
                before.resident.contains_key(other) && before.resident[other].active_leases == 0
                    ==> before.resident[left.name@].last_used_ms
                    <= before.resident[other].last_used_ms
            &&& after.resident == before.resident.remove(left.name@).insert(
                name,
                DatabaseEntry {
                    id: before.next_id,
                    open: false,
                    last_used_ms: now_ms,
                    active_leases: 0,
                },
            )
        },
        result is Err <==> !before.resident.contains_key(name) && before.resident.dom().len()
            >= before.settings.max_open_databases && forall|other: Seq<char>| #[trigger]
            before.resident.contains_key(other) ==> before.resident[other].active_leases != 0,
        result is Err ==> after == before && result->Err_0 == AppError::CapacityBusy,
        after.in_flight == before.in_flight,
        after.detached == before.detached,
        after.settings == before.settings,
        after.next_id == (if after == before {
            before.next_id as int
        } else {
            before.next_id + 1
        }),
{
    if !before.resident.contains_key(name) && before.full() {
        if crate::db::some_idle(before.resident) {
            let idle = choose|other: Seq<char>| #[trigger]
                before.resident.contains_key(other) && before.resident[other].idle();
            assert(before.resident[idle].active_leases == 0);
            let left = result->Ok_0->Some_0.name@;
            assert forall|other: Seq<char>| #[trigger]
                before.resident.contains_key(other) && before.resident[other].active_leases
                    == 0 implies before.resident[left].last_used_ms
                <= before.resident[other].last_used_ms by {
                assert(before.resident[other].idle());
            }
        } else {
            assert forall|other: Seq<char>| #[trigger]
                before.resident.contains_key(other) implies before.resident[other].active_leases
                != 0 by {
                assert(!before.resident[other].idle());
            }
        }
    }
}

/// Whether a lease is on a stay that still goes on.
pub open spec fn stay_goes_on(manager: ManagerView, lease: LeaseView) -> bool {
    &&& manager.resident.contains_key(lease.name)
    &&& manager.resident[lease.name].id == lease.id
    &&& manager.resident[lease.name].active_leases > 0
}

/// To note that connections are open marks the stay of the lease as open and used now, and counts
/// it the first time. Of a stay that has ended nothing is noted.
pub proof fn law_opening_is_noted_once(manager: ManagerView, lease: LeaseView, now_ms: u64)
    ensures
        !stay_goes_on(manager, lease) ==> manager.opened(lease, now_ms) == manager,
        stay_goes_on(manager, lease) ==> {
            let after = manager.opened(lease, now_ms);
            let entry = manager.resident[lease.name];
            &&& after.resident == manager.resident.insert(
                lease.name,
                DatabaseEntry {
                    id: entry.id,
                    open: true,
                    last_used_ms: now_ms,
                    active_leases: entry.active_leases,
                },
            )
            &&& after.metrics.databases_opened == (if entry.open {
                manager.metrics.databases_opened
            } else {
                manager.metrics.databases_opened.wrapping_add(1)
            })
            &&& after == (ManagerView {
                resident: after.resident,
                metrics: MetricsView {
                    databases_opened: after.metrics.databases_opened,
                    ..manager.metrics
                },
                ..manager
            })
        },
{
}

/// A lease that is given back frees one slot of the process, one of its database, and marks that
/// as used now. One whose stay has ended frees its slot of the process.
pub proof fn law_released_leases_free_their_slots(
    manager: ManagerView,
    lease: LeaseView,
    now_ms: u64,
)
    requires
        manager.in_flight > 0,
    ensures
        manager.released(lease, now_ms).settings == manager.settings,
        manager.released(lease, now_ms).metrics == manager.metrics,
        manager.released(lease, now_ms).next_id == manager.next_id,
        stay_goes_on(manager, lease) ==> {
            let after = manager.released(lease, now_ms);
            let entry = manager.resident[lease.name];
            &&& after.resident == manager.resident.insert(
                lease.name,
                DatabaseEntry {
                    id: entry.id,
                    open: entry.open,
                    last_used_ms: now_ms,
                    active_leases: (entry.active_leases - 1) as usize,
                },
            )
            &&& after.in_flight == manager.in_flight - 1
            &&& after.detached == manager.detached
        },
        !stay_goes_on(manager, lease) && manager.detached > 0 ==> {
            let after = manager.released(lease, now_ms);
            &&& after.resident == manager.resident
            &&& after.in_flight == manager.in_flight - 1
            &&& after.detached == manager.detached - 1
        },
        !stay_goes_on(manager, lease) && manager.detached == 0 ==> manager.released(lease, now_ms)
            == manager,
{
}

/// Where connections cannot be opened, the stay ends and the lease is given back; the other
/// leases on it keep their slots of the process until they are given back.
pub proof fn law_failed_opens_end_the_stay(manager: ManagerView, lease: LeaseView)
    requires
        manager.in_flight > 0,
        stay_goes_on(manager, lease),
        manager.detached + manager.resident[lease.name].active_leases <= usize::MAX,
    ensures
        manager.open_failed(lease).resident == manager.resident.remove(lease.name),
        manager.open_failed(lease).in_flight == manager.in_flight - 1,
        manager.open_failed(lease).detached == manager.detached
            + manager.resident[lease.name].active_leases - 1,
        manager.open_failed(lease).settings == manager.settings,
        manager.open_failed(lease).metrics == manager.metrics,
        manager.open_failed(lease).next_id == manager.next_id,
{
}

/// Where connections cannot be opened and the stay has ended already, the lease is given back as
/// any other whose stay has ended.
pub proof fn law_failed_opens_of_ended_stays(manager: ManagerView, lease: LeaseView, now_ms: u64)
    requires
        !stay_goes_on(manager, lease),
    ensures
        manager.open_failed(lease) == manager.released(lease, now_ms),
{
}

/// Whether a database that nobody holds has been idle for at least the timeout, or was last used
/// at moment zero.
pub open spec fn idle_too_long(
    entry: DatabaseEntry,
    settings: DatabaseView,
    now_ms: u64,
) -> bool {
    &&& entry.active_leases == 0
    &&& entry.last_used_ms + settings.idle_timeout_seconds * 1_000 <= now_ms || entry.last_used_ms
        == 0
}

/// A cleanup closes every database that nobody holds and that has been idle for at least the
/// timeout, and no other: what stays resident stays as it is. It counts what it closes.
pub proof fn law_cleanup_closes_what_is_idle_too_long(
    manager: ManagerView,
    now_ms: u64,
    closed: u64,
)
    ensures
        forall|name: Seq<char>|
            {
                #[trigger] manager.cleaned(now_ms, closed).resident.contains_key(name)
                    <==> manager.resident.contains_key(name) && !idle_too_long(
                    manager.resident[name],
                    manager.settings,
                    now_ms,
                )
            },
        forall|name: Seq<char>| #[trigger]
            manager.cleaned(now_ms, closed).resident.contains_key(name) ==> {
                let entry = manager.resident[name];
                &&& entry.active_leases > 0 || entry.last_used_ms
                    + manager.settings.idle_timeout_seconds * 1_000 > now_ms
                &&& manager.cleaned(now_ms, closed).resident[name] == entry
            },
        manager.cleaned(now_ms, closed).metrics.databases_closed_idle
            == manager.metrics.databases_closed_idle.wrapping_add(closed),
        manager.cleaned(now_ms, closed) == (ManagerView {
            resident: manager.cleaned(now_ms, closed).resident,
            metrics: MetricsView {
                databases_closed_idle: manager.cleaned(
                    now_ms,
                    closed,
                ).metrics.databases_closed_idle,
                ..manager.metrics
            },
            ..manager
        }),
{
    let cutoff_ms = manager.cutoff_ms(now_ms);
    assert forall|name: Seq<char>| manager.resident.contains_key(name) implies stale(
        #[trigger] manager.resident[name],
        cutoff_ms,
    ) == idle_too_long(manager.resident[name], manager.settings, now_ms) by {}
}

/// A cleanup reports what it closes: each database that has been idle for too long once, as the
/// stay that it was, and no other.
pub proof fn law_cleanup_reports_what_it_closes(
    closed: Seq<Residency>,
    manager: ManagerView,
    now_ms: u64,
)
    requires
        lists(
            closed,
            manager.resident,
            |entry: DatabaseEntry| stale(entry, manager.cutoff_ms(now_ms)),
        ),
    ensures
        forall|i: int|
            0 <= i < closed.len() ==> {
                let entry = manager.resident[(#[trigger] closed[i]).name@];
                &&& manager.resident.contains_key(closed[i].name@)
                &&& idle_too_long(entry, manager.settings, now_ms)
                &&& closed[i].id == entry.id
                &&& closed[i].open == entry.open
            },
        forall|i: int, j: int|
            0 <= i < j < closed.len() ==> (#[trigger] closed[i]).name@ != (
            #[trigger] closed[j]).name@,
        forall|name: Seq<char>| #[trigger]
            manager.resident.contains_key(name) && idle_too_long(
                manager.resident[name],
                manager.settings,
                now_ms,
            ) ==> exists|i: int| 0 <= i < closed.len() && (#[trigger] closed[i]).name@ == name,
{
    let chosen = |entry: DatabaseEntry| stale(entry, manager.cutoff_ms(now_ms));
    assert forall|name: Seq<char>| #[trigger]
        manager.resident.contains_key(name) && idle_too_long(
            manager.resident[name],
            manager.settings,
            now_ms,
        ) implies exists|i: int| 0 <= i < closed.len() && (#[trigger] closed[i]).name@ == name by {
        assert(chosen(manager.resident[name]));
    }
}

/// A list of stays holds each database that was chosen once, as the stay that it is, and no
/// other.
pub proof fn law_lists_hold_what_was_chosen(
    stays: Seq<Residency>,
    entries: Map<Seq<char>, DatabaseEntry>,
    chosen: spec_fn(DatabaseEntry) -> bool,
)
    requires
        lists(stays, entries, chosen),
    ensures
        forall|i: int|
            0 <= i < stays.len() ==> {
                &&& entries.contains_key((#[trigger] stays[i]).name@)
                &&& chosen(entries[stays[i].name@])
                &&& stays[i].id == entries[stays[i].name@].id
                &&& stays[i].open == entries[stays[i].name@].open
            },
        forall|i: int, j: int|
            0 <= i < j < stays.len() ==> (#[trigger] stays[i]).name@ != (#[trigger] stays[j]).name@,
        forall|name: Seq<char>| #[trigger]
            entries.contains_key(name) && chosen(entries[name]) ==> exists|i: int|
                0 <= i < stays.len() && (#[trigger] stays[i]).name@ == name,
{
}

/// Closing everything leaves no database resident, keeps every slot that a request holds until it
/// is given back, and changes nothing else.
pub proof fn law_closing_everything_leaves_nothing(manager: ManagerView)
    ensures
        forall|name: Seq<char>| !#[trigger] manager.emptied().resident.contains_key(name),
        manager.emptied().in_flight == manager.in_flight,
        manager.emptied().detached == manager.in_flight,
        manager.emptied().settings == manager.settings,
        manager.emptied().metrics == manager.metrics,
        manager.emptied().next_id == manager.next_id,
{
}

/// The statistics are the number of resident databases, the leases on them, the slots that are
/// left, and the two limits.
pub proof fn law_statistics_are_what_they_say(manager: ManagerView)
    requires
        manager.resident.dom().len() <= manager.settings.max_open_databases,
        lease_sum(manager.resident) <= manager.in_flight,
        manager.in_flight <= manager.settings.max_concurrent_requests,
    ensures
        manager.stats().open_databases == manager.resident.dom().len(),
        manager.stats().active_leases == lease_sum(manager.resident),
        manager.stats().max_open_databases == manager.settings.max_open_databases,
        manager.stats().available_request_slots == manager.settings.max_concurrent_requests
            - manager.in_flight,
        manager.stats().max_concurrent_requests == manager.settings.max_concurrent_requests,
{
}

/// The leases of a table are those of its entries, added up.
pub proof fn law_leases_are_added_up(
    entries: Map<Seq<char>, DatabaseEntry>,
    name: Seq<char>,
    entry: DatabaseEntry,
)
    requires
        entries.dom().finite(),
        !entries.contains_key(name),
    ensures
        lease_sum(Map::<Seq<char>, DatabaseEntry>::empty()) == 0,
        lease_sum(entries.insert(name, entry)) == lease_sum(entries) + entry.active_leases,
{
    lemma_lease_sum_insert(entries, name, entry);
}

/// What always holds of a manager: the limits on resident databases, on the requests that hold
/// one and on those in flight, proper names, and that every slot goes with a lease.
pub proof fn law_limits_are_kept(manager: ManagerView, name: Seq<char>, other: Seq<char>)
    requires
        manager.wf(),
    ensures
        manager.resident.dom().len() <= manager.settings.max_open_databases,
        manager.in_flight <= manager.settings.max_concurrent_requests,
        manager.in_flight == lease_sum(manager.resident) + manager.detached,
        manager.resident.contains_key(name) ==> proper_name(name)
            && manager.resident[name].active_leases <= manager.settings.max_requests_per_database
            && manager.resident[name].active_leases < usize::MAX,
        manager.resident.contains_key(name) && manager.resident.contains_key(other) && name != other
            ==> manager.resident[name].id != manager.resident[other].id,
{
}

} // verus!

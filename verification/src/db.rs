//! Databases that are opened when they are asked for and closed when they are idle.

use crate::config::{DatabaseSettings, DatabaseView};
use crate::duration::Duration;
use crate::error::AppError;
use crate::leases::{
    lease_sum, lemma_lease_sum_insert, lemma_lease_sum_remove, lemma_lease_sum_update,
};
use crate::metrics::{Metrics, MetricsView};
use crate::registry::{
    empty_table, listing, lookup, resident, size, store, unlink, unlink_all,
};
use crate::text::chars_of;
use dashmap::DashMap;
use vstd::prelude::*;
use vstd::string::StringExecFns;

verus! {

/// Lease count reserved for an entry that is closing and must never be handed out again.
pub const CLOSED: usize = usize::MAX;

/// What the service reports about its databases and its request slots.
#[derive(Clone, Copy, Debug, PartialEq, Eq, Structural)]
pub struct ManagerStats {
    pub open_databases: usize,
    pub active_leases: usize,
    pub max_open_databases: usize,
    pub available_request_slots: usize,
    pub max_concurrent_requests: usize,
}

/// What is known of one resident database.
#[derive(Clone, Copy, Debug, PartialEq, Eq, Structural)]
pub struct DatabaseEntry {
    /// Tells this residency from an earlier one of the same database.
    pub id: u64,
    /// Whether the connections have been opened.
    pub open: bool,
    /// When the database was last used, in milliseconds.
    pub last_used_ms: u64,
    /// How many requests hold the database, or [`CLOSED`].
    pub active_leases: usize,
}

impl DatabaseEntry {
    /// Whether nobody holds the entry.
    pub open spec fn idle(self) -> bool {
        self.active_leases == 0
    }

    /// Whether the entry has begun to close.
    pub open spec fn closing(self) -> bool {
        self.active_leases == CLOSED
    }

    /// The entry with one lease more.
    pub open spec fn leased(self) -> Self {
        DatabaseEntry { active_leases: (self.active_leases + 1) as usize, ..self }
    }

    /// The entry with one lease less.
    pub open spec fn released(self) -> Self {
        DatabaseEntry { active_leases: (self.active_leases - 1) as usize, ..self }
    }

    /// The entry once it has begun to close.
    pub open spec fn closed(self) -> Self {
        DatabaseEntry { active_leases: CLOSED, ..self }
    }

    /// The entry once it has been used at `now_ms`.
    pub open spec fn touched(self, now_ms: u64) -> Self {
        DatabaseEntry { last_used_ms: now_ms, ..self }
    }

    /// An entry that nobody holds and whose connections are not open yet.
    pub fn new(id: u64, now_ms: u64) -> (entry: Self)
        ensures
            entry == (DatabaseEntry { id, open: false, last_used_ms: now_ms, active_leases: 0 }),
    {
        DatabaseEntry { id, open: false, last_used_ms: now_ms, active_leases: 0 }
    }

    /// Takes a lease, unless the entry is closing.
    pub fn lease(&mut self) -> (leased: bool)
        ensures
            leased == !old(self).closing(),
            *final(self) == (if leased {
                old(self).leased()
            } else {
                *old(self)
            }),
    {
        if self.active_leases == CLOSED {
            return false;
        }
        self.active_leases = self.active_leases + 1;
        true
    }

    /// Closes the entry for good, unless somebody holds it or it is closing already.
    pub fn begin_close(&mut self) -> (closing: bool)
        ensures
            closing == old(self).idle(),
            *final(self) == (if closing {
                old(self).closed()
            } else {
                *old(self)
            }),
    {
        if self.active_leases != 0 {
            return false;
        }
        self.active_leases = CLOSED;
        true
    }

    /// Marks the entry as used.
    pub fn touch(&mut self, now_ms: u64)
        ensures
            *final(self) == old(self).touched(now_ms),
    {
        self.last_used_ms = now_ms;
    }
}

/// ASCII letters and digits.
pub open spec fn is_alphanumeric(c: char) -> bool {
    ('0' <= c <= '9') || ('A' <= c <= 'Z') || ('a' <= c <= 'z')
}

/// Database names: 1 to 64 ASCII letters, digits, `-` and `_`, the first a letter or digit.
pub open spec fn valid_name(name: Seq<char>) -> bool {
    &&& 1 <= name.len() <= 64
    &&& is_alphanumeric(name[0])
    &&& forall|i: int|
        0 <= i < name.len() ==> is_alphanumeric(#[trigger] name[i]) || name[i] == '-' || name[i]
            == '_'
}

fn is_alphanumeric_char(c: char) -> (result: bool)
    ensures
        result == is_alphanumeric(c),
{
    ('0' <= c && c <= '9') || ('A' <= c && c <= 'Z') || ('a' <= c && c <= 'z')
}

/// Refuses what is no database name.
pub fn validate_database_name(name: &str) -> (result: Result<(), AppError>)
    ensures
        match result {
            Ok(()) => valid_name(name@),
            Err(error) => !valid_name(name@) && error == AppError::InvalidDatabaseName,
        },
{
    let chars = chars_of(name);
    if chars.len() == 0 || chars.len() > 64 || !is_alphanumeric_char(chars[0]) {
        return Err(AppError::InvalidDatabaseName);
    }
    let mut index: usize = 0;
    while index < chars.len()
        invariant
            index <= chars.len(),
            chars@ == name@,
            forall|i: int|
                0 <= i < index ==> is_alphanumeric(#[trigger] name@[i]) || name@[i] == '-'
                    || name@[i] == '_',
        decreases chars.len() - index,
    {
        let c = chars[index];
        if !(is_alphanumeric_char(c) || c == '-' || c == '_') {
            return Err(AppError::InvalidDatabaseName);
        }
        index = index + 1;
    }
    Ok(())
}

/// The file of a database.
pub open spec fn file_name(name: Seq<char>) -> Seq<char> {
    name + ".db"@
}

/// The file of a database, inside the directory of the databases.
pub fn database_file_name(name: &str) -> (file: String)
    ensures
        file@ == file_name(name@),
{
    let mut file = name.to_owned();
    file.append(".db");
    file
}

/// Two databases have two files.
pub proof fn law_one_file_per_database(left: Seq<char>, right: Seq<char>)
    ensures
        file_name(left) == file_name(right) <==> left == right,
{
    if file_name(left) == file_name(right) {
        assert(file_name(left).len() == left.len() + ".db"@.len());
        assert(file_name(right).len() == right.len() + ".db"@.len());
        assert(left =~= file_name(left).take(left.len() as int));
        assert(right =~= file_name(right).take(right.len() as int));
    }
}

/// The file of a database lies in the directory of the databases: its name has no separator
/// in it and its only dot is that of the extension, so that it is neither hidden nor a way
/// up.
pub proof fn law_files_stay_in_the_directory(name: Seq<char>)
    requires
        valid_name(name),
    ensures
        forall|i: int|
            0 <= i < file_name(name).len() ==> #[trigger] file_name(name)[i] != '/' && file_name(
                name,
            )[i] != '\\' && file_name(name)[i] != '\0',
        forall|i: int|
            0 <= i < file_name(name).len() && #[trigger] file_name(name)[i] == '.' ==> i
                == name.len(),
        file_name(name)[0] != '.',
{
    reveal_strlit(".db");
    assert forall|i: int| 0 <= i < file_name(name).len() implies #[trigger] file_name(name)[i]
        != '/' && file_name(name)[i] != '\\' && file_name(name)[i] != '\0' && (file_name(name)[i]
        == '.' ==> i == name.len()) by {
        if i < name.len() {
            assert(file_name(name)[i] == name[i]);
        } else {
            assert(file_name(name)[i] == ".db"@[i - name.len()]);
        }
    }
}

/// An entry that has begun to close is closing for good: it is not idle, so that it is neither
/// leased again nor closed a second time, and being used changes nothing about it.
pub proof fn law_closed_for_good(entry: DatabaseEntry, now_ms: u64)
    ensures
        entry.closed().closing(),
        entry.closed().touched(now_ms).closing(),
        entry.closing() ==> !entry.idle(),
{
}

/// A release takes back what a lease did.
pub proof fn law_release_undoes_lease(entry: DatabaseEntry)
    requires
        !entry.closing(),
    ensures
        entry.leased().released() == entry,
        !entry.leased().idle(),
{
}

/// A stay of a database in the table of resident ones.
#[derive(Debug, PartialEq, Eq)]
pub struct Residency {
    pub name: String,
    pub id: u64,
    /// Whether there are connections to close.
    pub open: bool,
}

impl Residency {
    /// Whether this is the stay that `entry` stands for, under `name`.
    pub open spec fn stands_for(self, name: Seq<char>, entry: DatabaseEntry) -> bool {
        self.name@ == name && self.id == entry.id && self.open == entry.open
    }
}

/// The right to use a database until it is given back.
#[derive(Debug)]
pub struct DatabaseLease {
    name: String,
    id: u64,
}

/// What a [`DatabaseLease`] is for.
pub struct LeaseView {
    pub name: Seq<char>,
    pub id: u64,
}

impl View for DatabaseLease {
    type V = LeaseView;

    closed spec fn view(&self) -> LeaseView {
        LeaseView { name: self.name@, id: self.id }
    }
}

impl DatabaseLease {
    /// The database that is leased.
    pub fn name(&self) -> (name: &str)
        ensures
            name@ == self@.name,
    {
        self.name.as_str()
    }

    /// The stay during which it is leased.
    pub fn id(&self) -> (id: u64)
        ensures
            id == self@.id,
    {
        self.id
    }
}

/// What becomes of a request for a database.
#[derive(Debug)]
pub enum Admission {
    /// The request has its slots and its lease.
    Leased {
        lease: DatabaseLease,
        /// Whether the connections are still to be opened.
        must_open: bool,
        /// The stay that ended to make room, to be checkpointed and closed.
        evicted: Option<Residency>,
    },
    /// There is no slot yet; the request may wait this much longer.
    Wait { remaining_ms: u64 },
}

/// The databases that are resident, and the requests that use them.
pub struct DatabaseManager {
    settings: DatabaseSettings,
    entries: DashMap<String, DatabaseEntry>,
    next_id: u64,
    in_flight: usize,
    detached: usize,
    metrics: Metrics,
}

/// What a [`DatabaseManager`] holds.
#[verifier::ext_equal]
pub struct ManagerView {
    pub settings: DatabaseView,
    /// The resident databases by name.
    pub resident: Map<Seq<char>, DatabaseEntry>,
    /// The number of the next stay.
    pub next_id: u64,
    /// How many requests hold a slot, each with one lease.
    pub in_flight: usize,
    /// How many of them hold a lease on a stay that has ended.
    pub detached: usize,
    pub metrics: MetricsView,
}

impl View for DatabaseManager {
    type V = ManagerView;

    closed spec fn view(&self) -> ManagerView {
        ManagerView {
            settings: self.settings@,
            resident: resident(self.entries),
            next_id: self.next_id,
            in_flight: self.in_flight,
            detached: self.detached,
            metrics: self.metrics@,
        }
    }
}

/// Whether `name` is the database that has been idle for longest.
pub open spec fn oldest_idle(entries: Map<Seq<char>, DatabaseEntry>, name: Seq<char>) -> bool {
    &&& entries.contains_key(name)
    &&& entries[name].idle()
    &&& forall|other: Seq<char>| #[trigger]
        entries.contains_key(other) && entries[other].idle() ==> entries[name].last_used_ms
            <= entries[other].last_used_ms
}

/// Whether a database is idle.
pub open spec fn some_idle(entries: Map<Seq<char>, DatabaseEntry>) -> bool {
    exists|name: Seq<char>| #[trigger] entries.contains_key(name) && entries[name].idle()
}

/// Whether an entry is idle and has not been used since `cutoff_ms`.
pub open spec fn stale(entry: DatabaseEntry, cutoff_ms: u64) -> bool {
    entry.idle() && entry.last_used_ms <= cutoff_ms
}

/// The entries that are not stale.
pub open spec fn fresh_entries(
    entries: Map<Seq<char>, DatabaseEntry>,
    cutoff_ms: u64,
) -> Map<Seq<char>, DatabaseEntry> {
    entries.restrict(
        Set::new(
            |name: Seq<char>| entries.contains_key(name) && !stale(entries[name], cutoff_ms),
        ),
    )
}

impl ManagerView {
    /// What always holds: no more databases are resident than are allowed, each under a
    /// valid name, none of them closing and none held by more requests than are allowed;
    /// every stay has a number of its own; and every request that holds a slot holds a
    /// lease, on a resident database or on a stay that has ended.
    pub open spec fn wf(self) -> bool {
        &&& self.resident.dom().finite()
        &&& self.resident.dom().len() <= self.settings.max_open_databases
        &&& forall|name: Seq<char>| #[trigger]
            self.resident.contains_key(name) ==> valid_name(name)
                && !self.resident[name].closing() && self.resident[name].active_leases
                <= self.settings.max_requests_per_database && self.resident[name].id < self.next_id
        &&& forall|name: Seq<char>, other: Seq<char>|
            #![trigger self.resident.contains_key(name), self.resident.contains_key(other)]
            self.resident.contains_key(name) && self.resident.contains_key(other) && name != other
                ==> self.resident[name].id != self.resident[other].id
        &&& self.in_flight == lease_sum(self.resident) + self.detached
        &&& self.in_flight <= self.settings.max_concurrent_requests
    }

    /// How many requests hold a database.
    pub open spec fn leases(self, name: Seq<char>) -> nat {
        if self.resident.contains_key(name) {
            self.resident[name].active_leases as nat
        } else {
            0
        }
    }

    /// Whether both a slot of the process and one of the database are free. The lease count
    /// that marks a closing entry is never given out.
    pub open spec fn slot_free(self, name: Seq<char>) -> bool {
        &&& self.in_flight < self.settings.max_concurrent_requests
        &&& self.leases(name) < self.settings.max_requests_per_database
        &&& self.leases(name) + 1 < CLOSED
    }

    /// Whether as many databases are resident as are allowed.
    pub open spec fn full(self) -> bool {
        self.resident.dom().len() >= self.settings.max_open_databases
    }

    /// After a request was shed.
    pub open spec fn shed(self) -> Self {
        ManagerView {
            metrics: MetricsView {
                requests_shed: self.metrics.requests_shed.wrapping_add(1),
                ..self.metrics
            },
            ..self
        }
    }

    /// After the stay of `name` has ended.
    pub open spec fn without(self, name: Seq<char>) -> Self {
        ManagerView { resident: self.resident.remove(name), ..self }
    }

    /// After `name` was evicted.
    pub open spec fn evicted(self, name: Seq<char>) -> Self {
        ManagerView {
            resident: self.resident.remove(name),
            metrics: MetricsView {
                databases_evicted: self.metrics.databases_evicted.wrapping_add(1),
                ..self.metrics
            },
            ..self
        }
    }

    /// After a new stay of `name` has begun.
    pub open spec fn admitted(self, name: Seq<char>, now_ms: u64) -> Self {
        ManagerView {
            resident: self.resident.insert(
                name,
                DatabaseEntry {
                    id: self.next_id,
                    open: false,
                    last_used_ms: now_ms,
                    active_leases: 0,
                },
            ),
            next_id: (self.next_id + 1) as u64,
            ..self
        }
    }

    /// After a request that had waited for a slot took a lease on `name`. A database whose
    /// connections are open counts as used now; another only once they are open.
    pub open spec fn lent(self, name: Seq<char>, waited: Duration, now_ms: u64) -> Self {
        let entry = self.resident[name].leased();
        ManagerView {
            resident: self.resident.insert(
                name,
                if entry.open {
                    entry.touched(now_ms)
                } else {
                    entry
                },
            ),
            in_flight: (self.in_flight + 1) as usize,
            metrics: MetricsView {
                admission_wait: self.metrics.admission_wait.recorded(waited),
                ..self.metrics
            },
            ..self
        }
    }
}

impl DatabaseManager {
    /// A manager without resident databases.
    pub fn new(settings: DatabaseSettings) -> (manager: Self)
        ensures
            manager@.wf(),
            manager@ == (ManagerView {
                settings: settings@,
                resident: Map::empty(),
                next_id: 0,
                in_flight: 0,
                detached: 0,
                metrics: MetricsView::zero(),
            }),
    {
        DatabaseManager {
            settings,
            entries: empty_table(),
            next_id: 0,
            in_flight: 0,
            detached: 0,
            metrics: Metrics::default(),
        }
    }

    /// Ends the stay of a database that nobody holds.
    pub fn take(&mut self, name: &str) -> (taken: Option<Residency>)
        requires
            old(self)@.wf(),
        ensures
            final(self)@.wf(),
            match taken {
                Some(residency) => old(self)@.resident.contains_key(name@) && old(
                    self,
                )@.resident[name@].idle() && residency.stands_for(
                    name@,
                    old(self)@.resident[name@],
                ) && final(self)@ == old(self)@.without(name@),
                None => !(old(self)@.resident.contains_key(name@) && old(
                    self,
                )@.resident[name@].idle()) && final(self)@ == old(self)@,
            },
    {
        let mut entry = match lookup(&self.entries, name) {
            Some(entry) => entry,
            None => {
                return None;
            },
        };
        if !entry.begin_close() {
            return None;
        }
        unlink(&mut self.entries, name);
        proof {
            lemma_lease_sum_remove(old(self)@.resident, name@);
        }
        Some(Residency { name: name.to_owned(), id: entry.id, open: entry.open })
    }

    /// Ends the stay of the database that has been idle for longest. Which of several that
    /// were last used at the same moment goes is left open.
    pub fn evict_oldest_idle(&mut self) -> (evicted: Option<Residency>)
        requires
            old(self)@.wf(),
        ensures
            final(self)@.wf(),
            match evicted {
                Some(residency) => oldest_idle(old(self)@.resident, residency.name@)
                    && residency.stands_for(
                    residency.name@,
                    old(self)@.resident[residency.name@],
                ) && final(self)@ == old(self)@.evicted(residency.name@),
                None => !some_idle(old(self)@.resident) && final(self)@ == old(self)@,
            },
    {
        let items = listing(&self.entries);
        let mut candidate: Option<usize> = None;
        let mut index: usize = 0;
        while index < items.len()
            invariant
                index <= items.len(),
                match candidate {
                    Some(best) => best < index && items@[best as int].1.idle() && forall|j: int|
                        0 <= j < index && (#[trigger] items@[j]).1.idle()
                            ==> items@[best as int].1.last_used_ms <= items@[j].1.last_used_ms,
                    None => forall|j: int|
                        0 <= j < index ==> !(#[trigger] items@[j]).1.idle(),
                },
            decreases items.len() - index,
        {
            if items[index].1.active_leases == 0 {
                let older = match candidate {
                    Some(best) => items[index].1.last_used_ms < items[best].1.last_used_ms,
                    None => true,
                };
                if older {
                    candidate = Some(index);
                }
            }
            index = index + 1;
        }
        match candidate {
            Some(best) => {
                let ghost before = old(self)@.resident;
                assert(oldest_idle(before, items@[best as int].0@)) by {
                    let oldest = before[items@[best as int].0@];
                    assert forall|other: Seq<char>| #[trigger]
                        before.contains_key(other)
                            && before[other].idle() implies oldest.last_used_ms
                        <= before[other].last_used_ms by {
                        let j = choose|j: int|
                            0 <= j < items@.len() && #[trigger] items@[j].0@ == other;
                        assert(items@[j].1.idle());
                    }
                }
                let evicted = self.take(items[best].0.as_str());
                self.metrics.record_eviction();
                evicted
            },
            None => {
                assert forall|name: Seq<char>| #[trigger]
                    old(self)@.resident.contains_key(name) implies !old(
                    self,
                )@.resident[name].idle() by {
                    let j = choose|j: int|
                        0 <= j < items@.len() && #[trigger] items@[j].0@ == name;
                    assert(!items@[j].1.idle());
                }
                None
            },
        }
    }
}

/// Whether a new stay can begin: there is room, or a database is idle that can make room, and
/// stays can still be numbered.
pub open spec fn admissible(manager: ManagerView) -> bool {
    &&& manager.full() ==> some_idle(manager.resident)
    &&& manager.next_id < u64::MAX
}

/// What [`DatabaseManager::slot`] answers, and what it leaves behind.
pub open spec fn makes_resident(
    before: ManagerView,
    after: ManagerView,
    name: Seq<char>,
    now_ms: u64,
    result: Result<Option<Residency>, AppError>,
) -> bool {
    if before.resident.contains_key(name) {
        result == Ok::<Option<Residency>, AppError>(None) && after == before
    } else if !admissible(before) {
        result == Err::<Option<Residency>, AppError>(AppError::CapacityBusy) && after == before
    } else {
        &&& result matches Ok(evicted)
        &&& match evicted {
            Some(residency) => {
                &&& before.full()
                &&& oldest_idle(before.resident, residency.name@)
                &&& residency.stands_for(residency.name@, before.resident[residency.name@])
                &&& after == before.evicted(residency.name@).admitted(name, now_ms)
            },
            None => !before.full() && after == before.admitted(name, now_ms),
        }
    }
}

/// What [`DatabaseManager::acquire`] answers, and what it leaves behind.
pub open spec fn acquires(
    before: ManagerView,
    after: ManagerView,
    name: Seq<char>,
    waited: Duration,
    now_ms: u64,
    result: Result<Admission, AppError>,
) -> bool {
    if !valid_name(name) {
        result == Err::<Admission, AppError>(AppError::InvalidDatabaseName) && after == before
    } else if !before.slot_free(name) {
        if waited.nanos / 1_000_000 >= before.settings.admission_timeout_ms {
            result == Err::<Admission, AppError>(AppError::Overloaded) && after == before.shed()
        } else {
            &&& result matches Ok(Admission::Wait { remaining_ms })
            &&& remaining_ms == before.settings.admission_timeout_ms - waited.nanos / 1_000_000
            &&& after == before
        }
    } else if before.resident.contains_key(name) {
        &&& result matches Ok(Admission::Leased { lease, must_open, evicted })
        &&& lease@ == (LeaseView { name, id: before.resident[name].id })
        &&& must_open == !before.resident[name].open
        &&& evicted is None
        &&& after == before.lent(name, waited, now_ms)
    } else if !admissible(before) {
        result == Err::<Admission, AppError>(AppError::CapacityBusy) && after == before
    } else {
        &&& result matches Ok(Admission::Leased { lease, must_open, evicted })
        &&& lease@ == (LeaseView { name, id: before.next_id })
        &&& must_open
        &&& match evicted {
            Some(residency) => {
                &&& before.full()
                &&& oldest_idle(before.resident, residency.name@)
                &&& residency.stands_for(residency.name@, before.resident[residency.name@])
                &&& after == before.evicted(residency.name@).admitted(name, now_ms).lent(
                    name,
                    waited,
                    now_ms,
                )
            },
            None => {
                &&& !before.full()
                &&& after == before.admitted(name, now_ms).lent(name, waited, now_ms)
            },
        }
    }
}

impl DatabaseManager {
    /// Makes `name` resident where it is not. Evicts a database where there is no room for it.
    pub fn slot(&mut self, name: &str, now_ms: u64) -> (result: Result<
        Option<Residency>,
        AppError,
    >)
        requires
            old(self)@.wf(),
            valid_name(name@),
        ensures
            final(self)@.wf(),
            makes_resident(old(self)@, final(self)@, name@, now_ms, result),
    {
        if lookup(&self.entries, name).is_some() {
            return Ok(None);
        }
        if self.next_id == u64::MAX {
            return Err(AppError::CapacityBusy);
        }
        let mut evicted: Option<Residency> = None;
        if size(&self.entries) >= self.settings.max_open_databases {
            evicted = self.evict_oldest_idle();
            if evicted.is_none() {
                return Err(AppError::CapacityBusy);
            }
            assert(!self@.resident.contains_key(name@));
        }
        let ghost between = self@;
        let entry = DatabaseEntry::new(self.next_id, now_ms);
        store(&mut self.entries, name, entry);
        self.next_id = self.next_id + 1;
        proof {
            lemma_lease_sum_insert(between.resident, name@, entry);
        }
        Ok(evicted)
    }

    /// Answers a request for `name` that has waited for `waited`. It is admitted when a slot
    /// of the process and one of the database are free, and shed once it has waited for too
    /// long. A request that is admitted takes a lease, which keeps the database resident.
    pub fn acquire(&mut self, name: &str, waited: Duration, now_ms: u64) -> (result: Result<
        Admission,
        AppError,
    >)
        requires
            old(self)@.wf(),
        ensures
            final(self)@.wf(),
            acquires(old(self)@, final(self)@, name@, waited, now_ms, result),
            ({
                let before = old(self)@;
                let holders = if before.resident.contains_key(name@) {
                    before.resident[name@].active_leases
                } else {
                    0
                };
                before.in_flight < before.settings.max_concurrent_requests && holders
                    < before.settings.max_requests_per_database && holders < usize::MAX - 1 ==> {
                    &&& result != Err::<Admission, AppError>(AppError::Overloaded)
                    &&& result matches Ok(admission) ==> admission is Leased
                }
            }),
    {
        match validate_database_name(name) {
            Ok(()) => {},
            Err(error) => {
                return Err(error);
            },
        }
        let leases: usize = match lookup(&self.entries, name) {
            Some(entry) => entry.active_leases,
            None => 0,
        };
        if self.in_flight >= self.settings.max_concurrent_requests || leases
            >= self.settings.max_requests_per_database || leases >= CLOSED - 1 {
            let waited_ms: u128 = waited.as_millis();
            if waited_ms >= self.settings.admission_timeout_ms as u128 {
                self.metrics.record_shed();
                return Err(AppError::Overloaded);
            }
            return Ok(
                Admission::Wait {
                    remaining_ms: self.settings.admission_timeout_ms - waited_ms as u64,
                },
            );
        }
        let evicted = match self.slot(name, now_ms) {
            Ok(evicted) => evicted,
            Err(error) => {
                return Err(error);
            },
        };
        let ghost between = self@;
        let found = lookup(&self.entries, name);
        assert(found is Some);
        let mut entry = found.unwrap();
        let leased = entry.lease();
        assert(leased);
        if entry.open {
            entry.touch(now_ms);
        }
        store(&mut self.entries, name, entry);
        self.in_flight = self.in_flight + 1;
        self.metrics.record_admission_wait(waited);
        proof {
            lemma_lease_sum_update(between.resident, name@, entry);
            assert(between.resident.insert(name@, entry).dom() =~= between.resident.dom());
        }
        Ok(
            Admission::Leased {
                lease: DatabaseLease { name: name.to_owned(), id: entry.id },
                must_open: !entry.open,
                evicted,
            },
        )
    }
}

impl ManagerView {
    /// Whether a lease is on a database that is still resident.
    pub open spec fn holds(self, lease: LeaseView) -> bool {
        &&& self.resident.contains_key(lease.name)
        &&& self.resident[lease.name].id == lease.id
        &&& !self.resident[lease.name].idle()
    }

    /// After the connections of a leased database have been opened. A stay that has ended
    /// meanwhile is left alone, and one whose connections were open already is not counted
    /// twice.
    pub open spec fn opened(self, lease: LeaseView, now_ms: u64) -> Self {
        if self.holds(lease) {
            let entry = self.resident[lease.name];
            ManagerView {
                resident: self.resident.insert(
                    lease.name,
                    DatabaseEntry { open: true, last_used_ms: now_ms, ..entry },
                ),
                metrics: MetricsView {
                    databases_opened: if entry.open {
                        self.metrics.databases_opened
                    } else {
                        self.metrics.databases_opened.wrapping_add(1)
                    },
                    ..self.metrics
                },
                ..self
            }
        } else {
            self
        }
    }

    /// After a lease on a stay that has ended was given back.
    pub open spec fn detached_released(self) -> Self {
        if self.detached > 0 {
            ManagerView {
                in_flight: (self.in_flight - 1) as usize,
                detached: (self.detached - 1) as usize,
                ..self
            }
        } else {
            self
        }
    }

    /// After a lease was given back, and with it the slots of its request.
    pub open spec fn released(self, lease: LeaseView, now_ms: u64) -> Self {
        if self.holds(lease) {
            ManagerView {
                resident: self.resident.insert(
                    lease.name,
                    self.resident[lease.name].released().touched(now_ms),
                ),
                in_flight: (self.in_flight - 1) as usize,
                ..self
            }
        } else {
            self.detached_released()
        }
    }

    /// After the connections of a leased database could not be opened: its stay ends, and
    /// the lease is given back. Other leases on that stay outlive it.
    pub open spec fn open_failed(self, lease: LeaseView) -> Self {
        if self.holds(lease) {
            ManagerView {
                resident: self.resident.remove(lease.name),
                in_flight: (self.in_flight - 1) as usize,
                detached: (self.detached + self.resident[lease.name].active_leases - 1) as usize,
                ..self
            }
        } else {
            self.detached_released()
        }
    }

    /// The moment, in milliseconds, before which an idle database must have been used last
    /// to be closed at `now_ms`.
    pub open spec fn cutoff_ms(self, now_ms: u64) -> u64 {
        let timeout_ms = self.settings.idle_timeout_seconds * 1_000;
        if now_ms >= timeout_ms {
            (now_ms - timeout_ms) as u64
        } else {
            0
        }
    }

    /// After the idle databases that were stale at `now_ms` have been closed, `closed` of
    /// them.
    pub open spec fn cleaned(self, now_ms: u64, closed: u64) -> Self {
        ManagerView {
            resident: fresh_entries(self.resident, self.cutoff_ms(now_ms)),
            metrics: MetricsView {
                databases_closed_idle: self.metrics.databases_closed_idle.wrapping_add(closed),
                ..self.metrics
            },
            ..self
        }
    }

    /// After every stay has ended.
    pub open spec fn emptied(self) -> Self {
        ManagerView { resident: Map::empty(), detached: self.in_flight, ..self }
    }

    /// What the service reports.
    pub open spec fn stats(self) -> ManagerStats {
        ManagerStats {
            open_databases: self.resident.dom().len() as usize,
            active_leases: lease_sum(self.resident) as usize,
            max_open_databases: self.settings.max_open_databases,
            available_request_slots: (self.settings.max_concurrent_requests
                - self.in_flight) as usize,
            max_concurrent_requests: self.settings.max_concurrent_requests,
        }
    }
}

/// Whether `residencies` are the stays of exactly those entries that satisfy `chosen`, each
/// once.
pub open spec fn lists(
    residencies: Seq<Residency>,
    entries: Map<Seq<char>, DatabaseEntry>,
    chosen: spec_fn(DatabaseEntry) -> bool,
) -> bool {
    &&& forall|i: int|
        0 <= i < residencies.len() ==> entries.contains_key((#[trigger] residencies[i]).name@)
            && chosen(entries[residencies[i].name@]) && residencies[i].stands_for(
            residencies[i].name@,
            entries[residencies[i].name@],
        )
    &&& forall|i: int, j: int|
        0 <= i < j < residencies.len() ==> (#[trigger] residencies[i]).name@ != (
        #[trigger] residencies[j]).name@
    &&& forall|name: Seq<char>| #[trigger]
        entries.contains_key(name) && chosen(entries[name]) ==> exists|i: int|
            0 <= i < residencies.len() && (#[trigger] residencies[i]).name@ == name
}

impl DatabaseManager {
    /// The entry that a lease is on, if the database is still resident.
    fn leased_entry(&self, lease: &DatabaseLease) -> (found: Option<DatabaseEntry>)
        ensures
            found == (if self@.holds(lease@) {
                Some(self@.resident[lease@.name])
            } else {
                None
            }),
    {
        match lookup(&self.entries, lease.name.as_str()) {
            Some(entry) => if entry.id == lease.id && entry.active_leases != 0 {
                Some(entry)
            } else {
                None
            },
            None => None,
        }
    }

    /// Notes that the connections of a leased database are open.
    pub fn opened(&mut self, lease: &DatabaseLease, now_ms: u64)
        requires
            old(self)@.wf(),
        ensures
            final(self)@.wf(),
            final(self)@ == old(self)@.opened(lease@, now_ms),
    {
        if let Some(found) = self.leased_entry(lease) {
            let mut entry = found;
            if !entry.open {
                self.metrics.record_open();
            }
            entry.open = true;
            entry.touch(now_ms);
            store(&mut self.entries, lease.name.as_str(), entry);
            proof {
                let before = old(self)@.resident;
                lemma_lease_sum_update(before, lease@.name, entry);
                assert(before.insert(lease@.name, entry).dom() =~= before.dom());
            }
        }
    }

    /// Gives back a lease whose stay has ended.
    fn release_detached(&mut self)
        requires
            old(self)@.wf(),
        ensures
            final(self)@.wf(),
            final(self)@ == old(self)@.detached_released(),
    {
        if self.detached > 0 {
            self.detached = self.detached - 1;
            self.in_flight = self.in_flight - 1;
        }
    }

    /// Gives a lease back, and with it the slots of its request.
    pub fn release(&mut self, lease: DatabaseLease, now_ms: u64)
        requires
            old(self)@.wf(),
        ensures
            final(self)@.wf(),
            final(self)@ == old(self)@.released(lease@, now_ms),
    {
        match self.leased_entry(&lease) {
            Some(found) => {
                let mut entry = found;
                proof {
                    lemma_lease_sum_remove(old(self)@.resident, lease@.name);
                }
                entry.touch(now_ms);
                entry.active_leases = entry.active_leases - 1;
                store(&mut self.entries, lease.name.as_str(), entry);
                self.in_flight = self.in_flight - 1;
                proof {
                    let before = old(self)@.resident;
                    lemma_lease_sum_update(before, lease@.name, entry);
                    assert(before.insert(lease@.name, entry).dom() =~= before.dom());
                }
            },
            None => {
                self.release_detached();
            },
        }
    }

    /// Notes that the connections of a leased database could not be opened, and gives the
    /// lease back.
    pub fn open_failed(&mut self, lease: DatabaseLease)
        requires
            old(self)@.wf(),
        ensures
            final(self)@.wf(),
            final(self)@ == old(self)@.open_failed(lease@),
    {
        match self.leased_entry(&lease) {
            Some(entry) => {
                proof {
                    lemma_lease_sum_remove(old(self)@.resident, lease@.name);
                }
                unlink(&mut self.entries, lease.name.as_str());
                self.detached = self.detached + (entry.active_leases - 1);
                self.in_flight = self.in_flight - 1;
            },
            None => {
                self.release_detached();
            },
        }
    }

    /// Ends the stay of every database that nobody holds and that has not been used for
    /// longer than the idle timeout.
    pub fn cleanup_idle(&mut self, now_ms: u64) -> (closed: Vec<Residency>)
        requires
            old(self)@.wf(),
        ensures
            final(self)@.wf(),
            lists(
                closed@,
                old(self)@.resident,
                |entry: DatabaseEntry| stale(entry, old(self)@.cutoff_ms(now_ms)),
            ),
            final(self)@ == old(self)@.cleaned(now_ms, closed@.len() as u64),
            ({
                let after = final(self)@;
                forall|name: Seq<char>| #[trigger]
                    after.resident.contains_key(name) ==> after.resident[name].active_leases > 0
                        || after.resident[name].last_used_ms + after.settings.idle_timeout_seconds
                        * 1_000 > now_ms
            }),
    {
        let timeout_ms: u128 = self.settings.idle_timeout().as_millis();
        let cutoff_ms: u64 = if now_ms as u128 >= timeout_ms {
            now_ms - timeout_ms as u64
        } else {
            0
        };
        let items = listing(&self.entries);
        let ghost before = old(self)@.resident;
        let ghost chosen = |entry: DatabaseEntry| stale(entry, cutoff_ms);
        let mut closed: Vec<Residency> = Vec::new();
        let mut index: usize = 0;
        while index < items.len()
            invariant
                index <= items.len(),
                self@.wf(),
                before == old(self)@.resident,
                self@ == (ManagerView { resident: self@.resident, ..old(self)@ }),
                chosen == |entry: DatabaseEntry| stale(entry, cutoff_ms),
                forall|i: int|
                    0 <= i < items@.len() ==> before.contains_key(#[trigger] items@[i].0@)
                        && before[items@[i].0@] == items@[i].1,
                forall|i: int, j: int|
                    0 <= i < j < items@.len() ==> #[trigger] items@[i].0@
                        != #[trigger] items@[j].0@,
                forall|name: Seq<char>| #[trigger]
                    self@.resident.contains_key(name) ==> before.contains_key(name)
                        && self@.resident[name] == before[name],
                forall|i: int|
                    0 <= i < items@.len() ==> self@.resident.contains_key(#[trigger] items@[i].0@)
                        == (i >= index || !stale(items@[i].1, cutoff_ms)),
                closed@.len() <= index,
                forall|k: int|
                    0 <= k < closed@.len() ==> before.contains_key((#[trigger] closed@[k]).name@)
                        && chosen(before[closed@[k].name@]) && closed@[k].stands_for(
                        closed@[k].name@,
                        before[closed@[k].name@],
                    ) && !self@.resident.contains_key(closed@[k].name@),
                forall|k: int, l: int|
                    0 <= k < l < closed@.len() ==> (#[trigger] closed@[k]).name@ != (
                    #[trigger] closed@[l]).name@,
                forall|i: int|
                    0 <= i < index && stale((#[trigger] items@[i]).1, cutoff_ms) ==> exists|k: int|
                        0 <= k < closed@.len() && (#[trigger] closed@[k]).name@ == items@[i].0@,
            decreases items.len() - index,
        {
            let entry = items[index].1;
            if entry.active_leases == 0 && entry.last_used_ms <= cutoff_ms {
                let ghost closed_before = closed@;
                assert(self@.resident.contains_key(items@[index as int].0@));
                if let Some(residency) = self.take(items[index].0.as_str()) {
                    closed.push(residency);
                }
                assert forall|i: int|
                    0 <= i < index + 1 && stale((#[trigger] items@[i]).1, cutoff_ms) implies exists|
                    k: int,
                |
                    0 <= k < closed@.len() && (#[trigger] closed@[k]).name@ == items@[i].0@ by {
                    if i == index {
                        assert(closed@[closed@.len() - 1].name@ == items@[i].0@);
                    } else {
                        let k = choose|k: int|
                            0 <= k < closed_before.len() && (#[trigger] closed_before[k]).name@
                                == items@[i].0@;
                        assert(closed@[k] == closed_before[k]);
                    }
                }
            }
            index = index + 1;
        }
        self.metrics.record_idle_close(closed.len());
        proof {
            assert(cutoff_ms == old(self)@.cutoff_ms(now_ms));
            assert forall|name: Seq<char>| #[trigger]
                before.contains_key(name) && chosen(before[name]) implies exists|k: int|
                0 <= k < closed@.len() && (#[trigger] closed@[k]).name@ == name by {
                let i = choose|i: int| 0 <= i < items@.len() && #[trigger] items@[i].0@ == name;
                assert(stale(items@[i].1, cutoff_ms));
            }
            assert(self@.resident =~= fresh_entries(before, cutoff_ms)) by {
                assert forall|name: Seq<char>| #[trigger]
                    before.contains_key(name) implies self@.resident.contains_key(name) == !stale(
                    before[name],
                    cutoff_ms,
                ) by {
                    let i = choose|i: int| 0 <= i < items@.len() && #[trigger] items@[i].0@ == name;
                    assert(items@[i].1 == before[name]);
                }
            }
        }
        closed
    }
}

/// The stays of the entries that `items` lists.
fn residencies(
    items: &Vec<(String, DatabaseEntry)>,
    only_open: bool,
    Ghost(entries): Ghost<Map<Seq<char>, DatabaseEntry>>,
    Ghost(chosen): Ghost<spec_fn(DatabaseEntry) -> bool>,
) -> (result: Vec<Residency>)
    requires
        forall|entry: DatabaseEntry| #[trigger] chosen(entry) == (entry.open || !only_open),
        forall|i: int|
            0 <= i < items@.len() ==> entries.contains_key(#[trigger] items@[i].0@)
                && entries[items@[i].0@] == items@[i].1,
        forall|i: int, j: int|
            0 <= i < j < items@.len() ==> #[trigger] items@[i].0@ != #[trigger] items@[j].0@,
        forall|name: Seq<char>| #[trigger]
            entries.contains_key(name) ==> exists|i: int|
                0 <= i < items@.len() && #[trigger] items@[i].0@ == name,
    ensures
        lists(result@, entries, chosen),
{
    let mut result: Vec<Residency> = Vec::new();
    let mut index: usize = 0;
    while index < items.len()
        invariant
            index <= items.len(),
            forall|entry: DatabaseEntry| #[trigger] chosen(entry) == (entry.open || !only_open),
            forall|i: int|
                0 <= i < items@.len() ==> entries.contains_key(#[trigger] items@[i].0@)
                    && entries[items@[i].0@] == items@[i].1,
            forall|i: int, j: int|
                0 <= i < j < items@.len() ==> #[trigger] items@[i].0@ != #[trigger] items@[j].0@,
            forall|k: int|
                0 <= k < result@.len() ==> entries.contains_key((#[trigger] result@[k]).name@)
                    && chosen(entries[result@[k].name@]) && result@[k].stands_for(
                    result@[k].name@,
                    entries[result@[k].name@],
                ) && exists|i: int|
                    0 <= i < index && #[trigger] items@[i].0@ == result@[k].name@,
            forall|k: int, l: int|
                0 <= k < l < result@.len() ==> (#[trigger] result@[k]).name@ != (
                #[trigger] result@[l]).name@,
            forall|i: int|
                0 <= i < index && chosen((#[trigger] items@[i]).1) ==> exists|k: int|
                    0 <= k < result@.len() && (#[trigger] result@[k]).name@ == items@[i].0@,
        decreases items.len() - index,
    {
        let ghost result_before = result@;
        let entry = items[index].1;
        if entry.open || !only_open {
            result.push(
                Residency { name: items[index].0.clone(), id: entry.id, open: entry.open },
            );
            assert forall|i: int|
                0 <= i < index + 1 && chosen((#[trigger] items@[i]).1) implies exists|k: int|
                0 <= k < result@.len() && (#[trigger] result@[k]).name@ == items@[i].0@ by {
                if i == index {
                    assert(result@[result@.len() - 1].name@ == items@[i].0@);
                } else {
                    let k = choose|k: int|
                        0 <= k < result_before.len() && (#[trigger] result_before[k]).name@
                            == items@[i].0@;
                    assert(result@[k] == result_before[k]);
                }
            }
        }
        assert forall|k: int| 0 <= k < result@.len() implies exists|i: int|
            0 <= i < index + 1 && #[trigger] items@[i].0@ == (#[trigger] result@[k]).name@ by {
            if k < result_before.len() {
                assert(result@[k] == result_before[k]);
                let i = choose|i: int|
                    0 <= i < index && #[trigger] items@[i].0@ == result_before[k].name@;
                assert(items@[i].0@ == result@[k].name@);
            } else {
                assert(items@[index as int].0@ == result@[k].name@);
            }
        }
        index = index + 1;
    }
    assert forall|name: Seq<char>| #[trigger]
        entries.contains_key(name) && chosen(entries[name]) implies exists|k: int|
        0 <= k < result@.len() && (#[trigger] result@[k]).name@ == name by {
        let i = choose|i: int| 0 <= i < items@.len() && #[trigger] items@[i].0@ == name;
        assert(chosen(items@[i].1));
    }
    result
}

impl DatabaseManager {
    /// What the service reports about its databases and its request slots.
    pub fn stats(&self) -> (stats: ManagerStats)
        requires
            self@.wf(),
        ensures
            stats == self@.stats(),
            stats.open_databases == self@.resident.dom().len(),
            stats.active_leases == lease_sum(self@.resident),
            stats.open_databases <= stats.max_open_databases,
            stats.available_request_slots + self@.in_flight == stats.max_concurrent_requests,
    {
        ManagerStats {
            open_databases: size(&self.entries),
            active_leases: self.in_flight - self.detached,
            max_open_databases: self.settings.max_open_databases,
            available_request_slots: self.settings.max_concurrent_requests - self.in_flight,
            max_concurrent_requests: self.settings.max_concurrent_requests,
        }
    }

    /// Ends every stay, also of databases that are held.
    pub fn close_all(&mut self) -> (closed: Vec<Residency>)
        requires
            old(self)@.wf(),
        ensures
            final(self)@.wf(),
            lists(closed@, old(self)@.resident, |entry: DatabaseEntry| true),
            final(self)@ == old(self)@.emptied(),
    {
        let items = listing(&self.entries);
        let closed = residencies(
            &items,
            false,
            Ghost(old(self)@.resident),
            Ghost(|entry: DatabaseEntry| true),
        );
        unlink_all(&mut self.entries);
        self.detached = self.in_flight;
        closed
    }

    /// The databases whose connections are open: those that a checkpoint visits.
    pub fn open_databases(&self) -> (open: Vec<Residency>)
        ensures
            lists(open@, self@.resident, |entry: DatabaseEntry| entry.open),
    {
        let items = listing(&self.entries);
        residencies(
            &items,
            true,
            Ghost(self@.resident),
            Ghost(|entry: DatabaseEntry| entry.open),
        )
    }

    /// Counts the checkpoints of a round.
    pub fn record_checkpoints(&mut self, databases: usize)
        requires
            old(self)@.wf(),
        ensures
            final(self)@.wf(),
            final(self)@ == (ManagerView {
                metrics: MetricsView {
                    wal_checkpoints: old(self)@.metrics.wal_checkpoints.wrapping_add(
                        databases as u64,
                    ),
                    ..old(self)@.metrics
                },
                ..old(self)@
            }),
    {
        self.metrics.record_checkpoints(databases);
    }

    /// Counts a request that was answered with an HTTP status.
    pub fn observe(&mut self, route: &str, elapsed: Duration, status: u16)
        requires
            old(self)@.wf(),
        ensures
            final(self)@.wf(),
            final(self)@ == (ManagerView {
                metrics: old(self)@.metrics.requested(route@, elapsed, 200 <= status < 300),
                ..old(self)@
            }),
    {
        self.metrics.record_request(route, elapsed, 200 <= status && status < 300);
    }

    /// What a scrape of the metrics reads.
    pub fn render_metrics(&self) -> (text: String)
        requires
            self@.wf(),
        ensures
            text@ == self@.metrics.rendered(self@.stats()),
    {
        self.metrics.render(&self.stats())
    }

    pub fn max_result_rows(&self) -> (rows: usize)
        ensures
            rows == self@.settings.max_result_rows,
    {
        self.settings.max_result_rows
    }

    /// The settings that the manager was made with.
    pub fn settings(&self) -> (settings: &DatabaseSettings)
        ensures
            settings@ == self@.settings,
    {
        &self.settings
    }
}

/// A moment in whole milliseconds, in 64 bits.
pub fn now_ms(since_epoch: Duration) -> (millis: u64)
    ensures
        millis == since_epoch.nanos / 1_000_000 % 0x1_0000_0000_0000_0000,
{
    (since_epoch.as_millis() % 0x1_0000_0000_0000_0000) as u64
}

/// A lease protects its database: neither a cleanup nor a request for another database ends
/// the stay of one that is held, or changes its entry.
pub proof fn law_leases_protect(
    before: ManagerView,
    after: ManagerView,
    name: Seq<char>,
    other: Seq<char>,
    waited: Duration,
    now_ms: u64,
    result: Result<Admission, AppError>,
    closed: u64,
)
    requires
        before.resident.contains_key(name),
        !before.resident[name].idle(),
        other != name,
        acquires(before, after, other, waited, now_ms, result),
    ensures
        after.resident.contains_key(name),
        after.resident[name] == before.resident[name],
        before.cleaned(now_ms, closed).resident.contains_key(name),
        before.cleaned(now_ms, closed).resident[name] == before.resident[name],
{
}

/// A request for one database leaves every other one as it was, except that one that had been
/// idle for longest may make room, where there was none.
pub proof fn law_requests_touch_one_database(
    before: ManagerView,
    after: ManagerView,
    name: Seq<char>,
    other: Seq<char>,
    waited: Duration,
    now_ms: u64,
    result: Result<Admission, AppError>,
)
    requires
        other != name,
        acquires(before, after, name, waited, now_ms, result),
    ensures
        after.resident.contains_key(other) ==> before.resident.contains_key(other)
            && after.resident[other] == before.resident[other],
        before.resident.contains_key(other) && !after.resident.contains_key(other) ==> {
            &&& before.full()
            &&& oldest_idle(before.resident, other)
            &&& result matches Ok(Admission::Leased { lease, must_open, evicted })
            &&& evicted matches Some(residency)
            &&& residency.name@ == other
        },
{
}

/// A database that is resident stays as it is, however full the table is. Another is refused
/// exactly where as many are resident as are allowed and all of them are held, which changes
/// nothing. Otherwise it becomes resident with no lease; at most one other leaves, an idle one,
/// and only where the table was full; and no more are resident than are allowed. Stays are taken
/// to be few enough to be numbered in 64 bits.
pub proof fn law_residency_is_made_or_refused(
    before: ManagerView,
    after: ManagerView,
    name: Seq<char>,
    now_ms: u64,
    result: Result<Option<Residency>, AppError>,
)
    requires
        before.wf(),
        before.settings.max_open_databases >= 1,
        before.next_id < u64::MAX,
        makes_resident(before, after, name, now_ms, result),
    ensures
        before.resident.contains_key(name) ==> result is Ok && after == before,
        result is Err <==> !before.resident.contains_key(name) && before.resident.dom().len()
            == before.settings.max_open_databases && !some_idle(before.resident),
        result matches Err(error) ==> error == AppError::CapacityBusy && after == before,
        result is Ok ==> after.resident.contains_key(name),
        result is Ok && !before.resident.contains_key(name) ==> after.resident[name].idle(),
        forall|other: Seq<char>|
            other != name && before.resident.contains_key(other)
                && !#[trigger] after.resident.contains_key(other) ==> before.full()
                && before.resident[other].idle() && (result matches Ok(Some(residency))
                && residency.name@ == other),
        forall|other: Seq<char>|
            other != name && #[trigger] after.resident.contains_key(other)
                ==> before.resident.contains_key(other) && after.resident[other]
                == before.resident[other],
        after.resident.dom().len() <= after.settings.max_open_databases,
{
}

/// What becomes of a lease is a matter of its own database: to open its connections, to fail to,
/// and to give it back leaves every other database as it was.
pub proof fn law_leases_touch_their_own_database(
    manager: ManagerView,
    lease: LeaseView,
    other: Seq<char>,
    now_ms: u64,
)
    requires
        other != lease.name,
    ensures
        manager.opened(lease, now_ms).resident.contains_key(other)
            == manager.resident.contains_key(other),
        manager.opened(lease, now_ms).resident[other] == manager.resident[other],
        manager.released(lease, now_ms).resident.contains_key(other)
            == manager.resident.contains_key(other),
        manager.released(lease, now_ms).resident[other] == manager.resident[other],
        manager.open_failed(lease).resident.contains_key(other)
            == manager.resident.contains_key(other),
        manager.resident.contains_key(other) ==> manager.open_failed(lease).resident[other]
            == manager.resident[other],
{
}

/// While every open database is held and there is no room for another, a new one is refused:
/// the answer is 503 `capacity_busy`.
pub proof fn law_capacity_busy(
    before: ManagerView,
    after: ManagerView,
    name: Seq<char>,
    waited: Duration,
    now_ms: u64,
    result: Result<Admission, AppError>,
)
    requires
        acquires(before, after, name, waited, now_ms, result),
        valid_name(name),
        before.slot_free(name),
        !before.resident.contains_key(name),
        before.full(),
        forall|other: Seq<char>| #[trigger]
            before.resident.contains_key(other) ==> !before.resident[other].idle(),
    ensures
        result == Err::<Admission, AppError>(AppError::CapacityBusy),
        AppError::CapacityBusy.status() == 503,
        AppError::CapacityBusy.code() == "capacity_busy"@,
        after == before,
{
}

/// Where there is no room but a database is idle, the one that has been idle for longest makes
/// room: it is handed out to be closed, and the new one is admitted in its place.
pub proof fn law_idle_databases_make_room(
    before: ManagerView,
    after: ManagerView,
    name: Seq<char>,
    waited: Duration,
    now_ms: u64,
    result: Result<Admission, AppError>,
)
    requires
        acquires(before, after, name, waited, now_ms, result),
        valid_name(name),
        before.slot_free(name),
        !before.resident.contains_key(name),
        before.full(),
        some_idle(before.resident),
        before.next_id < u64::MAX,
    ensures
        result matches Ok(Admission::Leased { lease, must_open, evicted }) && {
            &&& lease@.name == name
            &&& must_open
            &&& evicted matches Some(residency)
            &&& oldest_idle(before.resident, residency.name@)
            &&& !after.resident.contains_key(residency.name@)
            &&& after.resident.contains_key(name)
        },
{
}

/// A request that has waited for its slots past the timeout is shed: it is counted, it changes
/// nothing else, and the answer is 429 `overloaded` with a time to try again. Before that it is
/// told to wait.
pub proof fn law_overload_is_shed(
    before: ManagerView,
    after: ManagerView,
    name: Seq<char>,
    waited: Duration,
    now_ms: u64,
    result: Result<Admission, AppError>,
)
    requires
        acquires(before, after, name, waited, now_ms, result),
        valid_name(name),
        !before.slot_free(name),
    ensures
        after.resident == before.resident,
        after.in_flight == before.in_flight,
        result == Err::<Admission, AppError>(AppError::Overloaded) <==> waited.nanos / 1_000_000
            >= before.settings.admission_timeout_ms,
        result is Err ==> after == before.shed(),
        result is Ok ==> result->Ok_0 is Wait && after == before,
        AppError::Overloaded.status() == 429,
        AppError::Overloaded.code() == "overloaded"@,
        AppError::Overloaded.retry_after() is Some,
{
}

/// A lease that is given back leaves as many leases on its database and as many slots taken as
/// there were before it was granted, and it leaves the other databases alone.
pub proof fn law_release_undoes_acquire(
    before: ManagerView,
    after: ManagerView,
    name: Seq<char>,
    waited: Duration,
    now_ms: u64,
    result: Result<Admission, AppError>,
    later_ms: u64,
)
    requires
        before.wf(),
        acquires(before, after, name, waited, now_ms, result),
        result is Ok,
        result->Ok_0 is Leased,
    ensures
        after.holds(result->Ok_0->lease@),
        after.in_flight == before.in_flight + 1,
        after.released(result->Ok_0->lease@, later_ms).leases(name) == before.leases(name),
        after.released(result->Ok_0->lease@, later_ms).in_flight == before.in_flight,
        after.released(result->Ok_0->lease@, later_ms).resident.contains_key(name),
        after.released(result->Ok_0->lease@, later_ms).resident[name].last_used_ms == later_ms,
        after.released(result->Ok_0->lease@, later_ms).resident.remove(name)
            == after.resident.remove(name),
{
    let lease = result->Ok_0->lease@;
    assert(lease.name == name);
    assert(after.released(lease, later_ms).resident.remove(name) =~= after.resident.remove(name));
}

/// A request starts the idle time of its database anew: for as long as the timeout lasts after
/// it, no cleanup closes the database. A moment of zero, which is as early as a cutoff gets, is
/// left out.
pub proof fn law_use_resets_the_idle_time(
    manager: ManagerView,
    entry: DatabaseEntry,
    used_ms: u64,
    now_ms: u64,
)
    requires
        used_ms > 0,
        now_ms < used_ms + manager.settings.idle_timeout_seconds * 1_000,
    ensures
        !stale(entry.touched(used_ms), manager.cutoff_ms(now_ms)),
{
}

/// A cleanup closes nothing that a second cleanup at the same moment would still find.
pub proof fn law_cleanup_is_complete(manager: ManagerView, now_ms: u64, closed: u64, again: u64)
    ensures
        forall|name: Seq<char>| #[trigger]
            manager.cleaned(now_ms, closed).resident.contains_key(name) ==> !stale(
                manager.resident[name],
                manager.cutoff_ms(now_ms),
            ),
        manager.cleaned(now_ms, closed).cleaned(now_ms, again).resident == manager.cleaned(
            now_ms,
            closed,
        ).resident,
{
    let once = manager.cleaned(now_ms, closed);
    assert(once.cleaned(now_ms, again).resident =~= once.resident);
}

} // verus!

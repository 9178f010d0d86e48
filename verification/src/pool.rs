//! How the connections of a database are opened.

use crate::config::DatabaseSettings;
use crate::text::{decimal_text, push_decimal};
use vstd::prelude::*;

verus! {

/// What a connection is for.
#[derive(Clone, Copy, Debug, PartialEq, Eq, Structural)]
pub enum Role {
    Writer,
    Reader,
}

/// How SQLite journals what it writes.
#[derive(Clone, Copy, Debug, PartialEq, Eq, Structural)]
pub enum JournalMode {
    Delete,
    Truncate,
    Persist,
    Memory,
    Wal,
    Off,
}

/// How often SQLite waits until what it has written is on disk.
#[derive(Clone, Copy, Debug, PartialEq, Eq, Structural)]
pub enum Synchronous {
    Off,
    Normal,
    Full,
    Extra,
}

/// Bytes of one page of a database file.
pub const PAGE_BYTES: u128 = 4_096;

/// Bytes of one megabyte.
pub const MEGABYTE: u128 = 1_048_576;

/// How the connections of one role are opened.
#[derive(Debug)]
pub struct PoolPlan {
    pub max_connections: u32,
    /// Whether the file is made where there is none.
    pub create_if_missing: bool,
    pub journal_mode: JournalMode,
    pub synchronous: Synchronous,
    /// Whether foreign keys are enforced.
    pub foreign_keys: bool,
    pub busy_timeout_ms: u64,
    pub acquire_timeout_seconds: u64,
    pub statement_cache_capacity: usize,
    /// Further pragmas, name and value.
    pub pragmas: Vec<(&'static str, String)>,
}

/// The page cache of a connection.
pub open spec fn cache_size_kb(settings: DatabaseSettings, role: Role) -> u32 {
    match settings.cache_size_kb {
        Some(size) => size,
        None => match role {
            Role::Writer => settings.writer_cache_size_kb,
            Role::Reader => settings.reader_cache_size_kb,
        },
    }
}

/// The pragmas of a connection: a page cache in kilobytes, which SQLite takes as a negative
/// number; the mapped bytes; the bytes to which the log is trimmed; the pages at which a
/// write checkpoints by itself; and, for a reader, that it only reads.
pub open spec fn pragmas(settings: DatabaseSettings, role: Role) -> Seq<(Seq<char>, Seq<char>)> {
    seq![
        ("cache_size"@, "-"@ + decimal_text(cache_size_kb(settings, role) as nat)),
        ("mmap_size"@, decimal_text((settings.mmap_size_mb * MEGABYTE) as nat)),
        ("journal_size_limit"@, decimal_text((settings.wal_size_limit_mb * MEGABYTE) as nat)),
        (
            "wal_autocheckpoint"@,
            decimal_text((settings.wal_size_limit_mb * MEGABYTE / (PAGE_BYTES as int)) as nat),
        ),
        (
            "query_only"@,
            if role == Role::Reader {
                "ON"@
            } else {
                "OFF"@
            },
        ),
    ]
}

/// What a list of pragmas holds.
pub open spec fn pragmas_view(list: Seq<(&'static str, String)>) -> Seq<(Seq<char>, Seq<char>)> {
    Seq::new(list.len(), |i: int| (list[i].0@, list[i].1@))
}

fn push_pragma(list: &mut Vec<(&'static str, String)>, name: &'static str, value: String)
    ensures
        pragmas_view(final(list)@) == pragmas_view(old(list)@).push((name@, value@)),
{
    list.push((name, value));
    assert(pragmas_view(list@) =~= pragmas_view(old(list)@).push((name@, value@)));
}

fn number_text(number: u128) -> (text: String)
    ensures
        text@ == decimal_text(number as nat),
{
    let mut text = String::new();
    push_decimal(&mut text, number);
    assert(text@ =~= decimal_text(number as nat));
    text
}

/// How the connections of one role are opened. All of them keep a write-ahead log, sync it
/// normally and enforce foreign keys. There is one writer connection, and it alone makes the
/// file and writes to it.
pub fn pool_plan(settings: &DatabaseSettings, role: Role) -> (plan: PoolPlan)
    ensures
        plan.max_connections == (if role == Role::Writer {
            1
        } else {
            settings.reader_connections
        }),
        plan.create_if_missing == (role == Role::Writer),
        plan.journal_mode == JournalMode::Wal,
        plan.synchronous == Synchronous::Normal,
        plan.foreign_keys,
        plan.busy_timeout_ms == settings.busy_timeout_ms,
        plan.acquire_timeout_seconds == settings.acquire_timeout_seconds,
        plan.statement_cache_capacity == settings.statement_cache_capacity,
        pragmas_view(plan.pragmas@) == pragmas(*settings, role),
{
    let writes = match role {
        Role::Writer => true,
        Role::Reader => false,
    };
    let cache_kb: u32 = match settings.cache_size_kb {
        Some(size) => size,
        None => if writes {
            settings.writer_cache_size_kb
        } else {
            settings.reader_cache_size_kb
        },
    };
    let mut cache = "-".to_owned();
    push_decimal(&mut cache, cache_kb as u128);
    let wal_bytes: u128 = settings.wal_size_limit_mb as u128 * MEGABYTE;
    let mut list: Vec<(&'static str, String)> = Vec::new();
    push_pragma(&mut list, "cache_size", cache);
    push_pragma(&mut list, "mmap_size", number_text(settings.mmap_size_mb as u128 * MEGABYTE));
    push_pragma(&mut list, "journal_size_limit", number_text(wal_bytes));
    push_pragma(&mut list, "wal_autocheckpoint", number_text(wal_bytes / PAGE_BYTES));
    push_pragma(
        &mut list,
        "query_only",
        if writes {
            "OFF".to_owned()
        } else {
            "ON".to_owned()
        },
    );
    assert(pragmas_view(list@) =~= pragmas(*settings, role));
    PoolPlan {
        max_connections: if writes {
            1
        } else {
            settings.reader_connections
        },
        create_if_missing: writes,
        journal_mode: JournalMode::Wal,
        synchronous: Synchronous::Normal,
        foreign_keys: true,
        busy_timeout_ms: settings.busy_timeout_ms,
        acquire_timeout_seconds: settings.acquire_timeout_seconds,
        statement_cache_capacity: settings.statement_cache_capacity,
        pragmas: list,
    }
}

} // verus!

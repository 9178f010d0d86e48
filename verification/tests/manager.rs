use tinkiva_database::config::DatabaseSettings;
use tinkiva_database::db::{
    database_file_name, now_ms, validate_database_name, Admission, DatabaseEntry, DatabaseLease,
    DatabaseManager, Residency, CLOSED,
};
use tinkiva_database::duration::Duration;
use tinkiva_database::error::AppError;
use tinkiva_database::metrics::ROUTES;

fn manager(max_open_databases: usize) -> DatabaseManager {
    DatabaseManager::new(DatabaseSettings {
        max_open_databases,
        ..Default::default()
    })
}

/// Acquires a database at once and opens its connections where they are not open.
fn leased(manager: &mut DatabaseManager, name: &str, now: u64) -> (DatabaseLease, Option<Residency>) {
    match manager.acquire(name, Duration::from_millis(0), now) {
        Ok(Admission::Leased {
            lease,
            must_open,
            evicted,
        }) => {
            if must_open {
                manager.opened(&lease, now);
            }
            (lease, evicted)
        }
        other => panic!("{other:?}"),
    }
}

fn used(manager: &mut DatabaseManager, name: &str, now: u64) {
    let (lease, _) = leased(manager, name, now);
    manager.release(lease, now);
}

#[test]
fn validates_safe_database_names() {
    assert!(validate_database_name("tenant-01_ok").is_ok());
    assert!(validate_database_name("../escape").is_err());
    assert!(validate_database_name("with space").is_err());
    assert!(validate_database_name("").is_err());
}

#[test]
fn names_start_with_a_letter_or_digit_and_end_at_64_characters() {
    assert!(validate_database_name("a").is_ok());
    assert!(validate_database_name("0").is_ok());
    assert!(validate_database_name("Z-_z9").is_ok());
    assert!(validate_database_name(&"x".repeat(64)).is_ok());
    for name in ["-a", "_a", "a/b", "a.db", "a\\b", "\u{e9}", "a\u{e9}", "a\0"] {
        assert_eq!(validate_database_name(name), Err(AppError::InvalidDatabaseName), "{name}");
    }
    assert!(validate_database_name(&"x".repeat(65)).is_err());
}

#[test]
fn keeps_tenant_files_isolated() {
    assert_eq!(database_file_name("alpha"), "alpha.db");
    assert_eq!(database_file_name("beta"), "beta.db");
}

#[test]
fn evicts_an_inactive_database_at_capacity() {
    let mut manager = manager(1);
    used(&mut manager, "first", 1);
    let (lease, evicted) = leased(&mut manager, "second", 2);
    assert_eq!(
        evicted,
        Some(Residency {
            name: "first".into(),
            id: 0,
            open: true
        })
    );
    manager.release(lease, 2);
    assert_eq!(manager.stats().open_databases, 1);
    let closed = manager.close_all();
    assert_eq!(
        closed,
        vec![Residency {
            name: "second".into(),
            id: 1,
            open: true
        }]
    );
}

#[test]
fn refuses_eviction_while_the_only_database_is_leased() {
    let mut manager = manager(1);
    let (active, _) = leased(&mut manager, "active", 1);
    assert!(matches!(
        manager.acquire("another", Duration::from_millis(0), 2),
        Err(AppError::CapacityBusy)
    ));
    manager.release(active, 3);
    assert!(manager
        .acquire("another", Duration::from_millis(0), 4)
        .is_ok());
    manager.close_all();
}

#[test]
fn cleanup_skips_active_leases_and_closes_idle_entries() {
    let mut manager = DatabaseManager::new(DatabaseSettings {
        idle_timeout_seconds: 0,
        ..Default::default()
    });
    let (active, _) = leased(&mut manager, "tenant", 10);
    assert_eq!(manager.cleanup_idle(10).len(), 0);
    manager.release(active, 10);
    assert_eq!(manager.cleanup_idle(10).len(), 1);
    assert_eq!(manager.stats().open_databases, 0);
}

#[test]
fn a_slow_cold_start_does_not_block_other_databases() {
    let mut manager = DatabaseManager::new(DatabaseSettings::default());
    // Twenty cold starts are all admitted while none of them has opened its connections.
    let mut leases = Vec::new();
    for index in 0..20 {
        match manager.acquire(&format!("tenant{index:02}"), Duration::from_millis(0), 1) {
            Ok(Admission::Leased {
                lease,
                must_open,
                evicted,
            }) => {
                assert!(must_open);
                assert_eq!(evicted, None);
                leases.push(lease);
            }
            other => panic!("{other:?}"),
        }
    }
    assert_eq!(manager.stats().open_databases, 20);
    assert_eq!(manager.stats().active_leases, 20);
    manager.close_all();
}

#[test]
fn reports_metrics_labelled_by_route_not_tenant() {
    let mut manager = DatabaseManager::new(DatabaseSettings::default());
    for tenant in ["alpha", "beta"] {
        used(&mut manager, tenant, 1);
        manager.observe(ROUTES[1], Duration::from_millis(1), 200);
    }
    let body = manager.render_metrics();
    assert!(body.contains(
        "tinkiva_requests_total{route=\"/v1/db/{database}/execute\",outcome=\"ok\"} 2"
    ));
    assert!(body.contains("tinkiva_databases_opened_total 2"));
    assert!(body.contains("tinkiva_open_databases 2"));
    assert!(
        !body.contains("alpha"),
        "tenant names must not become labels"
    );
}

#[test]
fn the_least_recently_used_database_makes_room() {
    let mut manager = manager(3);
    used(&mut manager, "a", 10);
    used(&mut manager, "b", 5);
    used(&mut manager, "c", 20);
    let (held, _) = leased(&mut manager, "b", 6);
    let (_, evicted) = leased(&mut manager, "d", 30);
    assert_eq!(evicted.map(|stay| stay.name), Some("a".to_owned()));
    manager.release(held, 40);
    let (_, evicted) = leased(&mut manager, "e", 50);
    assert_eq!(evicted.map(|stay| stay.name), Some("c".to_owned()));
    let (_, evicted) = leased(&mut manager, "f", 60);
    assert_eq!(evicted.map(|stay| stay.name), Some("b".to_owned()));
    assert!(manager.render_metrics().contains("tinkiva_databases_evicted_total 3\n"));
}

#[test]
fn a_database_that_is_resident_is_used_again() {
    let mut manager = manager(1);
    used(&mut manager, "a", 1);
    match manager.acquire("a", Duration::from_millis(0), 2) {
        Ok(Admission::Leased {
            lease,
            must_open,
            evicted,
        }) => {
            assert!(!must_open);
            assert_eq!(evicted, None);
            assert_eq!((lease.name(), lease.id()), ("a", 0));
        }
        other => panic!("{other:?}"),
    }
}

#[test]
fn requests_without_a_slot_wait_and_are_shed() {
    let mut manager = DatabaseManager::new(DatabaseSettings {
        max_concurrent_requests: 3,
        max_requests_per_database: 2,
        admission_timeout_ms: 50,
        ..Default::default()
    });
    let (first, _) = leased(&mut manager, "a", 1);
    let (_second, _) = leased(&mut manager, "a", 1);
    assert!(matches!(
        manager.acquire("a", Duration::from_millis(0), 1),
        Ok(Admission::Wait { remaining_ms: 50 })
    ));
    assert!(matches!(
        manager.acquire("a", Duration { nanos: 49_999_999 }, 1),
        Ok(Admission::Wait { remaining_ms: 1 })
    ));
    assert!(matches!(
        manager.acquire("a", Duration::from_millis(50), 1),
        Err(AppError::Overloaded)
    ));
    assert!(manager.render_metrics().contains("tinkiva_requests_shed_total 1\n"));
    // The slots of one database are not those of another.
    let (_third, _) = leased(&mut manager, "b", 2);
    assert_eq!(manager.stats().available_request_slots, 0);
    assert!(matches!(
        manager.acquire("c", Duration::from_millis(51), 3),
        Err(AppError::Overloaded)
    ));
    // A lease that is given back frees its slots.
    manager.release(first, 4);
    assert_eq!(manager.stats().available_request_slots, 1);
    assert_eq!(manager.stats().active_leases, 2);
    let (_fourth, _) = leased(&mut manager, "c", 5);
}

#[test]
fn invalid_names_are_refused_before_anything_else() {
    let mut manager = DatabaseManager::new(DatabaseSettings {
        max_concurrent_requests: 0,
        ..Default::default()
    });
    assert!(matches!(
        manager.acquire("../escape", Duration::from_millis(1_000), 1),
        Err(AppError::InvalidDatabaseName)
    ));
    assert!(manager.render_metrics().contains("tinkiva_requests_shed_total 0\n"));
}

#[test]
fn a_failed_open_ends_the_stay_for_everyone() {
    let mut manager = manager(2);
    let mut leases = Vec::new();
    for _ in 0..2 {
        match manager.acquire("a", Duration::from_millis(0), 1) {
            Ok(Admission::Leased {
                lease, must_open, ..
            }) => {
                assert!(must_open);
                leases.push(lease);
            }
            other => panic!("{other:?}"),
        }
    }
    let second = leases.pop().unwrap();
    manager.open_failed(leases.pop().unwrap());
    assert_eq!(manager.stats().open_databases, 0);
    assert_eq!(manager.stats().active_leases, 0);
    assert_eq!(manager.stats().available_request_slots, 255);
    // The other request comes back to a stay that has ended, also once a new one has begun.
    let (third, _) = leased(&mut manager, "a", 2);
    assert_eq!(third.id(), 1);
    manager.opened(&second, 2);
    manager.release(second, 3);
    assert_eq!(manager.stats().active_leases, 1);
    assert_eq!(manager.stats().available_request_slots, 255);
    manager.release(third, 4);
    assert_eq!(manager.stats().available_request_slots, 256);
    assert!(manager.render_metrics().contains("tinkiva_databases_opened_total 1\n"));
}

#[test]
fn a_request_starts_the_idle_time_anew() {
    let mut manager = DatabaseManager::new(DatabaseSettings {
        idle_timeout_seconds: 5,
        ..Default::default()
    });
    used(&mut manager, "a", 10_000);
    used(&mut manager, "b", 12_000);
    assert_eq!(manager.cleanup_idle(14_999), vec![]);
    used(&mut manager, "a", 14_999);
    assert_eq!(manager.cleanup_idle(16_999), vec![]);
    assert_eq!(
        manager.cleanup_idle(17_000),
        vec![Residency {
            name: "b".into(),
            id: 1,
            open: true
        }]
    );
    assert_eq!(manager.cleanup_idle(17_000), vec![]);
    assert_eq!(manager.cleanup_idle(19_999).len(), 1);
    assert!(manager.render_metrics().contains("tinkiva_databases_closed_idle_total 2\n"));
}

#[test]
fn an_enormous_idle_timeout_closes_nothing() {
    for idle_timeout_seconds in [u64::MAX, u64::MAX / 1_000 + 1, u64::MAX / 1_000] {
        let mut manager = DatabaseManager::new(DatabaseSettings {
            idle_timeout_seconds,
            ..Default::default()
        });
        used(&mut manager, "a", 1_000);
        assert_eq!(manager.cleanup_idle(1_700_000_000_000), vec![]);
    }
}

#[test]
fn closing_everything_lets_leases_outlive_their_stay() {
    let mut manager = manager(5);
    let (held, _) = leased(&mut manager, "a", 1);
    used(&mut manager, "b", 1);
    let mut closed: Vec<String> = manager.close_all().into_iter().map(|stay| stay.name).collect();
    closed.sort();
    assert_eq!(closed, vec!["a", "b"]);
    assert_eq!(manager.stats().open_databases, 0);
    assert_eq!(manager.stats().active_leases, 0);
    assert_eq!(manager.stats().available_request_slots, 255);
    manager.release(held, 2);
    assert_eq!(manager.stats().available_request_slots, 256);
}

#[test]
fn checkpoints_visit_open_databases() {
    let mut manager = manager(5);
    used(&mut manager, "a", 1);
    let unopened = manager.acquire("b", Duration::from_millis(0), 1);
    assert!(unopened.is_ok());
    let open = manager.open_databases();
    assert_eq!(
        open,
        vec![Residency {
            name: "a".into(),
            id: 0,
            open: true
        }]
    );
    manager.record_checkpoints(open.len());
    assert!(manager.render_metrics().contains("tinkiva_wal_checkpoints_total 1\n"));
}

#[test]
fn an_entry_that_closes_is_closed_for_good() {
    let mut entry = DatabaseEntry::new(3, 7);
    assert_eq!(
        entry,
        DatabaseEntry {
            id: 3,
            open: false,
            last_used_ms: 7,
            active_leases: 0
        }
    );
    assert!(entry.lease());
    assert!(!entry.begin_close());
    assert_eq!(entry.active_leases, 1);
    entry.active_leases = 0;
    assert!(entry.begin_close());
    assert_eq!(entry.active_leases, CLOSED);
    assert!(!entry.lease());
    assert!(!entry.begin_close());
    entry.touch(9);
    assert_eq!(entry.last_used_ms, 9);
    assert!(!entry.lease());
}

#[test]
fn residency_is_made_or_refused() {
    let mut manager = manager(1);
    assert_eq!(manager.slot("a", 1), Ok(None));
    assert_eq!(manager.stats().open_databases, 1);
    assert_eq!(manager.stats().active_leases, 0);
    // What is resident stays, though there is no room for more.
    assert_eq!(manager.slot("a", 2), Ok(None));
    let evicted = manager.slot("b", 3).unwrap().unwrap();
    assert_eq!((evicted.name.as_str(), evicted.id, evicted.open), ("a", 0, false));
    let (_lease, _) = leased(&mut manager, "b", 4);
    assert_eq!(manager.slot("c", 5), Err(AppError::CapacityBusy));
    assert_eq!(manager.slot("b", 6), Ok(None));
    assert_eq!(manager.stats().open_databases, 1);
}

#[test]
fn only_idle_databases_are_taken() {
    let mut manager = manager(2);
    assert_eq!(manager.take("a"), None);
    assert_eq!(manager.evict_oldest_idle(), None);
    let (lease, _) = leased(&mut manager, "a", 1);
    assert_eq!(manager.take("a"), None);
    assert_eq!(manager.evict_oldest_idle(), None);
    manager.release(lease, 2);
    assert!(manager.take("a").is_some());
    assert_eq!(manager.stats().open_databases, 0);
}

#[test]
fn statuses_in_the_two_hundreds_count_as_success() {
    let mut manager = manager(1);
    for status in [200, 299, 199, 300, 422] {
        manager.observe(ROUTES[0], Duration::from_millis(1), status);
    }
    let text = manager.render_metrics();
    assert!(text.contains("{route=\"/v1/db/{database}/query\",outcome=\"ok\"} 2\n"));
    assert!(text.contains("{route=\"/v1/db/{database}/query\",outcome=\"error\"} 3\n"));
}

#[test]
fn moments_are_counted_in_milliseconds() {
    assert_eq!(now_ms(Duration { nanos: 1_999_999 }), 1);
    assert_eq!(now_ms(Duration::from_secs(1_700_000_000)), 1_700_000_000_000);
    assert_eq!(manager(4).settings().max_open_databases, 4);
    assert_eq!(manager(4).max_result_rows(), 10_000);
}

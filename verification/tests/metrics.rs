use tinkiva_database::db::ManagerStats;
use tinkiva_database::duration::Duration;
use tinkiva_database::metrics::{Histogram, Metrics, ROUTES};
use tinkiva_database::seconds::push_seconds;

fn seconds(micros: u64) -> String {
    let mut out = String::new();
    push_seconds(&mut out, micros);
    out
}

fn printed(micros: u64) -> String {
    format!("{}", micros as f64 / 1_000_000.0)
}

#[test]
fn histogram_buckets_are_cumulative() {
    let mut histogram = Histogram::default();
    histogram.record(Duration::from_millis(30));
    let mut out = String::new();
    histogram.render(&mut out, "latency", "");
    // 30ms falls above the 25ms bound and at or below every later one.
    assert!(out.contains("latency_bucket{le=\"0.025\"} 0"));
    assert!(out.contains("latency_bucket{le=\"0.05\"} 1"));
    assert!(out.contains("latency_bucket{le=\"+Inf\"} 1"));
    assert!(out.contains("latency_count 1"));
}

#[test]
fn unknown_routes_are_not_recorded() {
    let mut metrics = Metrics::default();
    metrics.record_request("/v1/db/acme/query", Duration::from_millis(1), true);
    metrics.record_request(ROUTES[0], Duration::from_millis(1), true);
    let stats = ManagerStats {
        open_databases: 0,
        active_leases: 0,
        max_open_databases: 1,
        available_request_slots: 1,
        max_concurrent_requests: 1,
    };
    let rendered = metrics.render(&stats);
    assert!(rendered.contains(&format!(
        "tinkiva_requests_total{{route=\"{}\",outcome=\"ok\"}} 1",
        ROUTES[0]
    )));
}

#[test]
fn unknown_routes_leave_no_trace_in_a_scrape() {
    let stats = ManagerStats {
        open_databases: 1,
        active_leases: 2,
        max_open_databases: 3,
        available_request_slots: 4,
        max_concurrent_requests: 5,
    };
    let mut metrics = Metrics::default();
    metrics.record_request(ROUTES[1], Duration::from_millis(7), false);
    let before = metrics.render(&stats);
    metrics.record_request("/v1/db/acme/query", Duration::from_millis(1), true);
    metrics.record_request("", Duration::from_millis(1), false);
    assert_eq!(metrics.render(&stats), before);
}

#[test]
fn a_bound_belongs_to_its_bucket() {
    let bounds = [
        ("0.001", 1_000_000u128),
        ("0.0025", 2_500_000),
        ("0.005", 5_000_000),
        ("0.01", 10_000_000),
        ("0.025", 25_000_000),
        ("0.05", 50_000_000),
        ("0.1", 100_000_000),
        ("0.25", 250_000_000),
        ("0.5", 500_000_000),
        ("1", 1_000_000_000),
        ("2.5", 2_500_000_000),
        ("5", 5_000_000_000),
    ];
    for (label, nanos) in bounds {
        for (span, count) in [(nanos - 1, 1), (nanos, 1), (nanos + 1, 0)] {
            let mut histogram = Histogram::default();
            histogram.record(Duration { nanos: span });
            let mut out = String::new();
            histogram.render(&mut out, "t", "");
            assert!(out.contains(&format!("t_bucket{{le=\"{label}\"}} {count}\n")));
            let seconds = std::time::Duration::from_nanos(span as u64).as_secs_f64();
            assert_eq!(seconds <= label.parse::<f64>().unwrap(), count == 1);
        }
    }
}

#[test]
fn a_histogram_prints_labels_sum_and_count() {
    let mut histogram = Histogram::default();
    histogram.record(Duration::from_millis(30));
    histogram.record(Duration::from_millis(1_200));
    histogram.record(Duration { nanos: 6_000_001_999 });
    let mut out = String::from("before\n");
    histogram.render(&mut out, "latency", "route=\"/a\"");
    let expected = "before\n\
        latency_bucket{route=\"/a\",le=\"0.001\"} 0\n\
        latency_bucket{route=\"/a\",le=\"0.0025\"} 0\n\
        latency_bucket{route=\"/a\",le=\"0.005\"} 0\n\
        latency_bucket{route=\"/a\",le=\"0.01\"} 0\n\
        latency_bucket{route=\"/a\",le=\"0.025\"} 0\n\
        latency_bucket{route=\"/a\",le=\"0.05\"} 1\n\
        latency_bucket{route=\"/a\",le=\"0.1\"} 1\n\
        latency_bucket{route=\"/a\",le=\"0.25\"} 1\n\
        latency_bucket{route=\"/a\",le=\"0.5\"} 1\n\
        latency_bucket{route=\"/a\",le=\"1\"} 1\n\
        latency_bucket{route=\"/a\",le=\"2.5\"} 2\n\
        latency_bucket{route=\"/a\",le=\"5\"} 2\n\
        latency_bucket{route=\"/a\",le=\"+Inf\"} 3\n\
        latency_sum{route=\"/a\"} 7.230001\n\
        latency_count{route=\"/a\"} 3\n";
    assert_eq!(out, expected);
}

#[test]
fn a_scrape_reads_every_counter() {
    let mut metrics = Metrics::default();
    metrics.record_request(ROUTES[2], Duration::from_millis(1), true);
    metrics.record_request(ROUTES[2], Duration::from_millis(1), false);
    metrics.record_admission_wait(Duration::from_millis(3));
    metrics.record_shed();
    metrics.record_open();
    metrics.record_open();
    metrics.record_eviction();
    metrics.record_idle_close(4);
    metrics.record_checkpoints(5);
    let stats = ManagerStats {
        open_databases: 6,
        active_leases: 7,
        max_open_databases: 8,
        available_request_slots: 9,
        max_concurrent_requests: 10,
    };
    let text = metrics.render(&stats);
    assert!(text.starts_with("# TYPE tinkiva_requests_total counter\n"));
    assert!(text.contains(
        "tinkiva_requests_total{route=\"/v1/db/{database}/batch\",outcome=\"ok\"} 1\n\
         tinkiva_requests_total{route=\"/v1/db/{database}/batch\",outcome=\"error\"} 1\n\
         # TYPE tinkiva_request_duration_seconds histogram\n"
    ));
    assert!(text.contains(
        "tinkiva_request_duration_seconds_sum{route=\"/v1/db/{database}/batch\"} 0.002\n"
    ));
    assert!(text.contains("tinkiva_admission_wait_seconds_bucket{le=\"0.005\"} 1\n"));
    assert!(text.contains("tinkiva_admission_wait_seconds_sum 0.003\n"));
    assert!(text.ends_with(
        "# TYPE tinkiva_requests_shed_total counter\ntinkiva_requests_shed_total 1\n\
         # TYPE tinkiva_databases_opened_total counter\ntinkiva_databases_opened_total 2\n\
         # TYPE tinkiva_databases_evicted_total counter\ntinkiva_databases_evicted_total 1\n\
         # TYPE tinkiva_databases_closed_idle_total counter\n\
         tinkiva_databases_closed_idle_total 4\n\
         # TYPE tinkiva_wal_checkpoints_total counter\ntinkiva_wal_checkpoints_total 5\n\
         # TYPE tinkiva_open_databases gauge\ntinkiva_open_databases 6\n\
         # TYPE tinkiva_active_leases gauge\ntinkiva_active_leases 7\n\
         # TYPE tinkiva_max_open_databases gauge\ntinkiva_max_open_databases 8\n\
         # TYPE tinkiva_available_request_slots gauge\ntinkiva_available_request_slots 9\n\
         # TYPE tinkiva_max_concurrent_requests gauge\ntinkiva_max_concurrent_requests 10\n"
    ));
}

#[test]
fn counters_start_over_behind_their_largest_value() {
    let mut histogram = Histogram::default();
    histogram.count = u64::MAX;
    histogram.total_micros = u64::MAX;
    histogram.record(Duration { nanos: 2_000 });
    assert_eq!(histogram.count, 0);
    assert_eq!(histogram.total_micros, 1);
    let mut metrics = Metrics::default();
    metrics.requests_shed = u64::MAX;
    metrics.record_shed();
    assert_eq!(metrics.requests_shed, 0);
}

#[test]
fn small_totals_are_printed_digit_by_digit() {
    assert_eq!(seconds(0), "0");
    assert_eq!(seconds(1), "0.000001");
    assert_eq!(seconds(30_000), "0.03");
    assert_eq!(seconds(1_000_000), "1");
    assert_eq!(seconds(1_230_400), "1.2304");
    assert_eq!(seconds(8_589_934_591_999_999), "8589934591.999999");
}

#[test]
fn totals_are_printed_as_doubles_are() {
    let mut micros: u64 = 1;
    for _ in 0..2_000 {
        micros = micros.wrapping_mul(6_364_136_223_846_793_005).wrapping_add(1_442_695_040_888_963_407);
        for shift in [0, 4, 8, 11, 12, 16, 24, 32, 40, 48, 56] {
            let total = micros >> shift;
            assert_eq!(seconds(total), printed(total), "{total} microseconds");
        }
    }
}

#[test]
fn totals_around_powers_of_two_are_printed_as_doubles_are() {
    for power in 0..44u32 {
        let whole: u128 = (1u128 << power) * 1_000_000;
        for off in -600i128..600 {
            for scale in [1i128, 62_500, 1_953, 3_906, 7_812] {
                let total = whole as i128 + off * scale;
                if total >= 0 && total <= u64::MAX as i128 {
                    let total = total as u64;
                    assert_eq!(seconds(total), printed(total), "{total} microseconds");
                }
            }
        }
    }
    for total in u64::MAX - 20_000..=u64::MAX {
        assert_eq!(seconds(total), printed(total), "{total} microseconds");
    }
    for total in [
        8_796_093_022_208_062_500,
        8_796_093_022_208_187_500,
        8_796_093_022_208_312_500,
        9_007_199_254_740_993,
    ] {
        assert_eq!(seconds(total), printed(total), "{total} microseconds");
    }
}

/// The lines of a scrape without the sample values that end them.
fn series(text: &str) -> Vec<String> {
    text.lines()
        .map(|line| match line.rsplit_once(' ') {
            Some((name, _)) if !line.starts_with('#') => name.to_owned(),
            _ => line.to_owned(),
        })
        .collect()
}

#[test]
fn the_set_of_series_never_grows() {
    let empty = Metrics::default();
    let idle = ManagerStats {
        open_databases: 0,
        active_leases: 0,
        max_open_databases: 50,
        available_request_slots: 256,
        max_concurrent_requests: 256,
    };
    let mut busy = Metrics::default();
    for route in ["/v1/db/acme/query", ROUTES[0], ROUTES[1], ROUTES[2]] {
        busy.record_request(route, Duration::from_millis(1_234), true);
        busy.record_request(route, Duration { nanos: u128::MAX }, false);
    }
    busy.record_admission_wait(Duration { nanos: 1 });
    busy.record_idle_close(12_345);
    let crowded = ManagerStats {
        open_databases: 50,
        active_leases: 99,
        ..idle
    };
    let before = series(&empty.render(&idle));
    assert_eq!(series(&busy.render(&crowded)), before);
    assert_eq!(before.len(), 3 + 6 + 4 * 15 + 20);
    for line in before {
        if let Some((_, label)) = line.split_once("route=\"") {
            let route = label.split('"').next().unwrap();
            assert!(ROUTES.contains(&route), "{line}");
        }
    }
}

#[test]
fn outcomes_add_up_to_the_latencies() {
    let mut metrics = Metrics::default();
    for (index, succeeded) in [(0, true), (0, false), (2, true), (0, true), (2, false)] {
        metrics.record_request(ROUTES[index], Duration::from_millis(1), succeeded);
        metrics.record_shed();
        metrics.record_request("/elsewhere", Duration::from_millis(1), succeeded);
    }
    let counts: Vec<(u64, u64, u64)> = metrics
        .routes
        .iter()
        .map(|route| (route.succeeded, route.failed, route.duration.count))
        .collect();
    assert_eq!(counts, vec![(2, 1, 3), (0, 0, 0), (1, 1, 2)]);
}

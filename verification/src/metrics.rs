//! Prometheus counters: whether a queue is in the client, in admission, or in SQLite.

use crate::db::ManagerStats;
use crate::duration::Duration;
use crate::seconds::{push_seconds, seconds_text};
use crate::text::{decimal_text, push_decimal, same_text};
use vstd::prelude::*;
use vstd::string::StringExecFns;

verus! {

/// Upper bounds of the buckets in nanoseconds. Cumulative, as Prometheus `le` buckets require.
pub const BUCKETS: [u128; 12] = [
    1_000_000,
    2_500_000,
    5_000_000,
    10_000_000,
    25_000_000,
    50_000_000,
    100_000_000,
    250_000_000,
    500_000_000,
    1_000_000_000,
    2_500_000_000,
    5_000_000_000,
];

/// The same bounds in seconds, as they are printed.
pub const BUCKET_LABELS: [&'static str; 12] = [
    "0.001",
    "0.0025",
    "0.005",
    "0.01",
    "0.025",
    "0.05",
    "0.1",
    "0.25",
    "0.5",
    "1",
    "2.5",
    "5",
];

/// Routes are labelled by their matched path, never by database name: a label
/// per tenant would grow the metric set with the customer list.
pub const ROUTES: [&'static str; 3] = [
    "/v1/db/{database}/query",
    "/v1/db/{database}/execute",
    "/v1/db/{database}/batch",
];

/// How often something took how long.
#[derive(Clone, Copy, Debug)]
pub struct Histogram {
    pub buckets: [u64; 12],
    pub count: u64,
    pub total_micros: u64,
}

/// What a histogram holds.
#[verifier::ext_equal]
pub struct HistogramView {
    pub buckets: Seq<u64>,
    pub count: u64,
    pub total_micros: u64,
}

impl View for Histogram {
    type V = HistogramView;

    open spec fn view(&self) -> HistogramView {
        HistogramView {
            buckets: self.buckets@,
            count: self.count,
            total_micros: self.total_micros,
        }
    }
}

impl HistogramView {
    /// A histogram into which nothing has been recorded.
    pub open spec fn empty() -> Self {
        HistogramView { buckets: Seq::new(12, |i: int| 0u64), count: 0, total_micros: 0 }
    }

    /// The histogram after one more span: every bucket that bounds it counts it. Counters
    /// start over at zero behind their largest value.
    pub open spec fn recorded(self, elapsed: Duration) -> Self {
        HistogramView {
            buckets: Seq::new(
                12,
                |i: int|
                    if elapsed.nanos <= BUCKETS@[i] {
                        self.buckets[i].wrapping_add(1)
                    } else {
                        self.buckets[i]
                    },
            ),
            count: self.count.wrapping_add(1),
            total_micros: self.total_micros.wrapping_add(
                (elapsed.nanos / 1_000 % 0x1_0000_0000_0000_0000) as u64,
            ),
        }
    }
}

impl Default for Histogram {
    fn default() -> (empty: Self)
        ensures
            empty@ == HistogramView::empty(),
    {
        let empty = Histogram { buckets: [0u64; 12], count: 0, total_micros: 0 };
        assert(empty@ =~= HistogramView::empty());
        empty
    }
}

impl Histogram {
    pub fn record(&mut self, elapsed: Duration)
        ensures
            final(self)@ == old(self)@.recorded(elapsed),
    {
        let mut index: usize = 0;
        while index < 12
            invariant
                index <= 12,
                self.count == old(self).count,
                self.total_micros == old(self).total_micros,
                forall|i: int|
                    0 <= i < 12 ==> self.buckets@[i] == (if i < index {
                        old(self)@.recorded(elapsed).buckets[i]
                    } else {
                        old(self).buckets@[i]
                    }),
            decreases 12 - index,
        {
            if elapsed.nanos <= BUCKETS[index] {
                self.buckets[index] = self.buckets[index].wrapping_add(1);
            }
            index = index + 1;
        }
        self.count = self.count.wrapping_add(1);
        self.total_micros = self.total_micros.wrapping_add(
            (elapsed.as_micros() % 0x1_0000_0000_0000_0000) as u64,
        );
        assert(self@ =~= old(self)@.recorded(elapsed));
    }
}


/// `,` behind labels, nothing behind none.
pub open spec fn separator(labels: Seq<char>) -> Seq<char> {
    if labels.len() == 0 {
        ""@
    } else {
        ","@
    }
}

/// Labels in braces, or nothing where there are none.
pub open spec fn label_set(labels: Seq<char>) -> Seq<char> {
    if labels.len() == 0 {
        ""@
    } else {
        "{"@ + labels + "}"@
    }
}

/// The line of one bucket.
pub open spec fn bucket_line(
    name: Seq<char>,
    labels: Seq<char>,
    bound: Seq<char>,
    value: u64,
) -> Seq<char> {
    name + "_bucket{"@ + labels + separator(labels) + "le=\""@ + bound + "\"} "@ + decimal_text(
        value as nat,
    ) + "\n"@
}

impl HistogramView {
    /// The lines of the first `n` buckets.
    pub open spec fn bucket_lines(self, name: Seq<char>, labels: Seq<char>, n: nat) -> Seq<char>
        decreases n,
    {
        if n == 0 {
            Seq::empty()
        } else {
            self.bucket_lines(name, labels, (n - 1) as nat) + bucket_line(
                name,
                labels,
                BUCKET_LABELS@[n - 1]@,
                self.buckets[n - 1],
            )
        }
    }

    /// The lines of the histogram.
    pub open spec fn rendered(self, name: Seq<char>, labels: Seq<char>) -> Seq<char> {
        self.bucket_lines(name, labels, 12) + bucket_line(name, labels, "+Inf"@, self.count) + (name
            + "_sum"@ + label_set(labels) + " "@ + seconds_text(self.total_micros) + "\n"@) + (name
            + "_count"@ + label_set(labels) + " "@ + decimal_text(self.count as nat) + "\n"@)
    }
}

/// Appends the line of one bucket.
fn push_bucket_line(out: &mut String, name: &str, labels: &str, bound: &str, value: u64)
    ensures
        final(out)@ == old(out)@ + bucket_line(name@, labels@, bound@, value),
{
    let mut line = name.to_owned();
    line.append("_bucket{");
    line.append(labels);
    line.append(
        if labels.is_empty() {
            ""
        } else {
            ","
        },
    );
    line.append("le=\"");
    line.append(bound);
    line.append("\"} ");
    push_decimal(&mut line, value as u128);
    line.append("\n");
    out.append(line.as_str());
}

/// Appends labels in braces.
fn push_label_set(out: &mut String, labels: &str)
    ensures
        final(out)@ == old(out)@ + label_set(labels@),
{
    if labels.is_empty() {
        out.append("");
    } else {
        let mut braces = "{".to_owned();
        braces.append(labels);
        braces.append("}");
        out.append(braces.as_str());
    }
}

impl Histogram {
    pub fn render(&self, out: &mut String, name: &str, labels: &str)
        ensures
            final(out)@ == old(out)@ + self@.rendered(name@, labels@),
    {
        let mut lines = String::new();
        let mut index: usize = 0;
        while index < 12
            invariant
                index <= 12,
                lines@ == self@.bucket_lines(name@, labels@, index as nat),
            decreases 12 - index,
        {
            push_bucket_line(&mut lines, name, labels, BUCKET_LABELS[index], self.buckets[index]);
            index = index + 1;
        }
        push_bucket_line(&mut lines, name, labels, "+Inf", self.count);
        let mut sum = name.to_owned();
        sum.append("_sum");
        push_label_set(&mut sum, labels);
        sum.append(" ");
        push_seconds(&mut sum, self.total_micros);
        sum.append("\n");
        lines.append(sum.as_str());
        let mut count = name.to_owned();
        count.append("_count");
        push_label_set(&mut count, labels);
        count.append(" ");
        push_decimal(&mut count, self.count as u128);
        count.append("\n");
        lines.append(count.as_str());
        out.append(lines.as_str());
    }
}

/// What is counted of one route.
#[derive(Clone, Copy, Debug)]
pub struct RouteMetrics {
    pub duration: Histogram,
    pub succeeded: u64,
    pub failed: u64,
}

/// What the counters of a route hold.
#[verifier::ext_equal]
pub struct RouteView {
    pub duration: HistogramView,
    pub succeeded: u64,
    pub failed: u64,
}

impl View for RouteMetrics {
    type V = RouteView;

    open spec fn view(&self) -> RouteView {
        RouteView { duration: self.duration@, succeeded: self.succeeded, failed: self.failed }
    }
}

impl RouteView {
    /// The counters after one more request.
    pub open spec fn requested(self, elapsed: Duration, succeeded: bool) -> Self {
        RouteView {
            duration: self.duration.recorded(elapsed),
            succeeded: if succeeded {
                self.succeeded.wrapping_add(1)
            } else {
                self.succeeded
            },
            failed: if succeeded {
                self.failed
            } else {
                self.failed.wrapping_add(1)
            },
        }
    }
}

/// The counters of the service.
#[derive(Clone, Copy, Debug)]
pub struct Metrics {
    pub routes: [RouteMetrics; 3],
    /// How long callers waited for an admission slot. A rising p99 here means
    /// the queue is in admission, not in SQLite.
    pub admission_wait: Histogram,
    pub requests_shed: u64,
    pub databases_opened: u64,
    pub databases_evicted: u64,
    pub databases_closed_idle: u64,
    pub wal_checkpoints: u64,
}

/// What the counters of the service hold.
#[verifier::ext_equal]
pub struct MetricsView {
    pub routes: Seq<RouteView>,
    pub admission_wait: HistogramView,
    pub requests_shed: u64,
    pub databases_opened: u64,
    pub databases_evicted: u64,
    pub databases_closed_idle: u64,
    pub wal_checkpoints: u64,
}

impl View for Metrics {
    type V = MetricsView;

    open spec fn view(&self) -> MetricsView {
        MetricsView {
            routes: Seq::new(3, |i: int| self.routes@[i]@),
            admission_wait: self.admission_wait@,
            requests_shed: self.requests_shed,
            databases_opened: self.databases_opened,
            databases_evicted: self.databases_evicted,
            databases_closed_idle: self.databases_closed_idle,
            wal_checkpoints: self.wal_checkpoints,
        }
    }
}

/// Where a route stands in [`ROUTES`].
pub open spec fn route_index(route: Seq<char>) -> Option<int> {
    if route == ROUTES@[0]@ {
        Some(0)
    } else if route == ROUTES@[1]@ {
        Some(1)
    } else if route == ROUTES@[2]@ {
        Some(2)
    } else {
        None
    }
}

impl MetricsView {
    /// Counters that all stand at zero.
    pub open spec fn zero() -> Self {
        MetricsView {
            routes: Seq::new(
                3,
                |i: int|
                    RouteView { duration: HistogramView::empty(), succeeded: 0, failed: 0 },
            ),
            admission_wait: HistogramView::empty(),
            requests_shed: 0,
            databases_opened: 0,
            databases_evicted: 0,
            databases_closed_idle: 0,
            wal_checkpoints: 0,
        }
    }

    /// The counters after a request: those of its route, and none for a route that is not
    /// in [`ROUTES`].
    pub open spec fn requested(self, route: Seq<char>, elapsed: Duration, succeeded: bool) -> Self {
        match route_index(route) {
            Some(index) => MetricsView {
                routes: self.routes.update(index, self.routes[index].requested(elapsed, succeeded)),
                ..self
            },
            None => self,
        }
    }
}

impl Default for Metrics {
    fn default() -> (zero: Self)
        ensures
            zero@ == MetricsView::zero(),
    {
        let route = RouteMetrics { duration: Histogram::default(), succeeded: 0, failed: 0 };
        let zero = Metrics {
            routes: [route, route, route],
            admission_wait: Histogram::default(),
            requests_shed: 0,
            databases_opened: 0,
            databases_evicted: 0,
            databases_closed_idle: 0,
            wal_checkpoints: 0,
        };
        assert(zero@ =~= MetricsView::zero());
        zero
    }
}

impl Metrics {
    pub fn record_request(&mut self, route: &str, elapsed: Duration, succeeded: bool)
        ensures
            final(self)@ == old(self)@.requested(route@, elapsed, succeeded),
    {
        let index: usize = if same_text(route, ROUTES[0]) {
            0
        } else if same_text(route, ROUTES[1]) {
            1
        } else if same_text(route, ROUTES[2]) {
            2
        } else {
            return;
        };
        let mut counters = self.routes[index];
        counters.duration.record(elapsed);
        if succeeded {
            counters.succeeded = counters.succeeded.wrapping_add(1);
        } else {
            counters.failed = counters.failed.wrapping_add(1);
        }
        self.routes[index] = counters;
        assert(self@ =~= old(self)@.requested(route@, elapsed, succeeded));
    }

    pub fn record_admission_wait(&mut self, elapsed: Duration)
        ensures
            final(self)@ == (MetricsView {
                admission_wait: old(self)@.admission_wait.recorded(elapsed),
                ..old(self)@
            }),
    {
        self.admission_wait.record(elapsed);
    }

    pub fn record_shed(&mut self)
        ensures
            final(self)@ == (MetricsView {
                requests_shed: old(self).requests_shed.wrapping_add(1),
                ..old(self)@
            }),
    {
        self.requests_shed = self.requests_shed.wrapping_add(1);
    }

    pub fn record_open(&mut self)
        ensures
            final(self)@ == (MetricsView {
                databases_opened: old(self).databases_opened.wrapping_add(1),
                ..old(self)@
            }),
    {
        self.databases_opened = self.databases_opened.wrapping_add(1);
    }

    pub fn record_eviction(&mut self)
        ensures
            final(self)@ == (MetricsView {
                databases_evicted: old(self).databases_evicted.wrapping_add(1),
                ..old(self)@
            }),
    {
        self.databases_evicted = self.databases_evicted.wrapping_add(1);
    }

    pub fn record_idle_close(&mut self, databases: usize)
        ensures
            final(self)@ == (MetricsView {
                databases_closed_idle: old(self).databases_closed_idle.wrapping_add(
                    databases as u64,
                ),
                ..old(self)@
            }),
    {
        self.databases_closed_idle = self.databases_closed_idle.wrapping_add(databases as u64);
    }

    pub fn record_checkpoints(&mut self, databases: usize)
        ensures
            final(self)@ == (MetricsView {
                wal_checkpoints: old(self).wal_checkpoints.wrapping_add(databases as u64),
                ..old(self)@
            }),
    {
        self.wal_checkpoints = self.wal_checkpoints.wrapping_add(databases as u64);
    }
}

/// The line that counts the requests of one route and outcome.
pub open spec fn request_line(route: Seq<char>, outcome: Seq<char>, value: u64) -> Seq<char> {
    "tinkiva_requests_total{route=\""@ + route + "\",outcome=\""@ + outcome + "\"} "@
        + decimal_text(value as nat) + "\n"@
}

/// A counter or a gauge with its type.
pub open spec fn metric_lines(name: Seq<char>, kind: Seq<char>, value: nat) -> Seq<char> {
    "# TYPE "@ + name + " "@ + kind + "\n"@ + name + " "@ + decimal_text(value) + "\n"@
}

impl MetricsView {
    /// The request counters of the first `n` routes.
    pub open spec fn request_lines(self, n: nat) -> Seq<char>
        decreases n,
    {
        if n == 0 {
            Seq::empty()
        } else {
            self.request_lines((n - 1) as nat) + request_line(
                ROUTES@[n - 1]@,
                "ok"@,
                self.routes[n - 1].succeeded,
            ) + request_line(ROUTES@[n - 1]@, "error"@, self.routes[n - 1].failed)
        }
    }

    /// The latencies of the first `n` routes.
    pub open spec fn duration_lines(self, n: nat) -> Seq<char>
        decreases n,
    {
        if n == 0 {
            Seq::empty()
        } else {
            self.duration_lines((n - 1) as nat) + self.routes[n - 1].duration.rendered(
                "tinkiva_request_duration_seconds"@,
                "route=\""@ + ROUTES@[n - 1]@ + "\""@,
            )
        }
    }

    /// The counters of the service and its state, in the order in which they are printed.
    pub open spec fn totals(self, stats: ManagerStats) -> Seq<(Seq<char>, Seq<char>, nat)> {
        seq![
            ("tinkiva_requests_shed_total"@, "counter"@, self.requests_shed as nat),
            ("tinkiva_databases_opened_total"@, "counter"@, self.databases_opened as nat),
            ("tinkiva_databases_evicted_total"@, "counter"@, self.databases_evicted as nat),
            ("tinkiva_databases_closed_idle_total"@, "counter"@, self.databases_closed_idle as nat),
            ("tinkiva_wal_checkpoints_total"@, "counter"@, self.wal_checkpoints as nat),
            ("tinkiva_open_databases"@, "gauge"@, stats.open_databases as nat),
            ("tinkiva_active_leases"@, "gauge"@, stats.active_leases as nat),
            ("tinkiva_max_open_databases"@, "gauge"@, stats.max_open_databases as nat),
            ("tinkiva_available_request_slots"@, "gauge"@, stats.available_request_slots as nat),
            ("tinkiva_max_concurrent_requests"@, "gauge"@, stats.max_concurrent_requests as nat),
        ]
    }

    /// Everything that a scrape reads.
    pub open spec fn rendered(self, stats: ManagerStats) -> Seq<char> {
        "# TYPE tinkiva_requests_total counter\n"@ + self.request_lines(3)
            + "# TYPE tinkiva_request_duration_seconds histogram\n"@ + self.duration_lines(3)
            + "# TYPE tinkiva_admission_wait_seconds histogram\n"@ + self.admission_wait.rendered(
            "tinkiva_admission_wait_seconds"@,
            ""@,
        ) + total_lines(self.totals(stats))
    }
}

/// The lines of named counters and gauges.
pub open spec fn total_lines(totals: Seq<(Seq<char>, Seq<char>, nat)>) -> Seq<char>
    decreases totals.len(),
{
    if totals.len() == 0 {
        Seq::empty()
    } else {
        total_lines(totals.drop_last()) + metric_lines(
            totals.last().0,
            totals.last().1,
            totals.last().2,
        )
    }
}

/// Appends the line that counts the requests of one route and outcome.
fn push_request_line(out: &mut String, route: &str, outcome: &str, value: u64)
    ensures
        final(out)@ == old(out)@ + request_line(route@, outcome@, value),
{
    let mut line = "tinkiva_requests_total{route=\"".to_owned();
    line.append(route);
    line.append("\",outcome=\"");
    line.append(outcome);
    line.append("\"} ");
    push_decimal(&mut line, value as u128);
    line.append("\n");
    out.append(line.as_str());
}

/// Appends a counter or a gauge with its type.
fn push_metric(
    out: &mut String,
    name: &str,
    kind: &str,
    value: u64,
    done: Ghost<Seq<(Seq<char>, Seq<char>, nat)>>,
) -> (pushed: Ghost<Seq<(Seq<char>, Seq<char>, nat)>>)
    requires
        old(out)@ == total_lines(done@),
    ensures
        pushed@ == done@.push((name@, kind@, value as nat)),
        final(out)@ == total_lines(pushed@),
{
    let mut lines = "# TYPE ".to_owned();
    lines.append(name);
    lines.append(" ");
    lines.append(kind);
    lines.append("\n");
    lines.append(name);
    lines.append(" ");
    push_decimal(&mut lines, value as u128);
    lines.append("\n");
    out.append(lines.as_str());
    let ghost pushed = done@.push((name@, kind@, value as nat));
    assert(pushed.drop_last() =~= done@);
    Ghost(pushed)
}

/// The counters of the service and its state.
fn totals_text(metrics: &Metrics, stats: &ManagerStats) -> (text: String)
    ensures
        text@ == total_lines(metrics@.totals(*stats)),
{
    let mut text = String::new();
    let done = Ghost(Seq::<(Seq<char>, Seq<char>, nat)>::empty());
    let done = push_metric(
        &mut text,
        "tinkiva_requests_shed_total",
        "counter",
        metrics.requests_shed,
        done,
    );
    let done = push_metric(
        &mut text,
        "tinkiva_databases_opened_total",
        "counter",
        metrics.databases_opened,
        done,
    );
    let done = push_metric(
        &mut text,
        "tinkiva_databases_evicted_total",
        "counter",
        metrics.databases_evicted,
        done,
    );
    let done = push_metric(
        &mut text,
        "tinkiva_databases_closed_idle_total",
        "counter",
        metrics.databases_closed_idle,
        done,
    );
    let done = push_metric(
        &mut text,
        "tinkiva_wal_checkpoints_total",
        "counter",
        metrics.wal_checkpoints,
        done,
    );
    let done = push_metric(
        &mut text,
        "tinkiva_open_databases",
        "gauge",
        stats.open_databases as u64,
        done,
    );
    let done = push_metric(
        &mut text,
        "tinkiva_active_leases",
        "gauge",
        stats.active_leases as u64,
        done,
    );
    let done = push_metric(
        &mut text,
        "tinkiva_max_open_databases",
        "gauge",
        stats.max_open_databases as u64,
        done,
    );
    let done = push_metric(
        &mut text,
        "tinkiva_available_request_slots",
        "gauge",
        stats.available_request_slots as u64,
        done,
    );
    let done = push_metric(
        &mut text,
        "tinkiva_max_concurrent_requests",
        "gauge",
        stats.max_concurrent_requests as u64,
        done,
    );
    assert(done@ =~= metrics@.totals(*stats));
    text
}

impl Metrics {
    pub fn render(&self, stats: &ManagerStats) -> (text: String)
        ensures
            text@ == self@.rendered(*stats),
    {
        let mut requests = String::new();
        let mut durations = String::new();
        let mut index: usize = 0;
        while index < 3
            invariant
                index <= 3,
                requests@ == self@.request_lines(index as nat),
                durations@ == self@.duration_lines(index as nat),
            decreases 3 - index,
        {
            let route = ROUTES[index];
            push_request_line(&mut requests, route, "ok", self.routes[index].succeeded);
            push_request_line(&mut requests, route, "error", self.routes[index].failed);
            let mut labels = "route=\"".to_owned();
            labels.append(route);
            labels.append("\"");
            self.routes[index].duration.render(
                &mut durations,
                "tinkiva_request_duration_seconds",
                labels.as_str(),
            );
            index = index + 1;
        }
        let totals = totals_text(self, stats);
        let mut out = "# TYPE tinkiva_requests_total counter\n".to_owned();
        out.append(requests.as_str());
        out.append("# TYPE tinkiva_request_duration_seconds histogram\n");
        out.append(durations.as_str());
        out.append("# TYPE tinkiva_admission_wait_seconds histogram\n");
        self.admission_wait.render(&mut out, "tinkiva_admission_wait_seconds", "");
        out.append(totals.as_str());
        out
    }
}

/// The histogram into which `spans` have been recorded, one after the other.
pub open spec fn histogram_of(spans: Seq<Duration>) -> HistogramView
    decreases spans.len(),
{
    if spans.len() == 0 {
        HistogramView::empty()
    } else {
        histogram_of(spans.drop_last()).recorded(spans.last())
    }
}

/// How many of `spans` last no longer than `bound` nanoseconds.
pub open spec fn within(spans: Seq<Duration>, bound: u128) -> nat
    decreases spans.len(),
{
    if spans.len() == 0 {
        0
    } else {
        within(spans.drop_last(), bound) + (if spans.last().nanos <= bound {
            1nat
        } else {
            0nat
        })
    }
}

/// The whole microseconds of each of `spans`, added up.
pub open spec fn micros_of(spans: Seq<Duration>) -> nat
    decreases spans.len(),
{
    if spans.len() == 0 {
        0
    } else {
        micros_of(spans.drop_last()) + spans.last().nanos as nat / 1_000
    }
}

/// One more span counts in the buckets whose bounds admit it.
proof fn lemma_recorded(spans: Seq<Duration>)
    requires
        0 < spans.len() <= u64::MAX,
        histogram_counts(histogram_of(spans.drop_last()), spans.drop_last()),
    ensures
        histogram_counts(histogram_of(spans), spans),
{
    let before = histogram_of(spans.drop_last());
    let after = histogram_of(spans);
    let last = spans.last();
    assert(after == before.recorded(last));
    assert forall|i: int| 0 <= i < 12 implies #[trigger] after.buckets[i] == within(
        spans,
        BUCKETS@[i],
    ) by {
        assert(before.buckets[i] == within(spans.drop_last(), BUCKETS@[i]));
        lemma_within_bounds(spans.drop_last(), BUCKETS@[i], BUCKETS@[i]);
    }
}

/// Whether a histogram counts exactly `spans`.
spec fn histogram_counts(histogram: HistogramView, spans: Seq<Duration>) -> bool {
    &&& histogram.count == spans.len()
    &&& histogram.buckets.len() == 12
    &&& forall|i: int|
        0 <= i < 12 ==> #[trigger] histogram.buckets[i] == within(spans, BUCKETS@[i])
    &&& histogram.total_micros == micros_of(spans) % 0x1_0000_0000_0000_0000
}

proof fn lemma_histogram_counts(spans: Seq<Duration>)
    requires
        spans.len() <= u64::MAX,
    ensures
        histogram_counts(histogram_of(spans), spans),
    decreases spans.len(),
{
    if spans.len() > 0 {
        lemma_histogram_counts(spans.drop_last());
        lemma_recorded(spans);
    }
}

/// Buckets are cumulative: whatever spans are recorded, the count is their number, a bucket
/// holds how many of them its bound admits, no bucket holds more than a later one or than
/// the count, and the total is the sum of their microseconds. The total is kept in 64 bits.
pub proof fn law_buckets_are_cumulative(spans: Seq<Duration>)
    requires
        spans.len() <= u64::MAX,
    ensures
        histogram_of(spans).count == spans.len(),
        histogram_of(spans).buckets.len() == 12,
        forall|i: int|
            0 <= i < 12 ==> #[trigger] histogram_of(spans).buckets[i] == within(spans, BUCKETS@[i]),
        forall|i: int, j: int|
            0 <= i <= j < 12 ==> histogram_of(spans).buckets[i] <= histogram_of(spans).buckets[j],
        forall|i: int|
            0 <= i < 12 ==> #[trigger] histogram_of(spans).buckets[i] <= histogram_of(spans).count,
        histogram_of(spans).total_micros == micros_of(spans) % 0x1_0000_0000_0000_0000,
{
    lemma_histogram_counts(spans);
    let histogram = histogram_of(spans);
    assert forall|i: int, j: int| 0 <= i <= j < 12 implies histogram.buckets[i]
        <= histogram.buckets[j] by {
        lemma_within_bounds(spans, BUCKETS@[i], BUCKETS@[j]);
    }
    assert forall|i: int| 0 <= i < 12 implies #[trigger] histogram.buckets[i]
        <= histogram.count by {
        lemma_within_bounds(spans, BUCKETS@[i], BUCKETS@[i]);
    }
}

proof fn lemma_within_bounds(spans: Seq<Duration>, low: u128, high: u128)
    requires
        low <= high,
    ensures
        within(spans, low) <= within(spans, high) <= spans.len(),
    decreases spans.len(),
{
    if spans.len() > 0 {
        lemma_within_bounds(spans.drop_last(), low, high);
    }
}

/// A path that is not one of the routes, such as one that spells out a database name, leaves
/// no trace in what a scrape reads.
pub proof fn law_unknown_routes_are_not_recorded(
    metrics: MetricsView,
    route: Seq<char>,
    elapsed: Duration,
    succeeded: bool,
    stats: ManagerStats,
)
    requires
        forall|i: int| 0 <= i < 3 ==> route != #[trigger] ROUTES@[i]@,
    ensures
        metrics.requested(route, elapsed, succeeded) == metrics,
        metrics.requested(route, elapsed, succeeded).rendered(stats) == metrics.rendered(stats),
{
    assert(ROUTES@[0]@ != route && ROUTES@[1]@ != route && ROUTES@[2]@ != route);
}

/// Something that is recorded.
pub enum Recording {
    Request { route: Seq<char>, elapsed: Duration, succeeded: bool },
    AdmissionWait { elapsed: Duration },
    Shed,
    Open,
    Eviction,
    IdleClose { databases: u64 },
    Checkpoints { databases: u64 },
}

impl MetricsView {
    /// The counters after one more recording.
    pub open spec fn recorded(self, recording: Recording) -> Self {
        match recording {
            Recording::Request { route, elapsed, succeeded } => self.requested(
                route,
                elapsed,
                succeeded,
            ),
            Recording::AdmissionWait { elapsed } => MetricsView {
                admission_wait: self.admission_wait.recorded(elapsed),
                ..self
            },
            Recording::Shed => MetricsView {
                requests_shed: self.requests_shed.wrapping_add(1),
                ..self
            },
            Recording::Open => MetricsView {
                databases_opened: self.databases_opened.wrapping_add(1),
                ..self
            },
            Recording::Eviction => MetricsView {
                databases_evicted: self.databases_evicted.wrapping_add(1),
                ..self
            },
            Recording::IdleClose { databases } => MetricsView {
                databases_closed_idle: self.databases_closed_idle.wrapping_add(databases),
                ..self
            },
            Recording::Checkpoints { databases } => MetricsView {
                wal_checkpoints: self.wal_checkpoints.wrapping_add(databases),
                ..self
            },
        }
    }
}

/// The counters after `recordings`, one after the other.
pub open spec fn metrics_of(recordings: Seq<Recording>) -> MetricsView
    decreases recordings.len(),
{
    if recordings.len() == 0 {
        MetricsView::zero()
    } else {
        metrics_of(recordings.drop_last()).recorded(recordings.last())
    }
}

/// Whether a recording is that of a request on the `i`-th route, with this outcome.
pub open spec fn counts(recording: Recording, i: int, outcome: bool) -> bool {
    recording matches Recording::Request { route, elapsed, succeeded } && route_index(route)
        == Some(i) && succeeded == outcome
}

/// How many of `recordings` are those of requests on the `i`-th route, with this outcome.
pub open spec fn requests_on(recordings: Seq<Recording>, i: int, outcome: bool) -> nat
    decreases recordings.len(),
{
    if recordings.len() == 0 {
        0
    } else {
        requests_on(recordings.drop_last(), i, outcome) + (if counts(
            recordings.last(),
            i,
            outcome,
        ) {
            1nat
        } else {
            0nat
        })
    }
}

/// Whatever is recorded, the counters of a route count its requests by their outcome, and both
/// together are as many as its latencies. Recordings are taken to be few enough to be counted in
/// 64 bits.
pub proof fn law_outcomes_add_up(recordings: Seq<Recording>, i: int)
    requires
        recordings.len() <= u64::MAX,
        0 <= i < 3,
    ensures
        metrics_of(recordings).routes[i].succeeded == requests_on(recordings, i, true),
        metrics_of(recordings).routes[i].failed == requests_on(recordings, i, false),
        metrics_of(recordings).routes[i].duration.count
            == metrics_of(recordings).routes[i].succeeded + metrics_of(
            recordings,
        ).routes[i].failed,
{
    lemma_outcomes(recordings, i);
}

proof fn lemma_outcomes(recordings: Seq<Recording>, i: int)
    requires
        recordings.len() <= u64::MAX,
        0 <= i < 3,
    ensures
        metrics_of(recordings).routes.len() == 3,
        metrics_of(recordings).routes[i].succeeded == requests_on(recordings, i, true),
        metrics_of(recordings).routes[i].failed == requests_on(recordings, i, false),
        metrics_of(recordings).routes[i].duration.count == requests_on(recordings, i, true)
            + requests_on(recordings, i, false),
        requests_on(recordings, i, true) + requests_on(recordings, i, false) <= recordings.len(),
    decreases recordings.len(),
{
    if recordings.len() > 0 {
        lemma_outcomes(recordings.drop_last(), i);
    }
}

} // verus!

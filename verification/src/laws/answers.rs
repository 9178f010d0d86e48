//! How failures are answered, and how requests are counted.

use crate::db::ManagerView;
use crate::duration::Duration;
use crate::error::{AppError, DatabaseError};
use crate::metrics::{
    route_index, Histogram, HistogramView, Metrics, MetricsView, RouteMetrics, BUCKETS, ROUTES,
};
use vstd::prelude::*;

verus! {

/// Which status answers which failure, and by which code. Only a request that was shed is told to
/// come back.
pub proof fn law_failures_have_their_status(error: AppError)
    ensures
        match error {
            AppError::InvalidDatabaseName => error.status() == 400 && error.code()
                == "invalid_request"@,
            AppError::InvalidRequest(reason) => error.status() == 400 && error.code()
                == "invalid_request"@,
            AppError::CapacityBusy => error.status() == 503 && error.code() == "capacity_busy"@,
            AppError::Overloaded => error.status() == 429 && error.code() == "overloaded"@,
            AppError::Unauthorized => error.status() == 401 && error.code() == "unauthorized"@,
            AppError::Database(source) => if source.row_not_found {
                error.status() == 404 && error.code() == "not_found"@
            } else {
                error.status() == 422 && error.code() == "database_error"@
            },
            AppError::Internal(source) => error.status() == 500 && error.code()
                == "internal_error"@,
        },
        error.retry_after() is Some <==> error == AppError::Overloaded,
        error.retry_after() matches Some(seconds) ==> seconds == 1,
{
}

/// What a client is told of a failure: the whole reason of a refusal, the whole message of the
/// database, and nothing of what went wrong inside.
pub proof fn law_failures_are_told(reason: String, source: DatabaseError, inside: String)
    ensures
        AppError::InvalidRequest(reason).text() == "invalid request: "@ + reason@,
        AppError::Database(source).text() == "database error: "@ + source.message@,
        AppError::Internal(inside).text() == "internal server error"@,
        AppError::Unauthorized.text() == "unauthorized"@,
        AppError::CapacityBusy.text() == "all open databases are currently busy"@,
        AppError::Overloaded.text() == "too many requests are in flight"@,
        AppError::InvalidDatabaseName.text()
            == "invalid database name: use 1-64 ASCII letters, numbers, '-' or '_'"@,
{
}

/// A span adds one to the count, one to every bucket whose bound it does not exceed and to no
/// other, and its whole microseconds to the total.
pub proof fn law_spans_count_where_they_fit(histogram: HistogramView, elapsed: Duration, i: int)
    requires
        0 <= i < 12,
    ensures
        histogram.recorded(elapsed).buckets.len() == 12,
        elapsed.nanos <= BUCKETS@[i] ==> histogram.recorded(elapsed).buckets[i]
            == histogram.buckets[i].wrapping_add(1),
        elapsed.nanos > BUCKETS@[i] ==> histogram.recorded(elapsed).buckets[i]
            == histogram.buckets[i],
        histogram.recorded(elapsed).count == histogram.count.wrapping_add(1),
        histogram.recorded(elapsed).total_micros == histogram.total_micros.wrapping_add(
            (elapsed.nanos as int / 1_000 % 0x1_0000_0000_0000_0000) as u64,
        ),
{
}

/// What counters are taken to hold is what they hold, and at first all of it is zero.
pub proof fn law_counters_show_what_they_hold(
    histogram: Histogram,
    route: RouteMetrics,
    metrics: Metrics,
    i: int,
)
    requires
        0 <= i < 12,
    ensures
        histogram@.buckets == histogram.buckets@,
        histogram@.count == histogram.count,
        histogram@.total_micros == histogram.total_micros,
        route@.duration == route.duration@,
        route@.succeeded == route.succeeded,
        route@.failed == route.failed,
        metrics@.routes.len() == 3,
        i < 3 ==> metrics@.routes[i] == metrics.routes@[i]@,
        metrics@.admission_wait == metrics.admission_wait@,
        metrics@.requests_shed == metrics.requests_shed,
        metrics@.databases_opened == metrics.databases_opened,
        metrics@.databases_evicted == metrics.databases_evicted,
        metrics@.databases_closed_idle == metrics.databases_closed_idle,
        metrics@.wal_checkpoints == metrics.wal_checkpoints,
        HistogramView::empty().buckets.len() == 12,
        HistogramView::empty().buckets[i] == 0,
        HistogramView::empty().count == 0,
        HistogramView::empty().total_micros == 0,
        i < 3 ==> MetricsView::zero().routes[i].duration == HistogramView::empty(),
        i < 3 ==> MetricsView::zero().routes[i].succeeded == 0,
        i < 3 ==> MetricsView::zero().routes[i].failed == 0,
        MetricsView::zero().routes.len() == 3,
        MetricsView::zero().admission_wait == HistogramView::empty(),
        MetricsView::zero().requests_shed == 0,
        MetricsView::zero().databases_opened == 0,
        MetricsView::zero().databases_evicted == 0,
        MetricsView::zero().databases_closed_idle == 0,
        MetricsView::zero().wal_checkpoints == 0,
{
}

/// A request counts on its route, by its outcome and with its latency, and on no other.
pub proof fn law_requests_count_on_their_route(
    metrics: MetricsView,
    i: int,
    elapsed: Duration,
    succeeded: bool,
)
    requires
        0 <= i < 3,
        metrics.routes.len() == 3,
    ensures
        ({
            let after = metrics.requested(ROUTES@[i]@, elapsed, succeeded);
            &&& after.routes[i].duration == metrics.routes[i].duration.recorded(elapsed)
            &&& after.routes[i].succeeded == (if succeeded {
                metrics.routes[i].succeeded.wrapping_add(1)
            } else {
                metrics.routes[i].succeeded
            })
            &&& after.routes[i].failed == (if succeeded {
                metrics.routes[i].failed
            } else {
                metrics.routes[i].failed.wrapping_add(1)
            })
            &&& after.routes.len() == 3
            &&& forall|j: int|
                0 <= j < 3 && j != i ==> #[trigger] after.routes[j] == metrics.routes[j]
            &&& after == (MetricsView { routes: after.routes, ..metrics })
        }),
{
    lemma_routes_differ();
}

proof fn lemma_routes_differ()
    ensures
        ROUTES@[0]@ != ROUTES@[1]@,
        ROUTES@[0]@ != ROUTES@[2]@,
        ROUTES@[1]@ != ROUTES@[2]@,
{
    reveal_strlit("/v1/db/{database}/query");
    reveal_strlit("/v1/db/{database}/execute");
    reveal_strlit("/v1/db/{database}/batch");
    assert(ROUTES@[0]@.len() == 23);
    assert(ROUTES@[1]@.len() == 25);
    assert(ROUTES@[2]@.len() == 23);
    assert(ROUTES@[0]@[18] == 'q');
    assert(ROUTES@[2]@[18] == 'b');
}

/// The routes are told apart by their whole text.
pub proof fn law_routes_are_told_apart(route: Seq<char>, i: int)
    requires
        0 <= i < 3,
    ensures
        route_index(route) == Some(i) <==> route == ROUTES@[i]@,
        route_index(route) is None <==> route != ROUTES@[0]@ && route != ROUTES@[1]@ && route
            != ROUTES@[2]@,
{
    lemma_routes_differ();
}

/// To shed a request, to evict a database and to end a stay change what they are said to change,
/// and nothing else: one more is counted of the first two, and a database leaves in the others.
pub proof fn law_a_manager_counts_one_by_one(manager: ManagerView, name: Seq<char>)
    ensures
        manager.shed() == (ManagerView {
            metrics: MetricsView {
                requests_shed: manager.metrics.requests_shed.wrapping_add(1),
                ..manager.metrics
            },
            ..manager
        }),
        manager.evicted(name) == (ManagerView {
            resident: manager.resident.remove(name),
            metrics: MetricsView {
                databases_evicted: manager.metrics.databases_evicted.wrapping_add(1),
                ..manager.metrics
            },
            ..manager
        }),
        manager.without(name) == (ManagerView {
            resident: manager.resident.remove(name),
            ..manager
        }),
{
}

} // verus!

//! What a scrape reads apart from the sample values: which series there are.

use crate::db::ManagerStats;
use crate::metrics::{
    bucket_line, label_set, metric_lines, request_line, separator, total_lines, HistogramView,
    MetricsView, BUCKET_LABELS, ROUTES,
};
use crate::seconds::seconds_text;
use crate::text::{decimal_text, digit_char, fraction_text, power_of_ten, scaled_text};
use vstd::prelude::*;

verus! {

/// Whether a character does not occur in a text.
pub open spec fn lacks(text: Seq<char>, c: char) -> bool {
    forall|i: int| 0 <= i < text.len() ==> #[trigger] text[i] != c
}

/// How many characters the first line of a text has.
pub open spec fn line_length(text: Seq<char>) -> nat
    decreases text.len(),
{
    if text.len() == 0 || text[0] == '\n' {
        0
    } else {
        1 + line_length(text.drop_first())
    }
}

/// What stands in front of the last space of a line.
pub open spec fn name_part(line: Seq<char>) -> Seq<char>
    decreases line.len(),
{
    if line.len() == 0 {
        line
    } else if line.last() == ' ' {
        line.drop_last()
    } else {
        name_part(line.drop_last())
    }
}

/// A line without its sample value. A line that starts with `#` has none.
pub open spec fn without_value(line: Seq<char>) -> Seq<char> {
    if line.len() > 0 && line[0] == '#' {
        line
    } else {
        name_part(line)
    }
}

/// The lines of a text, each without its sample value.
pub open spec fn series(text: Seq<char>) -> Seq<Seq<char>>
    decreases text.len(),
{
    if text.len() == 0 {
        Seq::empty()
    } else {
        let length = line_length(text);
        let rest = if length < text.len() {
            text.skip(length as int + 1)
        } else {
            Seq::empty()
        };
        seq![without_value(text.take(length as int))] + series(rest)
    }
}

/// Whether a text is made of whole lines.
spec fn whole_lines(text: Seq<char>) -> bool {
    text.len() == 0 || text.last() == '\n'
}

proof fn lemma_line_length(text: Seq<char>)
    ensures
        line_length(text) <= text.len(),
        lacks(text.take(line_length(text) as int), '\n'),
        line_length(text) < text.len() ==> text[line_length(text) as int] == '\n',
    decreases text.len(),
{
    if text.len() > 0 && text[0] != '\n' {
        let rest = text.drop_first();
        lemma_line_length(rest);
        let length = line_length(text) as int;
        assert forall|i: int| 0 <= i < length implies #[trigger] text.take(length)[i] != '\n' by {
            if i > 0 {
                assert(rest.take(length - 1)[i - 1] == text[i]);
            }
        }
        if length < text.len() {
            assert(rest[length - 1] == text[length]);
        }
    }
}

proof fn lemma_line_ends(line: Seq<char>, rest: Seq<char>)
    requires
        lacks(line, '\n'),
    ensures
        line_length(line + seq!['\n'] + rest) == line.len(),
    decreases line.len(),
{
    let text = line + seq!['\n'] + rest;
    if line.len() > 0 {
        assert(text[0] == line[0]);
        assert(text.drop_first() =~= line.drop_first() + seq!['\n'] + rest);
        let shorter = line.drop_first();
        assert forall|i: int| 0 <= i < shorter.len() implies #[trigger] shorter[i] != '\n' by {
            assert(shorter[i] == line[i + 1]);
        }
        lemma_line_ends(line.drop_first(), rest);
    } else {
        assert(text[0] == '\n');
    }
}

proof fn lemma_first_line(line: Seq<char>, rest: Seq<char>)
    requires
        lacks(line, '\n'),
    ensures
        series(line + seq!['\n'] + rest) == seq![without_value(line)] + series(rest),
{
    let text = line + seq!['\n'] + rest;
    lemma_line_ends(line, rest);
    assert(text.take(line.len() as int) =~= line);
    assert(text.skip(line.len() as int + 1) =~= rest);
}

proof fn lemma_series_concat(left: Seq<char>, right: Seq<char>)
    requires
        whole_lines(left),
    ensures
        series(left + right) == series(left) + series(right),
    decreases left.len(),
{
    if left.len() == 0 {
        assert(left + right =~= right);
        assert(series(left) + series(right) =~= series(right));
    } else {
        lemma_line_length(left);
        let length = line_length(left) as int;
        if length == left.len() {
            assert(left.take(length) =~= left);
            assert(left[left.len() - 1] == '\n');
        }
        let line = left.take(length);
        let rest = left.skip(length + 1);
        assert(left =~= line + seq!['\n'] + rest);
        assert(left + right =~= line + seq!['\n'] + (rest + right));
        lemma_first_line(line, rest);
        lemma_first_line(line, rest + right);
        assert(whole_lines(rest)) by {
            if rest.len() > 0 {
                assert(rest.last() == left.last());
            }
        }
        lemma_series_concat(rest, right);
        assert(series(left + right) =~= series(left) + series(right));
    }
}

/// Whether `line` has the label `route`, between `head` and `tail`.
pub open spec fn has_route(
    line: Seq<char>,
    head: Seq<char>,
    route: Seq<char>,
    tail: Seq<char>,
) -> bool {
    lacks(route, '"') && line == head + "route=\""@ + route + "\""@ + tail
}

/// Whether a text is one of the routes.
pub open spec fn is_route(route: Seq<char>) -> bool {
    exists|i: int| 0 <= i < 3 && #[trigger] ROUTES@[i]@ == route
}

/// Whether a route that labels `line` is one of the routes.
pub open spec fn routes_known(line: Seq<char>) -> bool {
    forall|head: Seq<char>, route: Seq<char>, tail: Seq<char>| #[trigger]
        has_route(line, head, route, tail) ==> is_route(route)
}

/// Whether that holds of every line.
pub open spec fn all_routes_known(lines: Seq<Seq<char>>) -> bool {
    forall|i: int| 0 <= i < lines.len() ==> routes_known(#[trigger] lines[i])
}

/// Whether no `=` in a text can be that of a route label.
spec fn no_route_label(text: Seq<char>) -> bool {
    forall|i: int|
        0 <= i < text.len() && #[trigger] text[i] == '=' ==> i >= 2 && text[i - 2] != 't'
}

proof fn lemma_unlabelled(line: Seq<char>)
    requires
        no_route_label(line),
    ensures
        routes_known(line),
{
    reveal_strlit("route=\"");
    assert forall|head: Seq<char>, route: Seq<char>, tail: Seq<char>| #[trigger]
        has_route(line, head, route, tail) implies is_route(route) by {
        let at = head.len() as int;
        assert(line[at + 5] == '=');
        assert(line[at + 3] == 't');
    }
}

proof fn lemma_labelled(front: Seq<char>, label: Seq<char>, back: Seq<char>)
    requires
        lacks(front, '='),
        lacks(label, '='),
        lacks(label, '"'),
        is_route(label),
        no_route_label(back),
    ensures
        routes_known(front + "route=\""@ + label + "\""@ + back),
{
    reveal_strlit("route=\"");
    reveal_strlit("\"");
    let line = front + "route=\""@ + label + "\""@ + back;
    let begin = front.len() + 7;
    let end = begin + label.len();
    assert forall|head: Seq<char>, route: Seq<char>, tail: Seq<char>| #[trigger]
        has_route(line, head, route, tail) implies is_route(route) by {
        let at = head.len() as int;
        assert(line.len() == end + 1 + back.len());
        assert(line.len() == at + 7 + route.len() + "\""@.len() + tail.len());
        assert(line[at + 5] == '=');
        assert(line[at + 3] == 't');
        if at + 5 < front.len() {
            assert(line[at + 5] == front[at + 5]);
        } else if at + 5 < begin {
            assert(line[at + 5] == "route=\""@[at + 5 - front.len()]);
        } else if at + 5 < end {
            assert(line[at + 5] == label[at + 5 - begin]);
        } else if at + 5 > end {
            let i = at + 5 - end - 1;
            assert(line[at + 5] == back[i]);
            assert(line[at + 3] == back[i - 2]);
        }
        assert(at == front.len());
        assert(line[end as int] == '"');
        assert(line[at + 7 + route.len()] == '"');
        if route.len() > label.len() {
            assert(route[label.len() as int] == line[end as int]);
        } else if route.len() < label.len() {
            assert(label[route.len() as int] == line[at + 7 + route.len()]);
        }
        assert forall|i: int| 0 <= i < label.len() implies route[i] == label[i] by {
            assert(line[begin + i] == label[i]);
            assert(line[at + 7 + i] == route[i]);
        }
        assert(route =~= label);
    }
}

proof fn lemma_name_part(name: Seq<char>, value: Seq<char>)
    requires
        lacks(value, ' '),
    ensures
        name_part(name + seq![' '] + value) == name,
    decreases value.len(),
{
    let line = name + seq![' '] + value;
    if value.len() == 0 {
        assert(line.last() == ' ');
        assert(line.drop_last() =~= name);
    } else {
        assert(line.last() == value[value.len() - 1]);
        assert(line.drop_last() =~= name + seq![' '] + value.drop_last());
        let shorter = value.drop_last();
        assert forall|i: int| 0 <= i < shorter.len() implies #[trigger] shorter[i] != ' ' by {
            assert(shorter[i] == value[i]);
        }
        lemma_name_part(name, value.drop_last());
    }
}

/// The line of one sample is read as its series.
proof fn lemma_sample(name: Seq<char>, value: Seq<char>)
    requires
        lacks(name, '\n'),
        name.len() > 0,
        name[0] != '#',
        lacks(value, ' '),
        lacks(value, '\n'),
    ensures
        series(name + " "@ + value + "\n"@) == seq![name],
        whole_lines(name + " "@ + value + "\n"@),
{
    reveal_strlit(" ");
    reveal_strlit("\n");
    assert(" "@ =~= seq![' ']);
    assert("\n"@ =~= seq!['\n']);
    let line = name + " "@ + value;
    assert(line[0] == name[0]);
    lemma_name_part(name, value);
    assert(line + "\n"@ =~= line + seq!['\n'] + Seq::empty());
    assert forall|i: int| 0 <= i < line.len() implies #[trigger] line[i] != '\n' by {
        if i < name.len() {
            assert(line[i] == name[i]);
        } else if i > name.len() {
            assert(line[i] == value[i - name.len() - 1]);
        }
    }
    lemma_first_line(line, Seq::empty());
    assert(seq![name] + series(Seq::<char>::empty()) =~= seq![name]);
}

/// A line that starts with `#` is read as it is.
proof fn lemma_comment(line: Seq<char>)
    requires
        lacks(line, '\n'),
        line.len() > 0,
        line[0] == '#',
    ensures
        series(line + "\n"@) == seq![line],
        whole_lines(line + "\n"@),
{
    reveal_strlit("\n");
    assert("\n"@ =~= seq!['\n']);
    assert(line + "\n"@ =~= line + seq!['\n'] + Seq::empty());
    lemma_first_line(line, Seq::empty());
    assert(seq![line] + series(Seq::<char>::empty()) =~= seq![line]);
}

/// Whether a text holds digits and decimal points alone.
spec fn numeric(text: Seq<char>) -> bool {
    forall|i: int|
        0 <= i < text.len() ==> '0' <= #[trigger] text[i] <= '9' || text[i] == '.'
}

proof fn lemma_decimal_numeric(number: nat)
    ensures
        numeric(decimal_text(number)),
    decreases number,
{
    if number >= 10 {
        lemma_decimal_numeric(number / 10);
        assert('0' <= digit_char(number % 10) <= '9');
    } else {
        assert('0' <= digit_char(number) <= '9');
    }
}

proof fn lemma_fraction_numeric(part: nat, width: nat)
    requires
        part < power_of_ten(width),
    ensures
        numeric(fraction_text(part, width)),
    decreases width,
{
    if part != 0 && width != 0 {
        let unit = power_of_ten((width - 1) as nat);
        assert(part / unit < 10 && part % unit < unit) by (nonlinear_arith)
            requires
                part < 10 * unit,
        ;
        lemma_fraction_numeric(part % unit, (width - 1) as nat);
        assert('0' <= digit_char(part / unit) <= '9');
    }
}

proof fn lemma_scaled_numeric(number: nat, places: nat)
    ensures
        numeric(scaled_text(number, places)),
    decreases places,
{
    reveal_strlit(".");
    let unit = power_of_ten(places);
    lemma_power_positive(places);
    assert(number % unit < unit) by (nonlinear_arith)
        requires
            unit > 0,
    ;
    lemma_decimal_numeric(number / unit);
    lemma_fraction_numeric(number % unit, places);
}

proof fn lemma_power_positive(exponent: nat)
    ensures
        power_of_ten(exponent) > 0,
    decreases exponent,
{
    if exponent > 0 {
        lemma_power_positive((exponent - 1) as nat);
    }
}

proof fn lemma_seconds_numeric(micros: u64)
    ensures
        numeric(seconds_text(micros)),
{
    assert forall|number: nat, places: nat| numeric(#[trigger] scaled_text(number, places)) by {
        lemma_scaled_numeric(number, places);
    }
}

/// A bucket without its count.
pub open spec fn bucket_series(name: Seq<char>, labels: Seq<char>, bound: Seq<char>) -> Seq<char> {
    name + "_bucket{"@ + labels + separator(labels) + "le=\""@ + bound + "\"}"@
}

/// The first `n` buckets without their counts.
pub open spec fn buckets_series(name: Seq<char>, labels: Seq<char>, n: nat) -> Seq<Seq<char>>
    decreases n,
{
    if n == 0 {
        Seq::empty()
    } else {
        buckets_series(name, labels, (n - 1) as nat) + seq![
            bucket_series(name, labels, BUCKET_LABELS@[n - 1]@),
        ]
    }
}

/// The series of a histogram.
pub open spec fn histogram_series(name: Seq<char>, labels: Seq<char>) -> Seq<Seq<char>> {
    buckets_series(name, labels, 12) + seq![bucket_series(name, labels, "+Inf"@)] + seq![
        name + "_sum"@ + label_set(labels),
    ] + seq![name + "_count"@ + label_set(labels)]
}

/// The requests of one route and outcome, without their count.
pub open spec fn request_series(route: Seq<char>, outcome: Seq<char>) -> Seq<char> {
    "tinkiva_requests_total{route=\""@ + route + "\",outcome=\""@ + outcome + "\"}"@
}

/// The request counters of the first `n` routes.
pub open spec fn requests_series(n: nat) -> Seq<Seq<char>>
    decreases n,
{
    if n == 0 {
        Seq::empty()
    } else {
        requests_series((n - 1) as nat) + seq![request_series(ROUTES@[n - 1]@, "ok"@)] + seq![
            request_series(ROUTES@[n - 1]@, "error"@),
        ]
    }
}

/// The label of a route.
pub open spec fn route_label(route: Seq<char>) -> Seq<char> {
    "route=\""@ + route + "\""@
}

/// The latencies of the first `n` routes.
pub open spec fn durations_series(n: nat) -> Seq<Seq<char>>
    decreases n,
{
    if n == 0 {
        Seq::empty()
    } else {
        durations_series((n - 1) as nat) + histogram_series(
            "tinkiva_request_duration_seconds"@,
            route_label(ROUTES@[n - 1]@),
        )
    }
}

/// The counters of the service and its state, each with its type.
pub open spec fn total_names() -> Seq<(Seq<char>, Seq<char>)> {
    seq![
        ("tinkiva_requests_shed_total"@, "counter"@),
        ("tinkiva_databases_opened_total"@, "counter"@),
        ("tinkiva_databases_evicted_total"@, "counter"@),
        ("tinkiva_databases_closed_idle_total"@, "counter"@),
        ("tinkiva_wal_checkpoints_total"@, "counter"@),
        ("tinkiva_open_databases"@, "gauge"@),
        ("tinkiva_active_leases"@, "gauge"@),
        ("tinkiva_max_open_databases"@, "gauge"@),
        ("tinkiva_available_request_slots"@, "gauge"@),
        ("tinkiva_max_concurrent_requests"@, "gauge"@),
    ]
}

/// The series of named counters and gauges.
pub open spec fn totals_series(names: Seq<(Seq<char>, Seq<char>)>) -> Seq<Seq<char>>
    decreases names.len(),
{
    if names.len() == 0 {
        Seq::empty()
    } else {
        totals_series(names.drop_last()) + seq![
            "# TYPE "@ + names.last().0 + " "@ + names.last().1,
        ] + seq![names.last().0]
    }
}

/// Every series that a scrape reads.
pub open spec fn scrape_series() -> Seq<Seq<char>> {
    seq!["# TYPE tinkiva_requests_total counter"@] + requests_series(3) + seq![
        "# TYPE tinkiva_request_duration_seconds histogram"@,
    ] + durations_series(3) + seq!["# TYPE tinkiva_admission_wait_seconds histogram"@]
        + histogram_series("tinkiva_admission_wait_seconds"@, ""@) + totals_series(total_names())
}

/// Whole lines with known series stay so when others follow.
proof fn lemma_follow(
    text: Seq<char>,
    lines: Seq<Seq<char>>,
    more: Seq<char>,
    more_lines: Seq<Seq<char>>,
)
    requires
        whole_lines(text),
        series(text) == lines,
        whole_lines(more),
        series(more) == more_lines,
    ensures
        whole_lines(text + more),
        series(text + more) == lines + more_lines,
{
    lemma_series_concat(text, more);
    if more.len() == 0 {
        assert(text + more =~= text);
    } else {
        assert((text + more).last() == more.last());
    }
}

/// What labels must not hold in order to stay on their line.
spec fn fits_a_line(name: Seq<char>, labels: Seq<char>) -> bool {
    name.len() > 0 && name[0] != '#' && lacks(name, '\n') && lacks(labels, '\n')
}

proof fn lemma_bounds(i: int)
    requires
        0 <= i < 12,
    ensures
        lacks(BUCKET_LABELS@[i]@, '\n'),
        lacks(BUCKET_LABELS@[i]@, '='),
{
    reveal_strlit("0.001");
    reveal_strlit("0.0025");
    reveal_strlit("0.005");
    reveal_strlit("0.01");
    reveal_strlit("0.025");
    reveal_strlit("0.05");
    reveal_strlit("0.1");
    reveal_strlit("0.25");
    reveal_strlit("0.5");
    reveal_strlit("1");
    reveal_strlit("2.5");
    reveal_strlit("5");
}

proof fn lemma_routes(i: int)
    requires
        0 <= i < 3,
    ensures
        lacks(ROUTES@[i]@, '\n'),
        lacks(ROUTES@[i]@, '='),
        lacks(ROUTES@[i]@, '"'),
        is_route(ROUTES@[i]@),
{
    reveal_strlit("/v1/db/{database}/query");
    reveal_strlit("/v1/db/{database}/execute");
    reveal_strlit("/v1/db/{database}/batch");
}

proof fn lemma_bucket_line(name: Seq<char>, labels: Seq<char>, bound: Seq<char>, value: u64)
    requires
        fits_a_line(name, labels),
        lacks(bound, '\n'),
    ensures
        series(bucket_line(name, labels, bound, value)) == seq![bucket_series(name, labels, bound)],
        whole_lines(bucket_line(name, labels, bound, value)),
{
    reveal_strlit("");
    reveal_strlit(",");
    reveal_strlit(" ");
    reveal_strlit("_bucket{");
    reveal_strlit("le=\"");
    reveal_strlit("\"}");
    reveal_strlit("\"} ");
    let sample = bucket_series(name, labels, bound);
    let number = decimal_text(value as nat);
    lemma_decimal_numeric(value as nat);
    assert("\"} "@ =~= "\"}"@ + " "@);
    assert(bucket_line(name, labels, bound, value) =~= sample + " "@ + number + "\n"@);
    assert(sample[0] == name[0]);
    assert(lacks(sample, '\n'));
    lemma_sample(sample, number);
}

proof fn lemma_summary_line(
    name: Seq<char>,
    labels: Seq<char>,
    suffix: Seq<char>,
    value: Seq<char>,
)
    requires
        fits_a_line(name, labels),
        lacks(suffix, '\n'),
        numeric(value),
    ensures
        series(name + suffix + label_set(labels) + " "@ + value + "\n"@) == seq![
            name + suffix + label_set(labels),
        ],
        whole_lines(name + suffix + label_set(labels) + " "@ + value + "\n"@),
{
    reveal_strlit("");
    reveal_strlit("{");
    reveal_strlit("}");
    let sample = name + suffix + label_set(labels);
    assert(sample[0] == name[0]);
    assert(lacks(label_set(labels), '\n'));
    assert(lacks(sample, '\n'));
    lemma_sample(sample, value);
}

proof fn lemma_bucket_lines(histogram: HistogramView, name: Seq<char>, labels: Seq<char>, n: nat)
    requires
        fits_a_line(name, labels),
        n <= 12,
    ensures
        series(histogram.bucket_lines(name, labels, n)) == buckets_series(name, labels, n),
        whole_lines(histogram.bucket_lines(name, labels, n)),
    decreases n,
{
    if n > 0 {
        lemma_bucket_lines(histogram, name, labels, (n - 1) as nat);
        lemma_bounds(n - 1);
        let bound = BUCKET_LABELS@[n - 1]@;
        lemma_bucket_line(name, labels, bound, histogram.buckets[n - 1]);
        lemma_follow(
            histogram.bucket_lines(name, labels, (n - 1) as nat),
            buckets_series(name, labels, (n - 1) as nat),
            bucket_line(name, labels, bound, histogram.buckets[n - 1]),
            seq![bucket_series(name, labels, bound)],
        );
    }
}

proof fn lemma_histogram(histogram: HistogramView, name: Seq<char>, labels: Seq<char>)
    requires
        fits_a_line(name, labels),
    ensures
        series(histogram.rendered(name, labels)) == histogram_series(name, labels),
        whole_lines(histogram.rendered(name, labels)),
{
    reveal_strlit("+Inf");
    reveal_strlit("_sum");
    reveal_strlit("_count");
    let sum = seconds_text(histogram.total_micros);
    let count = decimal_text(histogram.count as nat);
    lemma_seconds_numeric(histogram.total_micros);
    lemma_decimal_numeric(histogram.count as nat);
    lemma_bucket_lines(histogram, name, labels, 12);
    lemma_bucket_line(name, labels, "+Inf"@, histogram.count);
    lemma_summary_line(name, labels, "_sum"@, sum);
    lemma_summary_line(name, labels, "_count"@, count);
    let buckets = histogram.bucket_lines(name, labels, 12);
    let infinite = bucket_line(name, labels, "+Inf"@, histogram.count);
    let sum_line = name + "_sum"@ + label_set(labels) + " "@ + sum + "\n"@;
    let count_line = name + "_count"@ + label_set(labels) + " "@ + count + "\n"@;
    lemma_follow(buckets, series(buckets), infinite, series(infinite));
    lemma_follow(buckets + infinite, series(buckets + infinite), sum_line, series(sum_line));
    lemma_follow(
        buckets + infinite + sum_line,
        series(buckets + infinite + sum_line),
        count_line,
        series(count_line),
    );
}

proof fn lemma_request_line(route: Seq<char>, outcome: Seq<char>, value: u64)
    requires
        lacks(route, '\n'),
        lacks(outcome, '\n'),
    ensures
        series(request_line(route, outcome, value)) == seq![request_series(route, outcome)],
        whole_lines(request_line(route, outcome, value)),
{
    reveal_strlit(" ");
    reveal_strlit("tinkiva_requests_total{route=\"");
    reveal_strlit("\",outcome=\"");
    reveal_strlit("\"}");
    reveal_strlit("\"} ");
    let sample = request_series(route, outcome);
    let number = decimal_text(value as nat);
    lemma_decimal_numeric(value as nat);
    assert("\"} "@ =~= "\"}"@ + " "@);
    assert(request_line(route, outcome, value) =~= sample + " "@ + number + "\n"@);
    assert(lacks(sample, '\n'));
    lemma_sample(sample, number);
}

proof fn lemma_request_lines(metrics: MetricsView, n: nat)
    requires
        n <= 3,
    ensures
        series(metrics.request_lines(n)) == requests_series(n),
        whole_lines(metrics.request_lines(n)),
    decreases n,
{
    if n > 0 {
        reveal_strlit("ok");
        reveal_strlit("error");
        lemma_request_lines(metrics, (n - 1) as nat);
        lemma_routes(n - 1);
        let route = ROUTES@[n - 1]@;
        let before = metrics.request_lines((n - 1) as nat);
        let ok = request_line(route, "ok"@, metrics.routes[n - 1].succeeded);
        let error = request_line(route, "error"@, metrics.routes[n - 1].failed);
        lemma_request_line(route, "ok"@, metrics.routes[n - 1].succeeded);
        lemma_request_line(route, "error"@, metrics.routes[n - 1].failed);
        lemma_follow(before, series(before), ok, series(ok));
        lemma_follow(before + ok, series(before + ok), error, series(error));
    }
}

proof fn lemma_duration_lines(metrics: MetricsView, n: nat)
    requires
        n <= 3,
    ensures
        series(metrics.duration_lines(n)) == durations_series(n),
        whole_lines(metrics.duration_lines(n)),
    decreases n,
{
    if n > 0 {
        reveal_strlit("route=\"");
        reveal_strlit("\"");
        reveal_strlit("tinkiva_request_duration_seconds");
        lemma_duration_lines(metrics, (n - 1) as nat);
        lemma_routes(n - 1);
        let name = "tinkiva_request_duration_seconds"@;
        let labels = route_label(ROUTES@[n - 1]@);
        assert(lacks(labels, '\n'));
        let before = metrics.duration_lines((n - 1) as nat);
        let lines = metrics.routes[n - 1].duration.rendered(name, labels);
        lemma_histogram(metrics.routes[n - 1].duration, name, labels);
        lemma_follow(before, series(before), lines, series(lines));
    }
}

/// Whether names of counters and gauges stay on their lines and label no route.
spec fn plain_names(names: Seq<(Seq<char>, Seq<char>)>) -> bool {
    forall|i: int|
        0 <= i < names.len() ==> {
            &&& (#[trigger] names[i]).0.len() > 0
            &&& names[i].0[0] != '#'
            &&& lacks(names[i].0, '\n')
            &&& lacks(names[i].0, '=')
            &&& lacks(names[i].1, '\n')
            &&& lacks(names[i].1, '=')
        }
}

proof fn lemma_total_names()
    ensures
        plain_names(total_names()),
{
    reveal_strlit("counter");
    reveal_strlit("gauge");
    reveal_strlit("tinkiva_requests_shed_total");
    reveal_strlit("tinkiva_databases_opened_total");
    reveal_strlit("tinkiva_databases_evicted_total");
    reveal_strlit("tinkiva_databases_closed_idle_total");
    reveal_strlit("tinkiva_wal_checkpoints_total");
    reveal_strlit("tinkiva_open_databases");
    reveal_strlit("tinkiva_active_leases");
    reveal_strlit("tinkiva_max_open_databases");
    reveal_strlit("tinkiva_available_request_slots");
    reveal_strlit("tinkiva_max_concurrent_requests");
}

proof fn lemma_total_lines(
    totals: Seq<(Seq<char>, Seq<char>, nat)>,
    names: Seq<(Seq<char>, Seq<char>)>,
)
    requires
        totals.len() == names.len(),
        forall|i: int|
            0 <= i < names.len() ==> (#[trigger] totals[i]).0 == names[i].0 && totals[i].1
                == names[i].1,
        plain_names(names),
    ensures
        series(total_lines(totals)) == totals_series(names),
        whole_lines(total_lines(totals)),
        all_routes_known(totals_series(names)),
    decreases totals.len(),
{
    if totals.len() > 0 {
        reveal_strlit("# TYPE ");
        reveal_strlit(" ");
        assert forall|i: int| 0 <= i < names.drop_last().len() implies (
        #[trigger] totals.drop_last()[i]).0 == names.drop_last()[i].0 && totals.drop_last()[i].1
            == names.drop_last()[i].1 by {
            assert(totals.drop_last()[i] == totals[i]);
        }
        let fewer = names.drop_last();
        assert(forall|i: int| 0 <= i < fewer.len() ==> #[trigger] fewer[i] == names[i]);
        lemma_total_lines(totals.drop_last(), names.drop_last());
        let (name, kind, value) = totals.last();
        assert(name == names.last().0 && kind == names.last().1);
        assert(totals[totals.len() - 1] == totals.last());
        let number = decimal_text(value);
        lemma_decimal_numeric(value);
        let comment = "# TYPE "@ + name + " "@ + kind;
        assert(comment[0] == '#');
        assert(lacks(comment, '\n'));
        assert(lacks(comment, '='));
        lemma_comment(comment);
        lemma_sample(name, number);
        lemma_unlabelled(comment);
        lemma_unlabelled(name);
        let before = total_lines(totals.drop_last());
        let sample = name + " "@ + number + "\n"@;
        lemma_follow(before, series(before), comment + "\n"@, seq![comment]);
        lemma_follow(
            before + (comment + "\n"@),
            series(before) + seq![comment],
            sample,
            seq![name],
        );
        assert(before + metric_lines(name, kind, value) =~= before + (comment + "\n"@) + sample);
    }
}

proof fn lemma_bucket_route(name: Seq<char>, route: Seq<char>, bound: Seq<char>)
    requires
        lacks(name, '='),
        lacks(bound, '='),
        lacks(route, '='),
        lacks(route, '"'),
        is_route(route),
    ensures
        routes_known(bucket_series(name, route_label(route), bound)),
{
    reveal_strlit("route=\"");
    reveal_strlit("_bucket{");
    reveal_strlit(",");
    reveal_strlit("le=\"");
    reveal_strlit("\"}");
    let front = name + "_bucket{"@;
    let back = ","@ + "le=\""@ + bound + "\"}"@;
    assert(lacks(front, '='));
    assert(no_route_label(back)) by {
        assert forall|i: int| 0 <= i < back.len() && #[trigger] back[i] == '=' implies i >= 2
            && back[i - 2] != 't' by {
            assert(back[1] == 'l');
            if 5 <= i < 5 + bound.len() {
                assert(back[i] == bound[i - 5]);
            }
        }
    }
    lemma_labelled(front, route, back);
    assert(bucket_series(name, route_label(route), bound) =~= front + "route=\""@ + route + "\""@
        + back);
}

proof fn lemma_summary_route(name: Seq<char>, suffix: Seq<char>, route: Seq<char>)
    requires
        lacks(name, '='),
        lacks(suffix, '='),
        lacks(route, '='),
        lacks(route, '"'),
        is_route(route),
    ensures
        routes_known(name + suffix + label_set(route_label(route))),
{
    reveal_strlit("route=\"");
    reveal_strlit("{");
    reveal_strlit("}");
    let front = name + suffix + "{"@;
    assert(lacks(front, '='));
    lemma_labelled(front, route, "}"@);
    assert(name + suffix + label_set(route_label(route)) =~= front + "route=\""@ + route + "\""@
        + "}"@);
}

proof fn lemma_plain_bucket(name: Seq<char>, bound: Seq<char>)
    requires
        lacks(name, '='),
        lacks(bound, '='),
    ensures
        routes_known(bucket_series(name, ""@, bound)),
{
    reveal_strlit("");
    reveal_strlit("_bucket{");
    reveal_strlit("le=\"");
    reveal_strlit("\"}");
    let line = bucket_series(name, ""@, bound);
    let at = name.len() + 8;
    assert forall|i: int| 0 <= i < line.len() && #[trigger] line[i] == '=' implies i >= 2 && line[i
        - 2] != 't' by {
        assert(line[at as int] == 'l');
        if i < name.len() {
            assert(line[i] == name[i]);
        } else if at + 4 <= i < at + 4 + bound.len() {
            assert(line[i] == bound[i - at - 4]);
        }
    }
    lemma_unlabelled(line);
}

/// Whether the routes that label a histogram are known: its labels are one of them or none.
spec fn known_labels(labels: Seq<char>) -> bool {
    labels == ""@ || exists|i: int| 0 <= i < 3 && labels == route_label(#[trigger] ROUTES@[i]@)
}

proof fn lemma_bucket_known(name: Seq<char>, labels: Seq<char>, bound: Seq<char>)
    requires
        lacks(name, '='),
        lacks(bound, '='),
        known_labels(labels),
    ensures
        routes_known(bucket_series(name, labels, bound)),
{
    if labels == ""@ {
        lemma_plain_bucket(name, bound);
    } else {
        let i = choose|i: int| 0 <= i < 3 && labels == route_label(#[trigger] ROUTES@[i]@);
        lemma_routes(i);
        lemma_bucket_route(name, ROUTES@[i]@, bound);
    }
}

proof fn lemma_summary_known(name: Seq<char>, suffix: Seq<char>, labels: Seq<char>)
    requires
        lacks(name, '='),
        lacks(suffix, '='),
        known_labels(labels),
    ensures
        routes_known(name + suffix + label_set(labels)),
{
    reveal_strlit("");
    if labels == ""@ {
        assert(lacks(name + suffix + label_set(labels), '='));
        lemma_unlabelled(name + suffix + label_set(labels));
    } else {
        let i = choose|i: int| 0 <= i < 3 && labels == route_label(#[trigger] ROUTES@[i]@);
        lemma_routes(i);
        lemma_summary_route(name, suffix, ROUTES@[i]@);
    }
}

proof fn lemma_buckets_known(name: Seq<char>, labels: Seq<char>, n: nat)
    requires
        lacks(name, '='),
        known_labels(labels),
        n <= 12,
    ensures
        all_routes_known(buckets_series(name, labels, n)),
    decreases n,
{
    if n > 0 {
        lemma_buckets_known(name, labels, (n - 1) as nat);
        lemma_bounds(n - 1);
        lemma_bucket_known(name, labels, BUCKET_LABELS@[n - 1]@);
    }
}

proof fn lemma_histogram_known(name: Seq<char>, labels: Seq<char>)
    requires
        lacks(name, '='),
        known_labels(labels),
    ensures
        all_routes_known(histogram_series(name, labels)),
{
    reveal_strlit("+Inf");
    reveal_strlit("_sum");
    reveal_strlit("_count");
    lemma_buckets_known(name, labels, 12);
    lemma_bucket_known(name, labels, "+Inf"@);
    lemma_summary_known(name, "_sum"@, labels);
    lemma_summary_known(name, "_count"@, labels);
}

proof fn lemma_request_known(route: Seq<char>, outcome: Seq<char>)
    requires
        lacks(route, '='),
        lacks(route, '"'),
        is_route(route),
        lacks(outcome, '='),
    ensures
        routes_known(request_series(route, outcome)),
{
    reveal_strlit("route=\"");
    reveal_strlit("\"");
    reveal_strlit("tinkiva_requests_total{");
    reveal_strlit("tinkiva_requests_total{route=\"");
    reveal_strlit(",outcome=\"");
    reveal_strlit("\",outcome=\"");
    reveal_strlit("\"}");
    let front = "tinkiva_requests_total{"@;
    let back = ",outcome=\""@ + outcome + "\"}"@;
    assert(no_route_label(back)) by {
        assert forall|i: int| 0 <= i < back.len() && #[trigger] back[i] == '=' implies i >= 2
            && back[i - 2] != 't' by {
            assert(back[6] == 'm');
            if 10 <= i < 10 + outcome.len() {
                assert(back[i] == outcome[i - 10]);
            }
        }
    }
    lemma_labelled(front, route, back);
    assert("tinkiva_requests_total{route=\""@ =~= front + "route=\""@);
    assert("\",outcome=\""@ =~= "\""@ + ",outcome=\""@);
    assert(request_series(route, outcome) =~= front + "route=\""@ + route + "\""@ + back);
}

proof fn lemma_requests_known(n: nat)
    requires
        n <= 3,
    ensures
        all_routes_known(requests_series(n)),
    decreases n,
{
    if n > 0 {
        reveal_strlit("ok");
        reveal_strlit("error");
        lemma_requests_known((n - 1) as nat);
        lemma_routes(n - 1);
        lemma_request_known(ROUTES@[n - 1]@, "ok"@);
        lemma_request_known(ROUTES@[n - 1]@, "error"@);
    }
}

proof fn lemma_durations_known(n: nat)
    requires
        n <= 3,
    ensures
        all_routes_known(durations_series(n)),
    decreases n,
{
    if n > 0 {
        reveal_strlit("tinkiva_request_duration_seconds");
        lemma_durations_known((n - 1) as nat);
        let name = "tinkiva_request_duration_seconds"@;
        assert(known_labels(route_label(ROUTES@[n - 1]@)));
        lemma_histogram_known(name, route_label(ROUTES@[n - 1]@));
    }
}

/// Every scrape reads the same series.
proof fn lemma_scrape(metrics: MetricsView, stats: ManagerStats)
    ensures
        series(metrics.rendered(stats)) == scrape_series(),
        all_routes_known(scrape_series()),
{
    let requests_type = "# TYPE tinkiva_requests_total counter"@;
    let durations_type = "# TYPE tinkiva_request_duration_seconds histogram"@;
    let waits_type = "# TYPE tinkiva_admission_wait_seconds histogram"@;
    reveal_strlit("");
    reveal_strlit("\n");
    reveal_strlit("# TYPE tinkiva_requests_total counter");
    reveal_strlit("# TYPE tinkiva_requests_total counter\n");
    reveal_strlit("# TYPE tinkiva_request_duration_seconds histogram");
    reveal_strlit("# TYPE tinkiva_request_duration_seconds histogram\n");
    reveal_strlit("# TYPE tinkiva_admission_wait_seconds histogram");
    reveal_strlit("# TYPE tinkiva_admission_wait_seconds histogram\n");
    reveal_strlit("tinkiva_admission_wait_seconds");
    assert("# TYPE tinkiva_requests_total counter\n"@ =~= requests_type + "\n"@);
    assert("# TYPE tinkiva_request_duration_seconds histogram\n"@ =~= durations_type + "\n"@);
    assert("# TYPE tinkiva_admission_wait_seconds histogram\n"@ =~= waits_type + "\n"@);
    lemma_comment(requests_type);
    lemma_comment(durations_type);
    lemma_comment(waits_type);
    lemma_unlabelled(requests_type);
    lemma_unlabelled(durations_type);
    lemma_unlabelled(waits_type);
    lemma_request_lines(metrics, 3);
    lemma_duration_lines(metrics, 3);
    lemma_histogram(metrics.admission_wait, "tinkiva_admission_wait_seconds"@, ""@);
    lemma_total_names();
    lemma_total_lines(metrics.totals(stats), total_names());
    lemma_requests_known(3);
    lemma_durations_known(3);
    lemma_histogram_known("tinkiva_admission_wait_seconds"@, ""@);
    let text1 = requests_type + "\n"@;
    let requests = metrics.request_lines(3);
    lemma_follow(text1, series(text1), requests, series(requests));
    let text2 = text1 + requests;
    lemma_follow(text2, series(text2), durations_type + "\n"@, seq![durations_type]);
    let text3 = text2 + (durations_type + "\n"@);
    let durations = metrics.duration_lines(3);
    lemma_follow(text3, series(text3), durations, series(durations));
    let text4 = text3 + durations;
    lemma_follow(text4, series(text4), waits_type + "\n"@, seq![waits_type]);
    let text5 = text4 + (waits_type + "\n"@);
    let waits = metrics.admission_wait.rendered("tinkiva_admission_wait_seconds"@, ""@);
    lemma_follow(text5, series(text5), waits, series(waits));
    let text6 = text5 + waits;
    let totals = total_lines(metrics.totals(stats));
    lemma_follow(text6, series(text6), totals, series(totals));
    assert(metrics.rendered(stats) =~= text6 + totals);
}

/// The set of series never grows, whatever has been recorded: any two scrapes are the same text
/// but for the sample values that end their lines, always with the same series, and every route
/// that labels a line is one of the routes, never one that spells out a database.
pub proof fn law_series_never_grow(
    left: MetricsView,
    left_stats: ManagerStats,
    right: MetricsView,
    right_stats: ManagerStats,
)
    ensures
        series(left.rendered(left_stats)) == series(right.rendered(right_stats)),
        series(left.rendered(left_stats)) == scrape_series(),
        all_routes_known(series(left.rendered(left_stats))),
{
    lemma_scrape(left, left_stats);
    lemma_scrape(right, right_stats);
}

/// Whether `line` stands in `text` as a line of its own, between `head` and `tail`.
pub open spec fn splits(
    text: Seq<char>,
    head: Seq<char>,
    line: Seq<char>,
    tail: Seq<char>,
) -> bool {
    &&& text == head + line + seq!['\n'] + tail
    &&& head.len() == 0 || head.last() == '\n'
    &&& lacks(line, '\n')
}

/// Whether `line` is one of the lines of `text`.
pub open spec fn has_line(text: Seq<char>, line: Seq<char>) -> bool {
    exists|head: Seq<char>, tail: Seq<char>| #[trigger] splits(text, head, line, tail)
}

proof fn lemma_is_line(line: Seq<char>)
    requires
        lacks(line, '\n'),
    ensures
        has_line(line + "\n"@, line),
{
    reveal_strlit("\n");
    assert("\n"@ =~= seq!['\n']);
    let empty = Seq::<char>::empty();
    assert(line + "\n"@ =~= empty + line + seq!['\n'] + empty);
    assert(splits(line + "\n"@, empty, line, empty));
}

proof fn lemma_line_in_front(text: Seq<char>, more: Seq<char>, line: Seq<char>)
    requires
        has_line(text, line),
    ensures
        has_line(text + more, line),
{
    let (head, tail) = choose|head: Seq<char>, tail: Seq<char>| #[trigger]
        splits(text, head, line, tail);
    assert(text + more =~= head + line + seq!['\n'] + (tail + more));
    assert(splits(text + more, head, line, tail + more));
}

proof fn lemma_line_behind(text: Seq<char>, more: Seq<char>, line: Seq<char>)
    requires
        whole_lines(text),
        has_line(more, line),
    ensures
        has_line(text + more, line),
{
    let (head, tail) = choose|head: Seq<char>, tail: Seq<char>| #[trigger]
        splits(more, head, line, tail);
    assert(text + more =~= (text + head) + line + seq!['\n'] + tail);
    if head.len() > 0 {
        assert((text + head).last() == head.last());
    } else {
        assert(text + head =~= text);
    }
    assert(splits(text + more, text + head, line, tail));
}

/// The line of a bucket.
proof fn lemma_tells_bucket(name: Seq<char>, labels: Seq<char>, bound: Seq<char>, value: u64)
    requires
        fits_a_line(name, labels),
        lacks(bound, '\n'),
    ensures
        has_line(
            bucket_line(name, labels, bound, value),
            bucket_series(name, labels, bound) + " "@ + decimal_text(value as nat),
        ),
{
    reveal_strlit("");
    reveal_strlit(",");
    reveal_strlit(" ");
    reveal_strlit("_bucket{");
    reveal_strlit("le=\"");
    reveal_strlit("\"}");
    reveal_strlit("\"} ");
    lemma_decimal_numeric(value as nat);
    let line = bucket_series(name, labels, bound) + " "@ + decimal_text(value as nat);
    assert("\"} "@ =~= "\"}"@ + " "@);
    assert(lacks(line, '\n'));
    lemma_is_line(line);
    assert(bucket_line(name, labels, bound, value) =~= line + "\n"@);
}

proof fn lemma_tells_buckets(
    histogram: HistogramView,
    name: Seq<char>,
    labels: Seq<char>,
    n: nat,
    i: int,
)
    requires
        fits_a_line(name, labels),
        0 <= i < n <= 12,
    ensures
        has_line(
            histogram.bucket_lines(name, labels, n),
            bucket_series(name, labels, BUCKET_LABELS@[i]@) + " "@ + decimal_text(
                histogram.buckets[i] as nat,
            ),
        ),
    decreases n,
{
    let line = bucket_series(name, labels, BUCKET_LABELS@[i]@) + " "@ + decimal_text(
        histogram.buckets[i] as nat,
    );
    let before = histogram.bucket_lines(name, labels, (n - 1) as nat);
    let last = bucket_line(name, labels, BUCKET_LABELS@[n - 1]@, histogram.buckets[n - 1]);
    if i < n - 1 {
        lemma_tells_buckets(histogram, name, labels, (n - 1) as nat, i);
        lemma_line_in_front(before, last, line);
    } else {
        lemma_bounds(i);
        lemma_bucket_lines(histogram, name, labels, (n - 1) as nat);
        lemma_tells_bucket(name, labels, BUCKET_LABELS@[i]@, histogram.buckets[i]);
        lemma_line_behind(before, last, line);
    }
}

/// A histogram has a line for each of its buckets, which ends in the count of that bucket, one
/// for all spans, one for their sum and one for their number.
pub proof fn law_histograms_tell_every_bucket(
    histogram: HistogramView,
    name: Seq<char>,
    labels: Seq<char>,
    i: int,
)
    requires
        name.len() > 0,
        name[0] != '#',
        lacks(name, '\n'),
        lacks(labels, '\n'),
        0 <= i < 12,
    ensures
        has_line(
            histogram.rendered(name, labels),
            name + "_bucket{"@ + labels + (if labels.len() == 0 {
                ""@
            } else {
                ","@
            }) + "le=\""@ + BUCKET_LABELS@[i]@ + "\"}"@ + " "@ + decimal_text(
                histogram.buckets[i] as nat,
            ),
        ),
        has_line(
            histogram.rendered(name, labels),
            name + "_bucket{"@ + labels + (if labels.len() == 0 {
                ""@
            } else {
                ","@
            }) + "le=\""@ + "+Inf"@ + "\"}"@ + " "@ + decimal_text(histogram.count as nat),
        ),
        has_line(
            histogram.rendered(name, labels),
            name + "_sum"@ + (if labels.len() == 0 {
                ""@
            } else {
                "{"@ + labels + "}"@
            }) + " "@ + seconds_text(histogram.total_micros),
        ),
        has_line(
            histogram.rendered(name, labels),
            name + "_count"@ + (if labels.len() == 0 {
                ""@
            } else {
                "{"@ + labels + "}"@
            }) + " "@ + decimal_text(histogram.count as nat),
        ),
{
    reveal_strlit("");
    reveal_strlit("{");
    reveal_strlit("}");
    reveal_strlit(" ");
    reveal_strlit("+Inf");
    reveal_strlit("_sum");
    reveal_strlit("_count");
    let sum = name + "_sum"@ + label_set(labels) + " "@ + seconds_text(histogram.total_micros);
    let count = name + "_count"@ + label_set(labels) + " "@ + decimal_text(histogram.count as nat);
    lemma_seconds_numeric(histogram.total_micros);
    lemma_decimal_numeric(histogram.count as nat);
    assert(lacks(label_set(labels), '\n'));
    assert(lacks(sum, '\n'));
    assert(lacks(count, '\n'));
    lemma_is_line(sum);
    lemma_is_line(count);
    lemma_summary_line(name, labels, "_sum"@, seconds_text(histogram.total_micros));
    lemma_bucket_lines(histogram, name, labels, 12);
    lemma_bucket_line(name, labels, "+Inf"@, histogram.count);
    lemma_tells_buckets(histogram, name, labels, 12, i);
    lemma_tells_bucket(name, labels, "+Inf"@, histogram.count);
    let buckets = histogram.bucket_lines(name, labels, 12);
    let infinite = bucket_line(name, labels, "+Inf"@, histogram.count);
    let bucket = bucket_series(name, labels, BUCKET_LABELS@[i]@) + " "@ + decimal_text(
        histogram.buckets[i] as nat,
    );
    let all = bucket_series(name, labels, "+Inf"@) + " "@ + decimal_text(histogram.count as nat);
    lemma_follow(buckets, series(buckets), infinite, series(infinite));
    lemma_follow(
        buckets + infinite,
        series(buckets + infinite),
        sum + "\n"@,
        series(sum + "\n"@),
    );
    lemma_line_in_front(buckets, infinite, bucket);
    lemma_line_in_front(buckets + infinite, sum + "\n"@, bucket);
    lemma_line_in_front(buckets + infinite + (sum + "\n"@), count + "\n"@, bucket);
    lemma_line_behind(buckets, infinite, all);
    lemma_line_in_front(buckets + infinite, sum + "\n"@, all);
    lemma_line_in_front(buckets + infinite + (sum + "\n"@), count + "\n"@, all);
    lemma_line_behind(buckets + infinite, sum + "\n"@, sum);
    lemma_line_in_front(buckets + infinite + (sum + "\n"@), count + "\n"@, sum);
    lemma_line_behind(buckets + infinite + (sum + "\n"@), count + "\n"@, count);
    assert(histogram.rendered(name, labels) =~= buckets + infinite + (sum + "\n"@) + (count
        + "\n"@));
}

/// What a scrape is made of: the counts of requests, the latencies, the waits, and the rest.
proof fn lemma_parts(metrics: MetricsView, stats: ManagerStats, line: Seq<char>)
    ensures
        has_line(metrics.request_lines(3), line) || has_line(metrics.duration_lines(3), line)
            || has_line(
            metrics.admission_wait.rendered("tinkiva_admission_wait_seconds"@, ""@),
            line,
        ) || has_line(total_lines(metrics.totals(stats)), line) ==> has_line(
            metrics.rendered(stats),
            line,
        ),
{
    reveal_strlit("");
    reveal_strlit("\n");
    reveal_strlit("# TYPE tinkiva_requests_total counter\n");
    reveal_strlit("# TYPE tinkiva_request_duration_seconds histogram\n");
    reveal_strlit("# TYPE tinkiva_admission_wait_seconds histogram\n");
    reveal_strlit("tinkiva_admission_wait_seconds");
    let text1 = "# TYPE tinkiva_requests_total counter\n"@;
    let requests = metrics.request_lines(3);
    let text2 = text1 + requests;
    let durations_type = "# TYPE tinkiva_request_duration_seconds histogram\n"@;
    let text3 = text2 + durations_type;
    let durations = metrics.duration_lines(3);
    let text4 = text3 + durations;
    let waits_type = "# TYPE tinkiva_admission_wait_seconds histogram\n"@;
    let text5 = text4 + waits_type;
    let waits = metrics.admission_wait.rendered("tinkiva_admission_wait_seconds"@, ""@);
    let text6 = text5 + waits;
    let totals = total_lines(metrics.totals(stats));
    lemma_request_lines(metrics, 3);
    lemma_duration_lines(metrics, 3);
    lemma_histogram(metrics.admission_wait, "tinkiva_admission_wait_seconds"@, ""@);
    lemma_follow(text1, series(text1), requests, series(requests));
    lemma_follow(text2, series(text2), durations_type, series(durations_type));
    lemma_follow(text3, series(text3), durations, series(durations));
    lemma_follow(text4, series(text4), waits_type, series(waits_type));
    lemma_follow(text5, series(text5), waits, series(waits));
    if has_line(requests, line) {
        lemma_line_behind(text1, requests, line);
        lemma_line_in_front(text2, durations_type, line);
        lemma_line_in_front(text3, durations, line);
        lemma_line_in_front(text4, waits_type, line);
        lemma_line_in_front(text5, waits, line);
        lemma_line_in_front(text6, totals, line);
    } else if has_line(durations, line) {
        lemma_line_behind(text3, durations, line);
        lemma_line_in_front(text4, waits_type, line);
        lemma_line_in_front(text5, waits, line);
        lemma_line_in_front(text6, totals, line);
    } else if has_line(waits, line) {
        lemma_line_behind(text5, waits, line);
        lemma_line_in_front(text6, totals, line);
    } else if has_line(totals, line) {
        lemma_line_behind(text6, totals, line);
    }
}

proof fn lemma_tells_request(route: Seq<char>, outcome: Seq<char>, value: u64)
    requires
        lacks(route, '\n'),
        lacks(outcome, '\n'),
    ensures
        has_line(
            request_line(route, outcome, value),
            request_series(route, outcome) + " "@ + decimal_text(value as nat),
        ),
{
    reveal_strlit(" ");
    reveal_strlit("tinkiva_requests_total{route=\"");
    reveal_strlit("\",outcome=\"");
    reveal_strlit("\"}");
    reveal_strlit("\"} ");
    lemma_decimal_numeric(value as nat);
    let line = request_series(route, outcome) + " "@ + decimal_text(value as nat);
    assert("\"} "@ =~= "\"}"@ + " "@);
    assert(lacks(line, '\n'));
    lemma_is_line(line);
    assert(request_line(route, outcome, value) =~= line + "\n"@);
}

proof fn lemma_tells_requests(metrics: MetricsView, n: nat, i: int)
    requires
        0 <= i < n <= 3,
    ensures
        has_line(
            metrics.request_lines(n),
            request_series(ROUTES@[i]@, "ok"@) + " "@ + decimal_text(
                metrics.routes[i].succeeded as nat,
            ),
        ),
        has_line(
            metrics.request_lines(n),
            request_series(ROUTES@[i]@, "error"@) + " "@ + decimal_text(
                metrics.routes[i].failed as nat,
            ),
        ),
    decreases n,
{
    reveal_strlit("ok");
    reveal_strlit("error");
    let ok_line = request_series(ROUTES@[i]@, "ok"@) + " "@ + decimal_text(
        metrics.routes[i].succeeded as nat,
    );
    let error_line = request_series(ROUTES@[i]@, "error"@) + " "@ + decimal_text(
        metrics.routes[i].failed as nat,
    );
    let before = metrics.request_lines((n - 1) as nat);
    let ok = request_line(ROUTES@[n - 1]@, "ok"@, metrics.routes[n - 1].succeeded);
    let error = request_line(ROUTES@[n - 1]@, "error"@, metrics.routes[n - 1].failed);
    lemma_routes(n - 1);
    lemma_request_lines(metrics, (n - 1) as nat);
    lemma_request_line(ROUTES@[n - 1]@, "ok"@, metrics.routes[n - 1].succeeded);
    lemma_follow(before, series(before), ok, series(ok));
    if i < n - 1 {
        lemma_tells_requests(metrics, (n - 1) as nat, i);
        lemma_line_in_front(before, ok, ok_line);
        lemma_line_in_front(before + ok, error, ok_line);
        lemma_line_in_front(before, ok, error_line);
        lemma_line_in_front(before + ok, error, error_line);
    } else {
        lemma_tells_request(ROUTES@[i]@, "ok"@, metrics.routes[i].succeeded);
        lemma_tells_request(ROUTES@[i]@, "error"@, metrics.routes[i].failed);
        lemma_line_behind(before, ok, ok_line);
        lemma_line_in_front(before + ok, error, ok_line);
        lemma_line_behind(before + ok, error, error_line);
    }
}

/// A scrape tells of every route how many of its requests succeeded and how many failed.
pub proof fn law_scrapes_tell_every_request(metrics: MetricsView, stats: ManagerStats, i: int)
    requires
        0 <= i < 3,
    ensures
        has_line(
            metrics.rendered(stats),
            "tinkiva_requests_total{route=\""@ + ROUTES@[i]@ + "\",outcome=\""@ + "ok"@ + "\"}"@
                + " "@ + decimal_text(metrics.routes[i].succeeded as nat),
        ),
        has_line(
            metrics.rendered(stats),
            "tinkiva_requests_total{route=\""@ + ROUTES@[i]@ + "\",outcome=\""@ + "error"@ + "\"}"@
                + " "@ + decimal_text(metrics.routes[i].failed as nat),
        ),
{
    lemma_tells_requests(metrics, 3, i);
    lemma_parts(
        metrics,
        stats,
        request_series(ROUTES@[i]@, "ok"@) + " "@ + decimal_text(
            metrics.routes[i].succeeded as nat,
        ),
    );
    lemma_parts(
        metrics,
        stats,
        request_series(ROUTES@[i]@, "error"@) + " "@ + decimal_text(
            metrics.routes[i].failed as nat,
        ),
    );
}

proof fn lemma_tells_durations(metrics: MetricsView, n: nat, i: int, line: Seq<char>)
    requires
        0 <= i < n <= 3,
        has_line(
            metrics.routes[i].duration.rendered(
                "tinkiva_request_duration_seconds"@,
                route_label(ROUTES@[i]@),
            ),
            line,
        ),
    ensures
        has_line(metrics.duration_lines(n), line),
    decreases n,
{
    let before = metrics.duration_lines((n - 1) as nat);
    let last = metrics.routes[n - 1].duration.rendered(
        "tinkiva_request_duration_seconds"@,
        route_label(ROUTES@[n - 1]@),
    );
    if i < n - 1 {
        lemma_tells_durations(metrics, (n - 1) as nat, i, line);
        lemma_line_in_front(before, last, line);
    } else {
        lemma_duration_lines(metrics, (n - 1) as nat);
        lemma_line_behind(before, last, line);
    }
}

/// A scrape tells of every route how many of its requests took no longer than each bound, how
/// many there were, and how long they took together.
pub proof fn law_scrapes_tell_every_latency(
    metrics: MetricsView,
    stats: ManagerStats,
    i: int,
    j: int,
)
    requires
        0 <= i < 3,
        0 <= j < 12,
    ensures
        ({
            let text = metrics.rendered(stats);
            let name = "tinkiva_request_duration_seconds"@;
            let label = "route=\""@ + ROUTES@[i]@ + "\""@;
            let duration = metrics.routes[i].duration;
            &&& has_line(
                text,
                name + "_bucket{"@ + label + ","@ + "le=\""@ + BUCKET_LABELS@[j]@ + "\"}"@ + " "@
                    + decimal_text(duration.buckets[j] as nat),
            )
            &&& has_line(
                text,
                name + "_bucket{"@ + label + ","@ + "le=\""@ + "+Inf"@ + "\"}"@ + " "@
                    + decimal_text(duration.count as nat),
            )
            &&& has_line(
                text,
                name + "_sum"@ + ("{"@ + label + "}"@) + " "@ + seconds_text(
                    duration.total_micros,
                ),
            )
            &&& has_line(
                text,
                name + "_count"@ + ("{"@ + label + "}"@) + " "@ + decimal_text(
                    duration.count as nat,
                ),
            )
        }),
{
    reveal_strlit("route=\"");
    reveal_strlit("\"");
    reveal_strlit("tinkiva_request_duration_seconds");
    lemma_routes(i);
    let name = "tinkiva_request_duration_seconds"@;
    let label = "route=\""@ + ROUTES@[i]@ + "\""@;
    assert(lacks(label, '\n'));
    let duration = metrics.routes[i].duration;
    law_histograms_tell_every_bucket(duration, name, label, j);
    let bucket = name + "_bucket{"@ + label + ","@ + "le=\""@ + BUCKET_LABELS@[j]@ + "\"}"@ + " "@
        + decimal_text(duration.buckets[j] as nat);
    let all = name + "_bucket{"@ + label + ","@ + "le=\""@ + "+Inf"@ + "\"}"@ + " "@
        + decimal_text(duration.count as nat);
    let sum = name + "_sum"@ + ("{"@ + label + "}"@) + " "@ + seconds_text(duration.total_micros);
    let count = name + "_count"@ + ("{"@ + label + "}"@) + " "@ + decimal_text(
        duration.count as nat,
    );
    lemma_tells_durations(metrics, 3, i, bucket);
    lemma_tells_durations(metrics, 3, i, all);
    lemma_tells_durations(metrics, 3, i, sum);
    lemma_tells_durations(metrics, 3, i, count);
    lemma_parts(metrics, stats, bucket);
    lemma_parts(metrics, stats, all);
    lemma_parts(metrics, stats, sum);
    lemma_parts(metrics, stats, count);
}

/// A scrape tells how many requests waited for a slot no longer than each bound, how many there
/// were, and how long they waited together.
pub proof fn law_scrapes_tell_every_wait(metrics: MetricsView, stats: ManagerStats, j: int)
    requires
        0 <= j < 12,
    ensures
        ({
            let text = metrics.rendered(stats);
            let name = "tinkiva_admission_wait_seconds"@;
            let waits = metrics.admission_wait;
            &&& has_line(
                text,
                name + "_bucket{"@ + ""@ + ""@ + "le=\""@ + BUCKET_LABELS@[j]@ + "\"}"@ + " "@
                    + decimal_text(waits.buckets[j] as nat),
            )
            &&& has_line(
                text,
                name + "_bucket{"@ + ""@ + ""@ + "le=\""@ + "+Inf"@ + "\"}"@ + " "@
                    + decimal_text(waits.count as nat),
            )
            &&& has_line(
                text,
                name + "_sum"@ + ""@ + " "@ + seconds_text(waits.total_micros),
            )
            &&& has_line(
                text,
                name + "_count"@ + ""@ + " "@ + decimal_text(waits.count as nat),
            )
        }),
{
    reveal_strlit("");
    reveal_strlit("tinkiva_admission_wait_seconds");
    let name = "tinkiva_admission_wait_seconds"@;
    let waits = metrics.admission_wait;
    law_histograms_tell_every_bucket(waits, name, ""@, j);
    lemma_parts(
        metrics,
        stats,
        name + "_bucket{"@ + ""@ + ""@ + "le=\""@ + BUCKET_LABELS@[j]@ + "\"}"@ + " "@
            + decimal_text(waits.buckets[j] as nat),
    );
    lemma_parts(
        metrics,
        stats,
        name + "_bucket{"@ + ""@ + ""@ + "le=\""@ + "+Inf"@ + "\"}"@ + " "@ + decimal_text(
            waits.count as nat,
        ),
    );
    lemma_parts(metrics, stats, name + "_sum"@ + ""@ + " "@ + seconds_text(waits.total_micros));
    lemma_parts(metrics, stats, name + "_count"@ + ""@ + " "@ + decimal_text(waits.count as nat));
}

proof fn lemma_tells_totals(totals: Seq<(Seq<char>, Seq<char>, nat)>, i: int)
    requires
        0 <= i < totals.len(),
        forall|k: int|
            0 <= k < totals.len() ==> {
                &&& (#[trigger] totals[k]).0.len() > 0
                &&& totals[k].0[0] != '#'
                &&& lacks(totals[k].0, '\n')
                &&& lacks(totals[k].1, '\n')
            },
    ensures
        has_line(total_lines(totals), totals[i].0 + " "@ + decimal_text(totals[i].2)),
        has_line(total_lines(totals), "# TYPE "@ + totals[i].0 + " "@ + totals[i].1),
        whole_lines(total_lines(totals)),
    decreases totals.len(),
{
    reveal_strlit("# TYPE ");
    reveal_strlit(" ");
    reveal_strlit("\n");
    let line = totals[i].0 + " "@ + decimal_text(totals[i].2);
    let comment = "# TYPE "@ + totals[i].0 + " "@ + totals[i].1;
    let fewer = totals.drop_last();
    let before = total_lines(fewer);
    let (name, kind, value) = totals.last();
    let last = metric_lines(name, kind, value);
    assert(totals.last() == totals[totals.len() - 1]);
    assert(forall|k: int| 0 <= k < fewer.len() ==> #[trigger] fewer[k] == totals[k]);
    assert((before + last).last() == '\n') by {
        assert((before + last).last() == last.last());
    }
    if i < totals.len() - 1 {
        lemma_tells_totals(fewer, i);
        lemma_line_in_front(before, last, line);
        lemma_line_in_front(before, last, comment);
    } else {
        if fewer.len() > 0 {
            lemma_tells_totals(fewer, 0);
        }
        lemma_decimal_numeric(value);
        assert(lacks(line, '\n'));
        assert(lacks(comment, '\n'));
        lemma_is_line(line);
        lemma_is_line(comment);
        assert(last =~= (comment + "\n"@) + (line + "\n"@));
        lemma_comment(comment);
        lemma_line_in_front(comment + "\n"@, line + "\n"@, comment);
        lemma_line_behind(comment + "\n"@, line + "\n"@, line);
        lemma_line_behind(before, last, line);
        lemma_line_behind(before, last, comment);
    }
}

/// A scrape tells every counter of the service and its state by name.
pub proof fn law_scrapes_tell_every_total(metrics: MetricsView, stats: ManagerStats)
    ensures
        has_line(
            metrics.rendered(stats),
            "tinkiva_requests_shed_total"@ + " "@ + decimal_text(metrics.requests_shed as nat),
        ),
        has_line(
            metrics.rendered(stats),
            "tinkiva_databases_opened_total"@ + " "@ + decimal_text(
                metrics.databases_opened as nat,
            ),
        ),
        has_line(
            metrics.rendered(stats),
            "tinkiva_databases_evicted_total"@ + " "@ + decimal_text(
                metrics.databases_evicted as nat,
            ),
        ),
        has_line(
            metrics.rendered(stats),
            "tinkiva_databases_closed_idle_total"@ + " "@ + decimal_text(
                metrics.databases_closed_idle as nat,
            ),
        ),
        has_line(
            metrics.rendered(stats),
            "tinkiva_wal_checkpoints_total"@ + " "@ + decimal_text(metrics.wal_checkpoints as nat),
        ),
        has_line(
            metrics.rendered(stats),
            "tinkiva_open_databases"@ + " "@ + decimal_text(stats.open_databases as nat),
        ),
        has_line(
            metrics.rendered(stats),
            "tinkiva_active_leases"@ + " "@ + decimal_text(stats.active_leases as nat),
        ),
        has_line(
            metrics.rendered(stats),
            "tinkiva_max_open_databases"@ + " "@ + decimal_text(stats.max_open_databases as nat),
        ),
        has_line(
            metrics.rendered(stats),
            "tinkiva_available_request_slots"@ + " "@ + decimal_text(
                stats.available_request_slots as nat,
            ),
        ),
        has_line(
            metrics.rendered(stats),
            "tinkiva_max_concurrent_requests"@ + " "@ + decimal_text(
                stats.max_concurrent_requests as nat,
            ),
        ),
{
    let totals = metrics.totals(stats);
    lemma_total_names();
    assert forall|k: int| 0 <= k < totals.len() implies {
        &&& (#[trigger] totals[k]).0.len() > 0
        &&& totals[k].0[0] != '#'
        &&& lacks(totals[k].0, '\n')
        &&& lacks(totals[k].1, '\n')
    } by {
        assert(totals[k].0 == total_names()[k].0 && totals[k].1 == total_names()[k].1);
    }
    lemma_tells_totals(totals, 0);
    lemma_parts(
        metrics,
        stats,
        "tinkiva_requests_shed_total"@ + " "@ + decimal_text(metrics.requests_shed as nat),
    );
    lemma_tells_totals(totals, 1);
    lemma_parts(
        metrics,
        stats,
        "tinkiva_databases_opened_total"@ + " "@ + decimal_text(metrics.databases_opened as nat),
    );
    lemma_tells_totals(totals, 2);
    lemma_parts(
        metrics,
        stats,
        "tinkiva_databases_evicted_total"@ + " "@ + decimal_text(metrics.databases_evicted as nat),
    );
    lemma_tells_totals(totals, 3);
    lemma_parts(
        metrics,
        stats,
        "tinkiva_databases_closed_idle_total"@ + " "@ + decimal_text(
            metrics.databases_closed_idle as nat,
        ),
    );
    lemma_tells_totals(totals, 4);
    lemma_parts(
        metrics,
        stats,
        "tinkiva_wal_checkpoints_total"@ + " "@ + decimal_text(metrics.wal_checkpoints as nat),
    );
    lemma_tells_totals(totals, 5);
    lemma_parts(
        metrics,
        stats,
        "tinkiva_open_databases"@ + " "@ + decimal_text(stats.open_databases as nat),
    );
    lemma_tells_totals(totals, 6);
    lemma_parts(
        metrics,
        stats,
        "tinkiva_active_leases"@ + " "@ + decimal_text(stats.active_leases as nat),
    );
    lemma_tells_totals(totals, 7);
    lemma_parts(
        metrics,
        stats,
        "tinkiva_max_open_databases"@ + " "@ + decimal_text(stats.max_open_databases as nat),
    );
    lemma_tells_totals(totals, 8);
    lemma_parts(
        metrics,
        stats,
        "tinkiva_available_request_slots"@ + " "@ + decimal_text(
            stats.available_request_slots as nat,
        ),
    );
    lemma_tells_totals(totals, 9);
    lemma_parts(
        metrics,
        stats,
        "tinkiva_max_concurrent_requests"@ + " "@ + decimal_text(
            stats.max_concurrent_requests as nat,
        ),
    );
}

proof fn lemma_buckets_length(name: Seq<char>, labels: Seq<char>, n: nat)
    ensures
        buckets_series(name, labels, n).len() == n,
    decreases n,
{
    if n > 0 {
        lemma_buckets_length(name, labels, (n - 1) as nat);
    }
}

proof fn lemma_durations_length(n: nat)
    ensures
        durations_series(n).len() == 15 * n,
    decreases n,
{
    if n > 0 {
        lemma_durations_length((n - 1) as nat);
        lemma_buckets_length(
            "tinkiva_request_duration_seconds"@,
            route_label(ROUTES@[n - 1]@),
            12,
        );
    }
}

proof fn lemma_requests_length(n: nat)
    ensures
        requests_series(n).len() == 2 * n,
    decreases n,
{
    if n > 0 {
        lemma_requests_length((n - 1) as nat);
    }
}

proof fn lemma_totals_length(names: Seq<(Seq<char>, Seq<char>)>)
    ensures
        totals_series(names).len() == 2 * names.len(),
    decreases names.len(),
{
    if names.len() > 0 {
        lemma_totals_length(names.drop_last());
    }
}

/// Every scrape has as many lines: two for each route, fifteen for each of four histograms, two
/// for each of ten totals, and three that name what follows.
pub proof fn law_scrapes_have_no_other_lines(metrics: MetricsView, stats: ManagerStats)
    ensures
        series(metrics.rendered(stats)).len() == 3 * 2 + 4 * 15 + 10 * 2 + 3,
{
    lemma_scrape(metrics, stats);
    lemma_requests_length(3);
    lemma_durations_length(3);
    lemma_buckets_length("tinkiva_admission_wait_seconds"@, ""@, 12);
    lemma_totals_length(total_names());
}

} // verus!

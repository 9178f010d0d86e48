use base64::engine::general_purpose::STANDARD;
use base64::Engine;
use tinkiva_database::api::{
    authorize, bind_query, health, stats, validate_sql, BatchRequest, BatchRun, BatchStep,
    BindValue, ExecuteResult, QueryResponse, RowFormat, SqlRequest, METRICS_CONTENT_TYPE,
};
use tinkiva_database::cells::{cell_kind, row_values, Cell, CellKind};
use tinkiva_database::db::ManagerStats;
use tinkiva_database::error::{AppError, DatabaseError};
use tinkiva_database::json::Value;

fn text(value: &str) -> Value {
    Value::Text(value.to_owned())
}

fn object(members: Vec<(&str, Value)>) -> Value {
    Value::Object(
        members
            .into_iter()
            .map(|(name, value)| (name.to_owned(), value))
            .collect(),
    )
}

fn names(columns: &[&str]) -> Vec<String> {
    columns.iter().map(|name| name.to_string()).collect()
}

fn statement(sql: &str, params: &[&str]) -> SqlRequest {
    SqlRequest {
        sql: sql.to_owned(),
        params: names(params),
        format: RowFormat::default(),
    }
}

fn member<'a>(value: &'a Value, name: &str) -> &'a Value {
    match value {
        Value::Object(members) => &members.iter().find(|(key, _)| key == name).unwrap().1,
        other => panic!("{other:?}"),
    }
}

fn items(value: &Value) -> &Vec<Value> {
    match value {
        Value::Array(items) => items,
        other => panic!("{other:?}"),
    }
}

fn refusal(error: AppError) -> String {
    match error {
        AppError::InvalidRequest(reason) => reason,
        other => panic!("{other:?}"),
    }
}

fn bound(params: &[&str]) -> Result<Vec<BindValue>, AppError> {
    bind_query(&names(params))
}

#[test]
fn protects_api_but_not_health() {
    assert_eq!(health(), object(vec![("status", text("ok"))]));
    let denied = authorize(Some("secret"), None).unwrap_err();
    assert_eq!(denied.into_response().status, 401);
    assert_eq!(authorize(Some("secret"), Some("Bearer secret")), Ok(()));
}

#[test]
fn only_the_expected_token_passes() {
    for header in [
        "Bearer secreT",
        "Bearer secret ",
        "Bearer  secret",
        "Bearer secre",
        "Bearer ",
        "Bearer",
        "bearer secret",
        "Basic secret",
        "secret",
        "",
    ] {
        assert_eq!(authorize(Some("secret"), Some(header)), Err(AppError::Unauthorized), "{header:?}");
        assert_eq!(authorize(None, Some(header)), Ok(()), "{header:?}");
    }
    assert_eq!(authorize(None, None), Ok(()));
    assert_eq!(authorize(Some("\u{e9}t\u{e9}"), Some("Bearer \u{e9}t\u{e9}")), Ok(()));
    // Also a token that is empty asks for a header that brings it.
    assert_eq!(authorize(Some(""), None), Err(AppError::Unauthorized));
    assert_eq!(authorize(Some(""), Some("Basic x")), Err(AppError::Unauthorized));
    assert_eq!(authorize(Some(""), Some("Bearer x")), Err(AppError::Unauthorized));
    assert_eq!(authorize(Some(""), Some("Bearer ")), Ok(()));
}

#[test]
fn statements_must_not_be_blank() {
    assert_eq!(validate_sql("SELECT 1"), Ok(()));
    assert_eq!(validate_sql("  ;"), Ok(()));
    assert_eq!(validate_sql("\u{200b}"), Ok(()));
    for sql in ["", " ", "\t\r\n", "\u{a0}\u{3000}\u{85}"] {
        assert_eq!(refusal(validate_sql(sql).unwrap_err()), "sql must not be empty");
    }
}

#[test]
fn blank_is_what_trimming_leaves_nothing_of() {
    for code in 0..0x11_0000u32 {
        if let Some(c) = char::from_u32(code) {
            let sql = format!(" {c}");
            assert_eq!(validate_sql(&sql).is_err(), sql.trim().is_empty(), "{code:x}");
        }
    }
}

#[test]
fn parameters_are_bound_by_their_json_type() {
    assert_eq!(
        bound(&[
            "null",
            "true",
            "false",
            "0",
            "-5",
            "9223372036854775807",
            "-9223372036854775808",
            "49.9",
            "1e3",
            "-0.0",
            "\"a \\u00e9 \\\"b\\\"\"",
        ]),
        Ok(vec![
            BindValue::Null,
            BindValue::Bool(true),
            BindValue::Bool(false),
            BindValue::Integer(0),
            BindValue::Integer(-5),
            BindValue::Integer(i64::MAX),
            BindValue::Integer(i64::MIN),
            BindValue::Real("49.9".into()),
            BindValue::Real("1000.0".into()),
            BindValue::Real("-0.0".into()),
            BindValue::Text("a \u{e9} \"b\"".into()),
        ])
    );
    assert_eq!(bound(&[]), Ok(vec![]));
}

#[test]
fn arrays_and_objects_are_bound_as_json_text() {
    assert_eq!(
        bound(&["[1, \"x\" , null]", "{ \"a\" : [ ] }"]),
        Ok(vec![
            BindValue::Text("[1,\"x\",null]".into()),
            BindValue::Text("{\"a\":[]}".into()),
        ])
    );
}

#[test]
fn parameters_that_cannot_be_bound_are_refused() {
    assert_eq!(
        refusal(bound(&["1", "9223372036854775808", "nonsense"]).unwrap_err()),
        "unsigned parameter is larger than SQLite INTEGER"
    );
    assert_eq!(
        refusal(bound(&["18446744073709551615"]).unwrap_err()),
        "unsigned parameter is larger than SQLite INTEGER"
    );
    assert_eq!(
        refusal(bound(&["nonsense", "9223372036854775808"]).unwrap_err()),
        "params must be JSON values"
    );
    // What no integer holds is a number in double precision.
    match bound(&["18446744073709551616"]).unwrap().as_slice() {
        [BindValue::Real(number)] => {
            assert_eq!(number.parse::<f64>(), Ok(18_446_744_073_709_551_616.0))
        }
        other => panic!("{other:?}"),
    }
}

#[test]
fn cells_are_read_by_the_name_of_their_type() {
    assert_eq!(cell_kind(true, "INTEGER"), CellKind::Null);
    assert_eq!(cell_kind(false, "INTEGER"), CellKind::Integer);
    assert_eq!(cell_kind(false, "REAL"), CellKind::Real);
    assert_eq!(cell_kind(false, "BLOB"), CellKind::Blob);
    assert_eq!(cell_kind(false, "TEXT"), CellKind::Text);
    assert_eq!(cell_kind(false, "integer"), CellKind::Text);
    assert_eq!(cell_kind(false, ""), CellKind::Text);
}

#[test]
fn cells_become_json_values() {
    let cells = vec![
        Cell::Null,
        Cell::Integer(-3),
        Cell::Real(49.9f64.to_bits()),
        Cell::Real(f64::INFINITY.to_bits()),
        Cell::Real(f64::NEG_INFINITY.to_bits()),
        Cell::Real(f64::NAN.to_bits()),
        Cell::Real(f64::MAX.to_bits()),
        Cell::Blob(b"hello world~".to_vec()),
        Cell::Text("book".into()),
    ];
    assert!(cells.iter().all(|cell| cell.can_be_sent()));
    assert_eq!(
        row_values(cells),
        vec![
            Value::Null,
            Value::Integer(-3),
            Value::Real(49.9f64.to_bits()),
            Value::Null,
            Value::Null,
            Value::Null,
            Value::Real(f64::MAX.to_bits()),
            object(vec![("$blob", text("aGVsbG8gd29ybGR+"))]),
            text("book"),
        ]
    );
    for bits in [0u64, 1, 1 << 63, 0x7fef_ffff_ffff_ffff, 0x7ff0_0000_0000_0000, u64::MAX] {
        let expected = if f64::from_bits(bits).is_finite() {
            Value::Real(bits)
        } else {
            Value::Null
        };
        assert_eq!(Cell::Real(bits).into_value(), expected);
    }
}

#[test]
fn blobs_are_padded_to_whole_groups() {
    for (bytes, expected) in [
        ("", ""),
        ("f", "Zg=="),
        ("fo", "Zm8="),
        ("foo", "Zm9v"),
        ("foob", "Zm9vYg=="),
        ("fooba", "Zm9vYmE="),
        ("foobar", "Zm9vYmFy"),
    ] {
        assert_eq!(
            Cell::Blob(bytes.as_bytes().to_vec()).into_value(),
            object(vec![("$blob", text(expected))])
        );
    }
}

/// Base64 as the contract of a cell of bytes states it.
fn stated_base64(bytes: &[u8]) -> String {
    let letters: Vec<char> = ('A'..='Z')
        .chain('a'..='z')
        .chain('0'..='9')
        .chain(['+', '/'])
        .collect();
    let at = |place: usize| bytes.get(place).copied().unwrap_or(0) as usize;
    (0..(bytes.len() + 2) / 3 * 4)
        .map(|i| {
            let place = i / 4 * 3;
            let bits = match i % 4 {
                0 => at(place) / 4,
                1 => at(place) % 4 * 16 + at(place + 1) / 16,
                2 => at(place + 1) % 16 * 4 + at(place + 2) / 64,
                _ => at(place + 2) % 64,
            };
            if place + i % 4 > bytes.len() {
                '='
            } else {
                letters[bits]
            }
        })
        .collect()
}

#[test]
fn blobs_can_be_read_back() {
    let mut bytes = Vec::new();
    let mut state: u32 = 7;
    for _ in 0..300 {
        let value = Cell::Blob(bytes.clone()).into_value();
        let encoded = match member(&value, "$blob") {
            Value::Text(encoded) => encoded.clone(),
            other => panic!("{other:?}"),
        };
        assert_eq!(encoded, stated_base64(&bytes));
        assert_eq!(STANDARD.decode(encoded).unwrap(), bytes);
        state = state.wrapping_mul(1_664_525).wrapping_add(1_013_904_223);
        bytes.push((state >> 24) as u8);
    }
}

fn items_response(format: RowFormat) -> QueryResponse {
    let mut response = QueryResponse::empty(format);
    assert!(response.needs_columns());
    assert!(response.begin_row(names(&["id", "name"]), 10));
    assert!(!response.needs_columns());
    response.push_row(vec![Cell::Integer(1), Cell::Text("book".into())]);
    response
}

#[test]
fn rows_are_objects_unless_arrays_are_asked_for() {
    let body = items_response(RowFormat::default()).serialize();
    let columns = Value::Array(vec![text("id"), text("name")]);
    assert_eq!(member(&body, "columns"), &columns);
    assert_eq!(member(&items(member(&body, "rows"))[0], "name"), &text("book"));

    let body = items_response(RowFormat::Arrays).serialize();
    assert_eq!(member(&body, "columns"), &columns);
    assert_eq!(
        member(&body, "rows"),
        &Value::Array(vec![Value::Array(vec![Value::Integer(1), text("book")])])
    );
}

#[test]
fn answers_to_queries_have_three_members() {
    assert_eq!(
        items_response(RowFormat::Objects).serialize(),
        object(vec![
            ("columns", Value::Array(vec![text("id"), text("name")])),
            (
                "rows",
                Value::Array(vec![object(vec![
                    ("id", Value::Integer(1)),
                    ("name", text("book")),
                ])])
            ),
            ("truncated", Value::Bool(false)),
        ])
    );
    assert_eq!(
        QueryResponse::empty(RowFormat::Objects).serialize(),
        object(vec![
            ("columns", Value::Array(vec![])),
            ("rows", Value::Array(vec![])),
            ("truncated", Value::Bool(false)),
        ])
    );
}

#[test]
fn columns_of_one_name_are_both_sent() {
    let mut response = QueryResponse::empty(RowFormat::Objects);
    assert!(response.begin_row(names(&["a", "a"]), 1));
    response.push_row(vec![Cell::Integer(1), Cell::Integer(2)]);
    assert_eq!(
        items(member(&response.serialize(), "rows"))[0],
        object(vec![("a", Value::Integer(1)), ("a", Value::Integer(2))])
    );
}

#[test]
fn results_stop_at_the_limit() {
    for (count, limit) in [(0, 3), (2, 3), (3, 3), (4, 3), (9, 3), (1, 0), (0, 0)] {
        let mut response = QueryResponse::empty(RowFormat::Arrays);
        let mut read = 0;
        for row in 0..count {
            read += 1;
            if !response.begin_row(names(&["n"]), limit) {
                break;
            }
            response.push_row(vec![Cell::Integer(row)]);
        }
        assert_eq!(read as usize, (limit + 1).min(count as usize));
        assert_eq!(response.truncated, count as usize > limit);
        assert_eq!(response.columns.len(), usize::from(count > 0));
        let expected: Vec<Vec<Value>> = (0..count)
            .take(limit)
            .map(|row| vec![Value::Integer(row)])
            .collect();
        assert_eq!(response.rows, expected);
    }
}

#[test]
fn columns_are_named_once() {
    let mut response = QueryResponse::empty(RowFormat::Arrays);
    assert!(response.begin_row(names(&["a"]), 5));
    assert!(response.begin_row(names(&["b"]), 5));
    assert_eq!(response.columns, names(&["a"]));
}

#[test]
fn effects_are_reported_by_name() {
    assert_eq!(
        ExecuteResult {
            rows_affected: 1,
            last_insert_rowid: -1
        }
        .serialize(),
        object(vec![
            ("rows_affected", Value::Unsigned(1)),
            ("last_insert_rowid", Value::Integer(-1)),
        ])
    );
}

fn run_of(statements: Vec<SqlRequest>, limit: usize) -> BatchRun {
    BatchRun::start(BatchRequest { statements }, limit).unwrap()
}

#[test]
fn a_batch_reports_every_statement() {
    let mut run = run_of(
        vec![
            statement("CREATE TABLE items (id INTEGER PRIMARY KEY, name TEXT)", &[]),
            statement("INSERT INTO items(name) VALUES (?)", &["\"book\""]),
            statement("SELECT id, name FROM items", &[]),
        ],
        10_000,
    );
    assert_eq!(
        run.next(),
        BatchStep::Run {
            sql: "CREATE TABLE items (id INTEGER PRIMARY KEY, name TEXT)".into(),
            values: vec![],
        }
    );
    run.effect(ExecuteResult {
        rows_affected: 0,
        last_insert_rowid: 0,
    });
    assert_eq!(
        run.next(),
        BatchStep::Run {
            sql: "INSERT INTO items(name) VALUES (?)".into(),
            values: vec![BindValue::Text("book".into())],
        }
    );
    run.effect(ExecuteResult {
        rows_affected: 1,
        last_insert_rowid: 1,
    });
    assert!(matches!(run.next(), BatchStep::Run { .. }));
    assert!(run.needs_columns());
    assert!(run.begin_row(names(&["id", "name"])));
    assert!(!run.needs_columns());
    run.push_row(vec![Cell::Integer(1), Cell::Text("book".into())]);
    run.effect(ExecuteResult {
        rows_affected: 0,
        last_insert_rowid: 1,
    });
    assert_eq!(run.next(), BatchStep::Commit);

    let body = run.finish().unwrap().serialize();
    let results = items(member(&body, "results"));
    assert_eq!(results.len(), 3);
    assert_eq!(member(&results[1], "rows_affected"), &Value::Unsigned(1));
    assert_eq!(member(&results[1], "last_insert_rowid"), &Value::Integer(1));
    assert!(items(member(&results[1], "rows")).is_empty());
    assert_eq!(
        member(&results[2], "columns"),
        &Value::Array(vec![text("id"), text("name")])
    );
    assert_eq!(member(&items(member(&results[2], "rows"))[0], "name"), &text("book"));
    assert_eq!(
        results[2],
        object(vec![
            ("rows_affected", Value::Unsigned(0)),
            ("last_insert_rowid", Value::Integer(1)),
            ("columns", Value::Array(vec![text("id"), text("name")])),
            (
                "rows",
                Value::Array(vec![object(vec![
                    ("id", Value::Integer(1)),
                    ("name", text("book")),
                ])])
            ),
            ("truncated", Value::Bool(false)),
        ])
    );
}

#[test]
fn a_batch_is_rolled_back_once_it_has_failed() {
    let mut run = run_of(
        vec![
            statement("INSERT INTO ledger(amount) VALUES (?)", &["10"]),
            statement("INSERT INTO ledger(amount) VALUES (?)", &["-1"]),
            statement("SELECT 1", &[]),
        ],
        10_000,
    );
    assert_eq!(
        run.next(),
        BatchStep::Run {
            sql: "INSERT INTO ledger(amount) VALUES (?)".into(),
            values: vec![BindValue::Integer(10)],
        }
    );
    assert!(matches!(run.next(), BatchStep::Run { .. }));
    let refused = |message: &str| DatabaseError {
        row_not_found: false,
        message: message.to_owned(),
    };
    run.fail(refused("CHECK constraint failed"));
    run.fail(refused("later"));
    assert_eq!(run.next(), BatchStep::Rollback);
    assert_eq!(run.next(), BatchStep::Rollback);
    let error = run.finish().unwrap_err();
    assert_eq!(error, AppError::Database(refused("CHECK constraint failed")));
    assert_eq!(error.into_response().status, 422);
}

#[test]
fn a_statement_that_is_refused_rolls_the_batch_back() {
    let mut run = run_of(vec![statement("SELECT 1", &[]), statement(" ", &["x"])], 1);
    assert!(matches!(run.next(), BatchStep::Run { .. }));
    assert_eq!(run.next(), BatchStep::Rollback);
    assert_eq!(run.next(), BatchStep::Rollback);
    assert_eq!(refusal(run.finish().unwrap_err()), "sql must not be empty");

    let mut run = run_of(vec![statement("SELECT ?", &["x"])], 1);
    assert_eq!(run.next(), BatchStep::Rollback);
    assert_eq!(refusal(run.finish().unwrap_err()), "params must be JSON values");
}

#[test]
fn a_commit_that_fails_is_answered_with_its_error() {
    let mut run = run_of(vec![statement("SELECT 1", &[])], 1);
    assert!(matches!(run.next(), BatchStep::Run { .. }));
    assert_eq!(run.next(), BatchStep::Commit);
    let error = DatabaseError {
        row_not_found: false,
        message: "disk full".into(),
    };
    run.fail(error);
    assert!(matches!(run.finish(), Err(AppError::Database(_))));
}

#[test]
fn statements_of_a_batch_stop_at_the_limit_each() {
    let mut run = run_of(vec![statement("SELECT 1", &[]), statement("SELECT 2", &[])], 1);
    assert!(matches!(run.next(), BatchStep::Run { .. }));
    assert!(run.begin_row(names(&["a"])));
    run.push_row(vec![Cell::Integer(1)]);
    assert!(!run.begin_row(names(&["a"])));
    // Further rows change nothing, and the effect still counts.
    assert!(!run.begin_row(names(&["a"])));
    run.effect(ExecuteResult {
        rows_affected: 3,
        last_insert_rowid: 9,
    });
    assert!(matches!(run.next(), BatchStep::Run { .. }));
    assert!(run.begin_row(names(&["b"])));
    run.push_row(vec![Cell::Null]);
    assert_eq!(run.next(), BatchStep::Commit);
    let results = run.finish().unwrap().results;
    assert_eq!(results[0].rows_affected, 3);
    assert_eq!(results[0].last_insert_rowid, 9);
    assert_eq!(results[0].rows.rows, vec![vec![Value::Integer(1)]]);
    assert_eq!(
        results.iter().map(|result| result.rows.truncated).collect::<Vec<bool>>(),
        vec![true, false]
    );
}

#[test]
fn batches_must_have_statements() {
    let refused = BatchRun::start(BatchRequest { statements: vec![] }, 1).unwrap_err();
    assert_eq!(refusal(refused), "statements must not be empty");
}

#[test]
fn errors_are_answered_with_status_code_and_message() {
    let database = |row_not_found| {
        AppError::Database(DatabaseError {
            row_not_found,
            message: "no such table: t".into(),
        })
    };
    for (error, status, code, message) in [
        (
            AppError::InvalidDatabaseName,
            400,
            "invalid_request",
            "invalid database name: use 1-64 ASCII letters, numbers, '-' or '_'",
        ),
        (
            AppError::InvalidRequest("sql must not be empty".into()),
            400,
            "invalid_request",
            "invalid request: sql must not be empty",
        ),
        (
            AppError::CapacityBusy,
            503,
            "capacity_busy",
            "all open databases are currently busy",
        ),
        (AppError::Overloaded, 429, "overloaded", "too many requests are in flight"),
        (AppError::Unauthorized, 401, "unauthorized", "unauthorized"),
        (database(true), 404, "not_found", "database error: no such table: t"),
        (database(false), 422, "database_error", "database error: no such table: t"),
        (
            AppError::Internal("kept from clients".into()),
            500,
            "internal_error",
            "internal server error",
        ),
    ] {
        let retry = (status == 429).then_some(1);
        let response = error.into_response();
        assert_eq!(response.status, status);
        assert_eq!(response.code, code);
        assert_eq!(response.message, message);
        assert_eq!(response.retry_after_seconds, retry);
        assert_eq!(
            response.body(),
            object(vec![(
                "error",
                object(vec![("code", text(code)), ("message", text(message))])
            )])
        );
    }
}

#[test]
fn statistics_are_reported_by_name() {
    let report = ManagerStats {
        open_databases: 1,
        active_leases: 2,
        max_open_databases: 3,
        available_request_slots: 4,
        max_concurrent_requests: 5,
    };
    assert_eq!(
        stats(&report),
        object(vec![
            ("open_databases", Value::Unsigned(1)),
            ("active_leases", Value::Unsigned(2)),
            ("max_open_databases", Value::Unsigned(3)),
            ("available_request_slots", Value::Unsigned(4)),
            ("max_concurrent_requests", Value::Unsigned(5)),
        ])
    );
    assert_eq!(METRICS_CONTENT_TYPE, "text/plain; version=0.0.4; charset=utf-8");
}

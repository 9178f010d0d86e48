//! The library against SQLite itself, with a database in memory.

use std::str::FromStr;

use futures_util::TryStreamExt;
use sqlx::query::Query;
use sqlx::sqlite::{
    SqliteArguments, SqliteConnectOptions, SqlitePool, SqlitePoolOptions, SqliteRow,
};
use sqlx::{Column, Either, Executor, Row, Sqlite, TypeInfo, ValueRef};
use tinkiva_database::api::{
    bind_query, validate_sql, BatchRequest, BatchRun, BatchStep, BindValue, ExecuteResult,
    QueryResponse, RowFormat, SqlRequest,
};
use tinkiva_database::cells::{cell_kind, Cell, CellKind};
use tinkiva_database::config::DatabaseSettings;
use tinkiva_database::error::{AppError, DatabaseError};
use tinkiva_database::json::Value;
use tinkiva_database::pool::{pool_plan, Role};
use tokio::runtime::{Builder, Runtime};

/// One database with a single connection, which takes the pragmas of a role in turn.
struct Tenant {
    runtime: Runtime,
    pool: SqlitePool,
    settings: DatabaseSettings,
}

fn database_error(error: sqlx::Error) -> DatabaseError {
    DatabaseError {
        row_not_found: matches!(error, sqlx::Error::RowNotFound),
        message: error.to_string(),
    }
}

fn failed(error: sqlx::Error) -> AppError {
    AppError::Database(database_error(error))
}

fn bound(sql: &str, values: Vec<BindValue>) -> Query<'_, Sqlite, SqliteArguments<'_>> {
    let mut query = sqlx::query(sql);
    for value in values {
        query = match value {
            BindValue::Null => query.bind(Option::<String>::None),
            BindValue::Bool(value) => query.bind(value),
            BindValue::Integer(value) => query.bind(value),
            BindValue::Real(number) => query.bind(number.parse::<f64>().unwrap()),
            BindValue::Text(text) => query.bind(text),
        };
    }
    query
}

fn columns(row: &SqliteRow) -> Vec<String> {
    row.columns().iter().map(|column| column.name().to_owned()).collect()
}

fn cells(row: &SqliteRow) -> Vec<Cell> {
    (0..row.columns().len())
        .map(|index| {
            let raw = row.try_get_raw(index).unwrap();
            match cell_kind(raw.is_null(), raw.type_info().name()) {
                CellKind::Null => Cell::Null,
                CellKind::Integer => Cell::Integer(row.get(index)),
                CellKind::Real => Cell::Real(row.get::<f64, usize>(index).to_bits()),
                CellKind::Blob => Cell::Blob(row.get(index)),
                CellKind::Text => Cell::Text(row.get(index)),
            }
        })
        .collect()
}

fn request(sql: &str, params: &[&str]) -> SqlRequest {
    SqlRequest {
        sql: sql.to_owned(),
        params: params.iter().map(|param| param.to_string()).collect(),
        format: RowFormat::default(),
    }
}

impl Tenant {
    fn new() -> Self {
        let runtime = Builder::new_current_thread().enable_all().build().unwrap();
        let options = SqliteConnectOptions::from_str("sqlite::memory:").unwrap();
        let pool = runtime
            .block_on(SqlitePoolOptions::new().max_connections(1).connect_with(options))
            .unwrap();
        Tenant {
            runtime,
            pool,
            settings: DatabaseSettings::default(),
        }
    }

    fn become_role(&self, role: Role) {
        for (name, value) in pool_plan(&self.settings, role).pragmas {
            let pragma = format!("PRAGMA {name} = {value}");
            self.runtime
                .block_on(self.pool.execute(pragma.as_str()))
                .unwrap();
        }
    }

    fn query(&self, request: SqlRequest) -> Result<Value, AppError> {
        self.become_role(Role::Reader);
        validate_sql(&request.sql)?;
        let values = bind_query(&request.params)?;
        let mut response = QueryResponse::empty(request.format);
        self.runtime.block_on(async {
            let mut stream = bound(&request.sql, values).fetch(&self.pool);
            while let Some(row) = stream.try_next().await.map_err(failed)? {
                if !response.begin_row(columns(&row), self.settings.max_result_rows) {
                    break;
                }
                response.push_row(cells(&row));
            }
            Ok(response.serialize())
        })
    }

    fn execute(&self, request: SqlRequest) -> Result<Value, AppError> {
        self.become_role(Role::Writer);
        validate_sql(&request.sql)?;
        let values = bind_query(&request.params)?;
        let result = self
            .runtime
            .block_on(bound(&request.sql, values).execute(&self.pool))
            .map_err(failed)?;
        Ok(ExecuteResult {
            rows_affected: result.rows_affected(),
            last_insert_rowid: result.last_insert_rowid(),
        }
        .serialize())
    }

    fn batch(&self, statements: Vec<SqlRequest>) -> Result<Value, AppError> {
        self.become_role(Role::Writer);
        let mut run = BatchRun::start(BatchRequest { statements }, self.settings.max_result_rows)?;
        self.runtime.block_on(async {
            let mut transaction = self.pool.begin().await.map_err(failed)?;
            loop {
                match run.next() {
                    BatchStep::Run { sql, values } => {
                        let mut stream = (&mut *transaction).fetch_many(bound(&sql, values));
                        loop {
                            match stream.try_next().await {
                                Ok(Some(Either::Left(effect))) => run.effect(ExecuteResult {
                                    rows_affected: effect.rows_affected(),
                                    last_insert_rowid: effect.last_insert_rowid(),
                                }),
                                Ok(Some(Either::Right(row))) => {
                                    if run.begin_row(columns(&row)) {
                                        run.push_row(cells(&row));
                                    }
                                }
                                Ok(None) => break,
                                Err(error) => {
                                    run.fail(database_error(error));
                                    break;
                                }
                            }
                        }
                    }
                    BatchStep::Commit => {
                        transaction.commit().await.map_err(failed)?;
                        break;
                    }
                    BatchStep::Rollback => {
                        transaction.rollback().await.map_err(failed)?;
                        break;
                    }
                }
            }
            Ok(run.finish()?.serialize())
        })
    }
}

fn member<'a>(value: &'a Value, name: &str) -> &'a Value {
    match value {
        Value::Object(members) => &members.iter().find(|(key, _)| key == name).unwrap().1,
        other => panic!("{other:?}"),
    }
}

fn item(value: &Value, index: usize) -> &Value {
    match value {
        Value::Array(items) => &items[index],
        other => panic!("{other:?}"),
    }
}

fn text(value: &str) -> Value {
    Value::Text(value.to_owned())
}

#[test]
fn executes_and_queries_tenant_database() {
    let app = Tenant::new();
    app.execute(request("CREATE TABLE items (id INTEGER PRIMARY KEY, name TEXT)", &[]))
        .unwrap();
    app.execute(request("INSERT INTO items(name) VALUES (?)", &["\"book\""]))
        .unwrap();
    let body = app.query(request("SELECT id, name FROM items", &[])).unwrap();
    assert_eq!(member(item(member(&body, "rows"), 0), "name"), &text("book"));
}

#[test]
fn batch_returns_rows_for_each_statement() {
    let app = Tenant::new();
    let body = app
        .batch(vec![
            request("CREATE TABLE items (id INTEGER PRIMARY KEY, name TEXT)", &[]),
            request("INSERT INTO items(name) VALUES (?)", &["\"book\""]),
            request("SELECT id, name FROM items", &[]),
        ])
        .unwrap();
    let results = member(&body, "results");
    assert!(matches!(results, Value::Array(items) if items.len() == 3));
    let insert = item(results, 1);
    assert_eq!(member(insert, "rows_affected"), &Value::Unsigned(1));
    assert_eq!(member(insert, "last_insert_rowid"), &Value::Integer(1));
    assert_eq!(member(insert, "rows"), &Value::Array(vec![]));
    let select = item(results, 2);
    assert_eq!(
        member(select, "columns"),
        &Value::Array(vec![text("id"), text("name")])
    );
    assert_eq!(member(item(member(select, "rows"), 0), "name"), &text("book"));
}

#[test]
fn rolls_back_a_failed_batch() {
    let app = Tenant::new();
    app.execute(request(
        "CREATE TABLE ledger (id INTEGER PRIMARY KEY, amount INTEGER CHECK(amount > 0))",
        &[],
    ))
    .unwrap();
    let error = app
        .batch(vec![
            request("INSERT INTO ledger(amount) VALUES (?)", &["10"]),
            request("INSERT INTO ledger(amount) VALUES (?)", &["-1"]),
        ])
        .unwrap_err();
    assert_eq!(error.into_response().status, 422);
    let body = app
        .query(request("SELECT count(*) AS total FROM ledger", &[]))
        .unwrap();
    assert_eq!(
        member(item(member(&body, "rows"), 0), "total"),
        &Value::Integer(0)
    );
}

#[test]
fn serves_rows_as_objects_or_arrays() {
    let app = Tenant::new();
    app.execute(request("CREATE TABLE items (id INTEGER PRIMARY KEY, name TEXT)", &[]))
        .unwrap();
    app.execute(request("INSERT INTO items(name) VALUES (?)", &["\"book\""]))
        .unwrap();

    let body = app.query(request("SELECT id, name FROM items", &[])).unwrap();
    let columns = Value::Array(vec![text("id"), text("name")]);
    assert_eq!(member(&body, "columns"), &columns);
    assert_eq!(member(item(member(&body, "rows"), 0), "name"), &text("book"));

    let mut arrays = request("SELECT id, name FROM items", &[]);
    arrays.format = RowFormat::Arrays;
    let body = app.query(arrays).unwrap();
    assert_eq!(member(&body, "columns"), &columns);
    assert_eq!(
        member(&body, "rows"),
        &Value::Array(vec![Value::Array(vec![Value::Integer(1), text("book")])])
    );
}

#[test]
fn a_truncated_statement_reports_its_effect() {
    let mut app = Tenant::new();
    app.settings.max_result_rows = 2;
    let body = app
        .batch(vec![
            request("CREATE TABLE items (id INTEGER PRIMARY KEY, name TEXT)", &[]),
            request(
                "INSERT INTO items(name) VALUES ('a'), ('b'), ('c'), ('d') RETURNING id",
                &[],
            ),
        ])
        .unwrap();
    let insert = item(member(&body, "results"), 1);
    assert_eq!(member(insert, "rows_affected"), &Value::Unsigned(4));
    assert_eq!(member(insert, "last_insert_rowid"), &Value::Integer(4));
    assert_eq!(member(insert, "truncated"), &Value::Bool(true));
    assert!(matches!(member(insert, "rows"), Value::Array(items) if items.len() == 2));
}

#[test]
fn query_endpoint_refuses_writes() {
    let app = Tenant::new();
    app.execute(request("CREATE TABLE items (id INTEGER PRIMARY KEY, name TEXT)", &[]))
        .unwrap();
    let write_through_query = app
        .query(request("INSERT INTO items(name) VALUES ('smuggled')", &[]))
        .unwrap_err();
    assert_eq!(write_through_query.into_response().status, 422);
    let body = app
        .query(request("SELECT count(*) AS total FROM items", &[]))
        .unwrap();
    assert_eq!(
        member(item(member(&body, "rows"), 0), "total"),
        &Value::Integer(0)
    );
}

#[test]
fn parameters_come_back_as_the_cells_they_were_bound_as() {
    let app = Tenant::new();
    let mut select = request(
        "SELECT ?, ?, ?, ?, ?, ?, x'00ff10', 9e999",
        &["null", "true", "-7", "49.9", "\"text\"", "{\"b\": 1, \"a\": [2]}"],
    );
    select.format = RowFormat::Arrays;
    let body = app.query(select).unwrap();
    assert_eq!(
        item(member(&body, "rows"), 0),
        &Value::Array(vec![
            Value::Null,
            Value::Integer(1),
            Value::Integer(-7),
            Value::Real(49.9f64.to_bits()),
            text("text"),
            text("{\"a\":[2],\"b\":1}"),
            Value::Object(vec![("$blob".to_owned(), text("AP8Q"))]),
            Value::Null,
        ])
    );
}

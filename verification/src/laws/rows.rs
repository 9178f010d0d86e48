//! What a query answers with: every row in its place, every value as it was read.

use crate::api::{
    effect_fields, results_json, results_view, row_members, rows_view, statements_view,
    stats_fields, text_items, texts_view, BatchStatementResult, ExecuteResult, QueryResponse,
    ResponseView, RowFormat, RowView, SqlRequest, StatementView,
};
use crate::cells::{is_finite, kind_of, row_json, row_sendable, Cell, CellKind, CellView};
use crate::db::ManagerStats;
use crate::json::{items_view, members_view, Json, Value};
use vstd::prelude::*;

verus! {

/// What a JSON value is taken to hold is what it holds: its number or text, its items one by one
/// in their order, its members likewise.
pub proof fn law_values_show_what_they_hold(
    number: i64,
    bits: u64,
    text: String,
    items: Vec<Value>,
    members: Vec<(String, Value)>,
)
    ensures
        Value::Null.view() == Json::Null,
        Value::Integer(number).view() == Json::Integer(number),
        Value::Unsigned(bits).view() == Json::Unsigned(bits),
        Value::Real(bits).view() == Json::Real(bits),
        Value::Bool(true).view() == Json::Bool(true),
        Value::Bool(false).view() == Json::Bool(false),
        Value::Text(text).view() == Json::Text(text@),
        Value::Array(items).view() is Array,
        Value::Array(items).view()->Array_0.len() == items@.len(),
        forall|i: int|
            0 <= i < items@.len() ==> #[trigger] Value::Array(items).view()->Array_0[i]
                == items@[i].view(),
        items_view(items@).len() == items@.len(),
        forall|i: int|
            0 <= i < items@.len() ==> #[trigger] items_view(items@)[i] == items@[i].view(),
        Value::Object(members).view() is Object,
        Value::Object(members).view()->Object_0.len() == members@.len(),
        forall|i: int|
            0 <= i < members@.len() ==> #[trigger] Value::Object(members).view()->Object_0[i] == (
                members@[i].0@,
                members@[i].1.view(),
            ),
        members_view(members@).len() == members@.len(),
        forall|i: int|
            0 <= i < members@.len() ==> #[trigger] members_view(members@)[i] == (
                members@[i].0@,
                members@[i].1.view(),
            ),
{
}

/// A cell is read by the name of its type, unless it is null; any other name stands for text.
pub proof fn law_cells_are_read_by_type(declared: Seq<char>)
    ensures
        kind_of(true, declared) == CellKind::Null,
        kind_of(false, declared) == CellKind::Integer <==> declared == "INTEGER"@,
        kind_of(false, declared) == CellKind::Real <==> declared == "REAL"@,
        kind_of(false, declared) == CellKind::Blob <==> declared == "BLOB"@,
        kind_of(false, declared) != CellKind::Null,
{
    reveal_strlit("INTEGER");
    reveal_strlit("REAL");
    reveal_strlit("BLOB");
    assert("REAL"@[0] == 'R' && "BLOB"@[0] == 'B' && "INTEGER"@[0] == 'I');
}

/// A number is finite exactly if not all bits of its exponent are set.
pub proof fn law_finite_numbers_have_an_exponent(bits: u64)
    ensures
        is_finite(bits) <==> (bits >> 52) & 0x7ff != 0x7ff,
{
    assert(bits / 0x10_0000_0000_0000 % 0x800 == (bits >> 52) & 0x7ff) by (bit_vector);
}

/// What a cell holds is sent as it is, an integer as that integer, a finite number as that
/// number, text as that text whatever its length; what is null or not finite as null; and bytes
/// as one member that is called `$blob`.
pub proof fn law_cells_are_sent_as_they_are(
    integer: i64,
    bits: u64,
    text: Seq<char>,
    bytes: Seq<u8>,
)
    ensures
        CellView::Null.json() is Null,
        CellView::Integer(integer).json() is Integer,
        CellView::Integer(integer).json()->Integer_0 == integer,
        (bits >> 52) & 0x7ff != 0x7ff ==> CellView::Real(bits).json() is Real && CellView::Real(
            bits,
        ).json()->Real_0 == bits,
        (bits >> 52) & 0x7ff == 0x7ff ==> CellView::Real(bits).json() is Null,
        CellView::Text(text).json() is Text,
        CellView::Text(text).json()->Text_0 == text,
        CellView::Blob(bytes).json() is Object,
        CellView::Blob(bytes).json()->Object_0.len() == 1,
        CellView::Blob(bytes).json()->Object_0[0].0 == "$blob"@,
        CellView::Blob(bytes).json()->Object_0[0].1 is Text,
{
    law_finite_numbers_have_an_exponent(bits);
}

/// What a cell is taken to hold is what it holds.
pub proof fn law_cells_show_what_they_hold(number: i64, bits: u64, bytes: Vec<u8>, text: String)
    ensures
        Cell::Null@ is Null,
        Cell::Integer(number)@ == CellView::Integer(number),
        Cell::Real(bits)@ == CellView::Real(bits),
        Cell::Blob(bytes)@ == CellView::Blob(bytes@),
        Cell::Text(text)@ == CellView::Text(text@),
{
}

/// A cell can be sent unless it holds so many bytes that their text, four characters for every
/// three bytes begun, is longer than memory can be; a row, if all of its cells can.
pub proof fn law_cells_can_be_sent(cell: CellView, cells: Seq<Cell>)
    ensures
        cell.sendable() <==> (cell is Blob ==> (cell->Blob_0.len() + 2) / 3 * 4 <= isize::MAX),
        row_sendable(cells) <==> forall|i: int|
            0 <= i < cells.len() ==> (#[trigger] cells[i])@.sendable(),
{
}

/// A row is sent cell by cell: as many values as there are cells, each in its place.
pub proof fn law_rows_are_sent_cell_by_cell(cells: Seq<Cell>)
    ensures
        row_json(cells).len() == cells.len(),
        forall|i: int| 0 <= i < cells.len() ==> #[trigger] row_json(cells)[i] == cells[i]@.json(),
{
}

/// What a response is taken to hold is what it holds: its columns and rows in their order, each
/// row value by value.
pub proof fn law_responses_show_what_they_hold(response: QueryResponse)
    ensures
        response@.columns.len() == response.columns@.len(),
        forall|i: int|
            0 <= i < response.columns@.len() ==> #[trigger] response@.columns[i]
                == response.columns@[i]@,
        response@.rows.len() == response.rows@.len(),
        forall|i: int|
            0 <= i < response.rows@.len() ==> (#[trigger] response@.rows[i]).len()
                == response.rows@[i]@.len(),
        forall|i: int, j: int|
            0 <= i < response.rows@.len() && 0 <= j < response.rows@[i]@.len() ==> (
            #[trigger] response@.rows[i][j]) == response.rows@[i]@[j].view(),
        response@.format == response.format,
        response@.truncated == response.truncated,
{
}

/// A response starts without columns and rows, in the format that was asked for.
pub proof fn law_responses_start_empty(format: RowFormat)
    ensures
        ResponseView::empty(format).columns.len() == 0,
        ResponseView::empty(format).rows.len() == 0,
        ResponseView::empty(format).format == format,
        !ResponseView::empty(format).truncated,
        StatementView::empty(format).effect.rows_affected == 0,
        StatementView::empty(format).effect.last_insert_rowid == 0,
        StatementView::empty(format).rows == ResponseView::empty(format),
{
}

/// A row that comes in while there is room is the last of the rows, as it came; the others stay
/// in front of it. Its columns are taken where none have names. A row past the limit is not kept,
/// and marks the response.
pub proof fn law_rows_are_kept_in_order(
    response: ResponseView,
    columns: Seq<Seq<char>>,
    row: Seq<Json>,
    limit: usize,
)
    ensures
        response.begun(columns, limit).rows == response.rows,
        response.begun(columns, limit).format == response.format,
        response.columns.len() == 0 ==> response.begun(columns, limit).columns == columns,
        response.columns.len() > 0 ==> response.begun(columns, limit).columns == response.columns,
        response.begun(columns, limit).truncated <==> response.truncated || response.rows.len()
            == limit,
        response.with_row(row).rows.len() == response.rows.len() + 1,
        response.with_row(row).rows.last() == row,
        forall|i: int|
            0 <= i < response.rows.len() ==> #[trigger] response.with_row(row).rows[i]
                == response.rows[i],
        response.with_row(row).columns == response.columns,
        response.with_row(row).format == response.format,
        response.with_row(row).truncated == response.truncated,
{
}

/// What a statement returns is answered row by row: the i-th row of the answer is the i-th that
/// came, up to the limit.
pub proof fn law_answers_hold_the_first_rows(format: RowFormat, rows: Seq<RowView>, limit: usize)
    ensures
        ({
            let response = ResponseView::empty(format).fetched(rows, limit);
            &&& response.rows.len() == (if rows.len() <= limit {
                rows.len() as int
            } else {
                limit as int
            })
            &&& forall|i: int|
                0 <= i < response.rows.len() ==> #[trigger] response.rows[i] == rows[i].values
            &&& response.truncated <==> rows.len() > limit
        }),
{
    crate::api::law_results_stop_at_the_limit(format, rows, limit);
}

/// The answer to a query has three members. The first lists the columns by name, in their order.
/// The second is an array with as many items as there are rows, and its i-th item is the i-th
/// row: in arrays the values of the row, one by one; in objects the same values in the same
/// order, each under the name of its column. The third tells whether there were more.
pub proof fn law_answers_tell_every_row(response: ResponseView)
    ensures
        response.row_fields().len() == 3,
        response.row_fields()[0].0 == "columns"@,
        response.row_fields()[0].1 matches Json::Array(columns) && {
            &&& columns.len() == response.columns.len()
            &&& forall|i: int|
                0 <= i < columns.len() ==> #[trigger] columns[i] == Json::Text(response.columns[i])
        },
        response.row_fields()[1].0 == "rows"@,
        response.row_fields()[1].1 matches Json::Array(items) && {
            &&& items.len() == response.rows.len()
            &&& response.format == RowFormat::Arrays ==> forall|i: int|
                0 <= i < items.len() ==> #[trigger] items[i] == Json::Array(response.rows[i])
            &&& response.format == RowFormat::Objects ==> forall|i: int|
                0 <= i < items.len() ==> {
                    &&& #[trigger] items[i] is Object
                    &&& response.rows[i].len() <= response.columns.len()
                        ==> items[i]->Object_0.len() == response.rows[i].len()
                    &&& response.columns.len() <= response.rows[i].len()
                        ==> items[i]->Object_0.len() == response.columns.len()
                    &&& forall|j: int|
                        0 <= j < items[i]->Object_0.len() ==> #[trigger] items[i]->Object_0[j] == (
                            response.columns[j],
                            response.rows[i][j],
                        )
                }
        },
        response.row_fields()[2].0 == "truncated"@,
        response.row_fields()[2].1 == Json::Bool(response.truncated),
{
    let items = response.rows_json();
    assert(response.row_fields()[1].1->Array_0 == items);
    assert(forall|i: int| 0 <= i < items.len() ==> #[trigger] items[i] == response.row_json(
        response.rows[i],
    ));
}

/// A list of names is written name by name, and the members of a row as an object are its values
/// under the names of its columns.
pub proof fn law_names_are_written_in_order(names: Seq<Seq<char>>, values: Seq<Json>)
    ensures
        text_items(names).len() == names.len(),
        forall|i: int| 0 <= i < names.len() ==> #[trigger] text_items(names)[i] == Json::Text(
            names[i],
        ),
        values.len() == names.len() ==> row_members(names, values).len() == names.len(),
        forall|i: int|
            0 <= i < row_members(names, values).len() ==> #[trigger] row_members(names, values)[i]
                == (names[i], values[i]),
{
}

/// What texts, rows, statements and results are taken to hold is what they hold, one by one.
pub proof fn law_lists_show_what_they_hold(
    texts: Seq<String>,
    rows: Seq<Vec<Value>>,
    statements: Seq<SqlRequest>,
    results: Seq<BatchStatementResult>,
)
    ensures
        texts_view(texts).len() == texts.len(),
        forall|i: int| 0 <= i < texts.len() ==> #[trigger] texts_view(texts)[i] == texts[i]@,
        rows_view(rows).len() == rows.len(),
        forall|i: int|
            0 <= i < rows.len() ==> #[trigger] rows_view(rows)[i] == items_view(rows[i]@),
        statements_view(statements).len() == statements.len(),
        forall|i: int|
            0 <= i < statements.len() ==> {
                &&& (#[trigger] statements_view(statements)[i]).sql == statements[i].sql@
                &&& statements_view(statements)[i].format == statements[i].format
                &&& statements_view(statements)[i].params.len() == statements[i].params@.len()
                &&& forall|j: int|
                    0 <= j < statements[i].params@.len()
                        ==> #[trigger] statements_view(statements)[i].params[j]
                        == statements[i].params@[j]@
            },
        results_view(results).len() == results.len(),
        forall|i: int|
            0 <= i < results.len() ==> {
                &&& (#[trigger] results_view(results)[i]).effect.rows_affected
                    == results[i].rows_affected
                &&& results_view(results)[i].effect.last_insert_rowid
                    == results[i].last_insert_rowid
                &&& results_view(results)[i].rows == results[i].rows@
            },
{
}

/// The effect of a statement is written by its two names.
pub proof fn law_effects_are_told(effect: ExecuteResult)
    ensures
        effect_fields(effect).len() == 2,
        effect_fields(effect)[0] == ("rows_affected"@, Json::Unsigned(effect.rows_affected)),
        effect_fields(effect)[1] == ("last_insert_rowid"@, Json::Integer(effect.last_insert_rowid)),
{
}

/// Every statement of a batch is reported in its place: its effect first, then the same three
/// members as the answer to a query.
pub proof fn law_batches_report_every_statement(results: Seq<StatementView>, i: int)
    requires
        0 <= i < results.len(),
    ensures
        results_json(results).len() == results.len(),
        results_json(results)[i] matches Json::Object(members) && {
            &&& members.len() == 5
            &&& members[0] == ("rows_affected"@, Json::Unsigned(results[i].effect.rows_affected))
            &&& members[1] == (
                "last_insert_rowid"@,
                Json::Integer(results[i].effect.last_insert_rowid),
            )
            &&& members[2] == results[i].rows.row_fields()[0]
            &&& members[3] == results[i].rows.row_fields()[1]
            &&& members[4] == results[i].rows.row_fields()[2]
        },
{
}

/// The statistics are written by their five names.
pub proof fn law_statistics_are_told(stats: ManagerStats)
    ensures
        stats_fields(stats).len() == 5,
        stats_fields(stats)[0].0 == "open_databases"@,
        stats_fields(stats)[0].1 matches Json::Unsigned(number) && number == stats.open_databases,
        stats_fields(stats)[1].0 == "active_leases"@,
        stats_fields(stats)[1].1 matches Json::Unsigned(number) && number == stats.active_leases,
        stats_fields(stats)[2].0 == "max_open_databases"@,
        stats_fields(stats)[2].1 matches Json::Unsigned(number) && number
            == stats.max_open_databases,
        stats_fields(stats)[3].0 == "available_request_slots"@,
        stats_fields(stats)[3].1 matches Json::Unsigned(number) && number
            == stats.available_request_slots,
        stats_fields(stats)[4].0 == "max_concurrent_requests"@,
        stats_fields(stats)[4].1 matches Json::Unsigned(number) && number
            == stats.max_concurrent_requests,
{
}

} // verus!

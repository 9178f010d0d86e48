//! Requests and answers of the HTTP interface.

use crate::cells::{row_json, row_sendable, row_values, Cell};
use crate::db::ManagerStats;
use crate::error::{AppError, DatabaseError};
use crate::json::{array, items_view, members_view, object, push_item, push_member, Json, Value};
use crate::text::{chars_of, same_text};
use subtle::ConstantTimeEq;
use vstd::prelude::*;
use vstd::string::StrSliceExecFns;
use vstd::utf8::encode_utf8_decode_utf8;

verus! {

/// `subtle`'s `ct_eq` on byte slices: whether they have the same length and the same bytes.
/// That the time does not depend on the bytes is left unsaid.
#[verifier::external_body]
fn constant_time_eq(left: &[u8], right: &[u8]) -> (same: bool)
    ensures
        same == (left@ == right@),
{
    bool::from(left.ct_eq(right))
}

/// The token behind `Bearer ` in an `Authorization` header. There is none without a header, nor
/// in one of another scheme.
pub open spec fn bearer_token(header: Option<Seq<char>>) -> Option<Seq<char>> {
    match header {
        Some(value) => if value.len() >= 7 && value.take(7) == "Bearer "@ {
            Some(value.skip(7))
        } else {
            None
        },
        None => None,
    }
}

/// What a text that may be missing holds.
pub open spec fn text_view(text: Option<&str>) -> Option<Seq<char>> {
    match text {
        Some(value) => Some(value@),
        None => None,
    }
}

/// The token behind `Bearer `, if there is one.
fn provided_token<'a>(header: Option<&'a str>) -> (token: Option<&'a str>)
    ensures
        text_view(token) == bearer_token(text_view(header)),
{
    proof {
        reveal_strlit("Bearer ");
    }
    match header {
        Some(value) => {
            let chars = chars_of(value);
            if chars.len() < 7 {
                return None;
            }
            let scheme = value.substring_char(0, 7);
            assert(scheme@ =~= value@.take(7));
            if !same_text(scheme, "Bearer ") {
                return None;
            }
            let token = value.substring_char(7, chars.len());
            assert(token@ =~= value@.skip(7));
            Some(token)
        },
        None => None,
    }
}

/// Lets a request pass if no token is expected, or if its `Authorization` header brings the one
/// that is. Where a token is expected, a request without such a header never passes.
pub fn authorize(expected: Option<&str>, header: Option<&str>) -> (result: Result<(), AppError>)
    ensures
        result is Ok <==> (expected matches Some(token) ==> bearer_token(text_view(header)) == Some(
            token@,
        )),
        result matches Err(error) ==> error == AppError::Unauthorized,
{
    let token = match expected {
        Some(token) => token,
        None => {
            return Ok(());
        },
    };
    let provided = match provided_token(header) {
        Some(provided) => provided,
        None => {
            return Err(AppError::Unauthorized);
        },
    };
    proof {
        encode_utf8_decode_utf8(provided@);
        encode_utf8_decode_utf8(token@);
    }
    if provided.as_bytes().len() != token.as_bytes().len() || !constant_time_eq(
        provided.as_bytes(),
        token.as_bytes(),
    ) {
        return Err(AppError::Unauthorized);
    }
    Ok(())
}

/// A header that brings a token in the scheme `Bearer` brings that token, whatever it is; a
/// request without a header brings none, not even an empty one, and neither does a header of
/// another scheme.
pub proof fn law_headers_bring_their_token(token: Seq<char>, other: Seq<char>)
    ensures
        bearer_token(Some("Bearer "@ + token)) == Some(token),
        bearer_token(None) is None,
        !"Bearer "@.is_prefix_of(other) ==> bearer_token(Some(other)) is None,
{
    reveal_strlit("Bearer ");
    let header = "Bearer "@ + token;
    assert(header.take(7) =~= "Bearer "@);
    assert(header.skip(7) =~= token);
    if other.len() >= 7 && other.take(7) == "Bearer "@ {
        assert(other.subrange(0, 7) =~= "Bearer "@);
    }
}

/// `arrays` drops the repeated column names from every row. On a wide result
/// set that is most of the payload.
#[derive(Clone, Copy, Debug, PartialEq, Eq, Structural)]
pub enum RowFormat {
    Objects,
    Arrays,
}

impl Default for RowFormat {
    fn default() -> (format: Self)
        ensures
            format == RowFormat::Objects,
    {
        RowFormat::Objects
    }
}

/// One statement with its positional parameters, each as JSON text.
#[derive(Debug)]
pub struct SqlRequest {
    pub sql: String,
    pub params: Vec<String>,
    pub format: RowFormat,
}

#[derive(Debug)]
pub struct BatchRequest {
    pub statements: Vec<SqlRequest>,
}

/// Unicode white space.
pub open spec fn is_white_space(c: char) -> bool {
    ||| '\u{9}' <= c <= '\u{d}'
    ||| c == ' '
    ||| c == '\u{85}'
    ||| c == '\u{a0}'
    ||| c == '\u{1680}'
    ||| '\u{2000}' <= c <= '\u{200a}'
    ||| c == '\u{2028}'
    ||| c == '\u{2029}'
    ||| c == '\u{202f}'
    ||| c == '\u{205f}'
    ||| c == '\u{3000}'
}

/// Whether there is nothing but white space in a text.
pub open spec fn blank(text: Seq<char>) -> bool {
    forall|i: int| 0 <= i < text.len() ==> is_white_space(#[trigger] text[i])
}

fn is_white_space_char(c: char) -> (result: bool)
    ensures
        result == is_white_space(c),
{
    ('\u{9}' <= c && c <= '\u{d}') || c == ' ' || c == '\u{85}' || c == '\u{a0}' || c == '\u{1680}'
        || ('\u{2000}' <= c && c <= '\u{200a}') || c == '\u{2028}' || c == '\u{2029}' || c
        == '\u{202f}' || c == '\u{205f}' || c == '\u{3000}'
}

/// Refuses a statement that is nothing but white space.
pub fn validate_sql(sql: &str) -> (result: Result<(), AppError>)
    ensures
        result is Ok <==> !blank(sql@),
        result matches Err(error) ==> error matches AppError::InvalidRequest(reason) && reason@
            == "sql must not be empty"@,
{
    let chars = chars_of(sql);
    let mut index: usize = 0;
    while index < chars.len()
        invariant
            index <= chars.len(),
            chars@ == sql@,
            forall|i: int| 0 <= i < index ==> is_white_space(#[trigger] sql@[i]),
        decreases chars.len() - index,
    {
        if !is_white_space_char(chars[index]) {
            assert(!is_white_space(sql@[index as int]));
            return Ok(());
        }
        index = index + 1;
    }
    Err(AppError::InvalidRequest("sql must not be empty".to_owned()))
}

/// A JSON value as far as a parameter needs it.
#[derive(Debug, PartialEq, Eq)]
pub enum JsonParam {
    Null,
    Bool(bool),
    /// A number, as a signed and as an unsigned integer where it is one, and as text.
    Number { signed: Option<i64>, unsigned: Option<u64>, text: String },
    Text(String),
    /// An array or an object, as compact text.
    Nested(String),
}

/// What a [`JsonParam`] holds.
pub enum JsonParamView {
    Null,
    Bool(bool),
    Number { signed: Option<i64>, unsigned: Option<u64>, text: Seq<char> },
    Text(Seq<char>),
    Nested(Seq<char>),
}

impl View for JsonParam {
    type V = JsonParamView;

    open spec fn view(&self) -> JsonParamView {
        match self {
            JsonParam::Null => JsonParamView::Null,
            JsonParam::Bool(value) => JsonParamView::Bool(*value),
            JsonParam::Number { signed, unsigned, text } => JsonParamView::Number {
                signed: *signed,
                unsigned: *unsigned,
                text: text@,
            },
            JsonParam::Text(text) => JsonParamView::Text(text@),
            JsonParam::Nested(text) => JsonParamView::Nested(text@),
        }
    }
}

/// What a JSON reader makes of a text, if it is JSON.
pub uninterp spec fn json_param(text: Seq<char>) -> Option<JsonParamView>;

/// `serde_json::from_str` into a `serde_json::Value`, with numbers, arrays and objects as
/// `serde_json` prints them. What a text gives is a function of the text. Which value that is
/// is left unsaid; built as `axum` asks for it, `serde_json` reads an object whose first member
/// bears the name that it reserves for raw values as the JSON inside that member.
#[verifier::external_body]
fn read_json(text: &str) -> (value: Option<JsonParam>)
    ensures
        json_param(text@) == (match value {
            Some(param) => Some(param@),
            None => None,
        }),
{
    match serde_json::from_str::<serde_json::Value>(text) {
        Ok(serde_json::Value::Null) => Some(JsonParam::Null),
        Ok(serde_json::Value::Bool(value)) => Some(JsonParam::Bool(value)),
        Ok(serde_json::Value::Number(number)) => Some(JsonParam::Number {
            signed: number.as_i64(),
            unsigned: number.as_u64(),
            text: number.to_string(),
        }),
        Ok(serde_json::Value::String(text)) => Some(JsonParam::Text(text)),
        Ok(nested) => Some(JsonParam::Nested(nested.to_string())),
        Err(_) => None,
    }
}

/// A value bound to a placeholder.
#[derive(Debug, PartialEq, Eq)]
pub enum BindValue {
    Null,
    Bool(bool),
    Integer(i64),
    /// A number in double precision, as text that reads back as it.
    Real(String),
    Text(String),
}

/// What a [`BindValue`] holds.
pub enum BindView {
    Null,
    Bool(bool),
    Integer(int),
    Real(Seq<char>),
    Text(Seq<char>),
}

impl View for BindValue {
    type V = BindView;

    open spec fn view(&self) -> BindView {
        match self {
            BindValue::Null => BindView::Null,
            BindValue::Bool(value) => BindView::Bool(*value),
            BindValue::Integer(value) => BindView::Integer(*value as int),
            BindValue::Real(text) => BindView::Real(text@),
            BindValue::Text(text) => BindView::Text(text@),
        }
    }
}

/// What a parameter is bound as, or why it cannot be. Integers are bound as integers, also
/// unsigned ones that a signed one can hold; arrays and objects as their text.
pub open spec fn bound(param: JsonParamView) -> Result<BindView, Seq<char>> {
    match param {
        JsonParamView::Null => Ok(BindView::Null),
        JsonParamView::Bool(value) => Ok(BindView::Bool(value)),
        JsonParamView::Number { signed, unsigned, text } => match (signed, unsigned) {
            (Some(number), _) => Ok(BindView::Integer(number as int)),
            (None, Some(number)) => if number <= i64::MAX {
                Ok(BindView::Integer(number as int))
            } else {
                Err("unsigned parameter is larger than SQLite INTEGER"@)
            },
            (None, None) => Ok(BindView::Real(text)),
        },
        JsonParamView::Text(text) => Ok(BindView::Text(text)),
        JsonParamView::Nested(text) => Ok(BindView::Text(text)),
    }
}

/// Whether a request was refused for `reason`.
pub open spec fn refused(error: AppError, reason: Seq<char>) -> bool {
    error matches AppError::InvalidRequest(text) && text@ == reason
}

/// What a parameter is bound as.
pub fn bind_value(param: JsonParam) -> (result: Result<BindValue, AppError>)
    ensures
        match (result, bound(param@)) {
            (Ok(value), Ok(view)) => value@ == view,
            (Err(error), Err(reason)) => refused(error, reason),
            _ => false,
        },
        param matches JsonParam::Text(text) ==> (result matches Ok(BindValue::Text(own)) && own@
            == text@),
        param matches JsonParam::Nested(text) ==> (result matches Ok(BindValue::Text(own)) && own@
            == text@),
        param matches JsonParam::Bool(flag) ==> result == Ok::<BindValue, AppError>(
            BindValue::Bool(flag),
        ),
        param is Null ==> result == Ok::<BindValue, AppError>(BindValue::Null),
{
    match param {
        JsonParam::Null => Ok(BindValue::Null),
        JsonParam::Bool(value) => Ok(BindValue::Bool(value)),
        JsonParam::Number { signed, unsigned, text } => match (signed, unsigned) {
            (Some(number), _) => Ok(BindValue::Integer(number)),
            (None, Some(number)) => if number <= i64::MAX as u64 {
                Ok(BindValue::Integer(number as i64))
            } else {
                Err(
                    AppError::InvalidRequest(
                        "unsigned parameter is larger than SQLite INTEGER".to_owned(),
                    ),
                )
            },
            (None, None) => Ok(BindValue::Real(text)),
        },
        JsonParam::Text(text) => Ok(BindValue::Text(text)),
        JsonParam::Nested(text) => Ok(BindValue::Text(text)),
    }
}

/// What the JSON text of a parameter is bound as, or why it cannot be.
pub open spec fn bound_text(text: Seq<char>) -> Result<BindView, Seq<char>> {
    match json_param(text) {
        Some(param) => bound(param),
        None => Err("params must be JSON values"@),
    }
}

/// What a list of texts holds.
pub open spec fn texts_view(texts: Seq<String>) -> Seq<Seq<char>> {
    Seq::new(texts.len(), |i: int| texts[i]@)
}

/// Why the first of `params` that cannot be bound cannot be, if there is one.
pub open spec fn bind_fault(params: Seq<Seq<char>>) -> Option<Seq<char>>
    decreases params.len(),
{
    if params.len() == 0 {
        None
    } else if bind_fault(params.drop_last()) is Some {
        bind_fault(params.drop_last())
    } else {
        match bound_text(params.last()) {
            Ok(value) => None,
            Err(reason) => Some(reason),
        }
    }
}

/// Whether `values` are what `params` are bound as, in their order.
pub open spec fn binds(params: Seq<Seq<char>>, values: Seq<BindValue>) -> bool {
    &&& values.len() == params.len()
    &&& forall|i: int|
        0 <= i < params.len() ==> bound_text(params[i]) == Ok::<BindView, Seq<char>>(
            (#[trigger] values[i])@,
        )
}

/// Binds the parameters of a statement, in their order.
pub fn bind_query(params: &Vec<String>) -> (result: Result<Vec<BindValue>, AppError>)
    ensures
        match result {
            Ok(values) => bind_fault(texts_view(params@)) is None && binds(
                texts_view(params@),
                values@,
            ),
            Err(error) => bind_fault(texts_view(params@)) matches Some(reason) && refused(
                error,
                reason,
            ),
        },
{
    let ghost texts = texts_view(params@);
    let mut values: Vec<BindValue> = Vec::new();
    let mut index: usize = 0;
    assert(texts.take(0) =~= Seq::empty());
    while index < params.len()
        invariant
            index <= params.len(),
            texts == texts_view(params@),
            bind_fault(texts.take(index as int)) is None,
            binds(texts.take(index as int), values@),
        decreases params.len() - index,
    {
        let ghost upto = texts.take(index + 1);
        assert(upto.drop_last() =~= texts.take(index as int));
        assert(upto.last() == params@[index as int]@);
        let bound_value = match read_json(params[index].as_str()) {
            Some(param) => bind_value(param),
            None => Err(AppError::InvalidRequest("params must be JSON values".to_owned())),
        };
        match bound_value {
            Ok(value) => {
                let ghost bound_before = values@;
                values.push(value);
                assert forall|i: int| 0 <= i < upto.len() implies bound_text(upto[i]) == Ok::<
                    BindView,
                    Seq<char>,
                >((#[trigger] values@[i])@) by {
                    if i < index {
                        assert(values@[i] == bound_before[i]);
                        assert(upto[i] == texts.take(index as int)[i]);
                    }
                }
            },
            Err(error) => {
                proof {
                    lemma_bind_fault_stays(texts, index + 1);
                }
                return Err(error);
            },
        }
        index = index + 1;
    }
    assert(texts.take(texts.len() as int) =~= texts);
    Ok(values)
}

proof fn lemma_bind_fault_stays(params: Seq<Seq<char>>, n: int)
    requires
        0 <= n <= params.len(),
        bind_fault(params.take(n)) is Some,
    ensures
        bind_fault(params) == bind_fault(params.take(n)),
    decreases params.len() - n,
{
    if n < params.len() {
        assert(params.take(n + 1).drop_last() =~= params.take(n));
        lemma_bind_fault_stays(params, n + 1);
    } else {
        assert(params.take(n) =~= params);
    }
}

/// Rows are always held as positional values. The object shape is produced when
/// the answer is written.
#[derive(Debug)]
pub struct QueryResponse {
    pub columns: Vec<String>,
    pub rows: Vec<Vec<Value>>,
    pub format: RowFormat,
    pub truncated: bool,
}

/// What rows hold.
pub open spec fn rows_view(rows: Seq<Vec<Value>>) -> Seq<Seq<Json>> {
    Seq::new(rows.len(), |i: int| items_view(rows[i]@))
}

/// What a [`QueryResponse`] holds.
#[verifier::ext_equal]
pub struct ResponseView {
    pub columns: Seq<Seq<char>>,
    pub rows: Seq<Seq<Json>>,
    pub format: RowFormat,
    pub truncated: bool,
}

impl View for QueryResponse {
    type V = ResponseView;

    open spec fn view(&self) -> ResponseView {
        ResponseView {
            columns: texts_view(self.columns@),
            rows: rows_view(self.rows@),
            format: self.format,
            truncated: self.truncated,
        }
    }
}

/// A row that a statement returns.
pub struct RowView {
    pub columns: Seq<Seq<char>>,
    pub values: Seq<Json>,
}

impl ResponseView {
    /// No rows yet.
    pub open spec fn empty(format: RowFormat) -> Self {
        ResponseView { columns: Seq::empty(), rows: Seq::empty(), format, truncated: false }
    }

    /// After the statement has returned another row. The first row names the columns. There is
    /// no place for a row past the limit.
    pub open spec fn begun(self, columns: Seq<Seq<char>>, limit: usize) -> Self {
        ResponseView {
            columns: if self.columns.len() == 0 {
                columns
            } else {
                self.columns
            },
            truncated: self.truncated || self.rows.len() == limit,
            ..self
        }
    }

    /// With one row more.
    pub open spec fn with_row(self, row: Seq<Json>) -> Self {
        ResponseView { rows: self.rows.push(row), ..self }
    }

    /// After the statement has returned `rows`. None is read past the first for which there is
    /// no place.
    pub open spec fn fetched(self, rows: Seq<RowView>, limit: usize) -> Self
        decreases rows.len(),
    {
        if rows.len() == 0 {
            self
        } else if self.rows.len() == limit {
            self.begun(rows[0].columns, limit)
        } else {
            self.begun(rows[0].columns, limit).with_row(rows[0].values).fetched(
                rows.drop_first(),
                limit,
            )
        }
    }
}

impl QueryResponse {
    /// No rows yet.
    pub fn empty(format: RowFormat) -> (response: Self)
        ensures
            response@ == ResponseView::empty(format),
    {
        QueryResponse { columns: Vec::new(), rows: Vec::new(), format, truncated: false }
    }

    /// Whether the columns have no names yet.
    pub fn needs_columns(&self) -> (result: bool)
        ensures
            result == (self@.columns.len() == 0),
    {
        self.columns.len() == 0
    }

    /// Notes that the statement has returned another row, and tells whether its values are
    /// wanted. The names of the columns are taken where they are needed.
    pub fn begin_row(&mut self, columns: Vec<String>, limit: usize) -> (wanted: bool)
        ensures
            final(self)@ == old(self)@.begun(texts_view(columns@), limit),
            wanted == (old(self)@.rows.len() != limit),
    {
        if self.columns.len() == 0 {
            self.columns = columns;
        }
        if self.rows.len() == limit {
            self.truncated = true;
            return false;
        }
        true
    }

    /// Adds a row.
    pub fn push_row(&mut self, cells: Vec<Cell>)
        requires
            row_sendable(cells@),
        ensures
            final(self)@ == old(self)@.with_row(row_json(cells@)),
    {
        self.rows.push(row_values(cells));
        assert(self@.rows =~= old(self)@.rows.push(row_json(cells@)));
    }
}

/// The values of rows.
pub open spec fn row_values_of(rows: Seq<RowView>) -> Seq<Seq<Json>> {
    Seq::new(rows.len(), |i: int| rows[i].values)
}

/// How many of `count` rows have a place.
pub open spec fn within(count: nat, limit: nat) -> nat {
    if count <= limit {
        count
    } else {
        limit
    }
}

proof fn lemma_fetched(response: ResponseView, rows: Seq<RowView>, limit: usize)
    requires
        response.rows.len() <= limit,
    ensures
        response.fetched(rows, limit) == (ResponseView {
            columns: response.fetched(rows, limit).columns,
            rows: response.rows + row_values_of(rows).take(
                within(rows.len(), (limit - response.rows.len()) as nat) as int,
            ),
            truncated: response.truncated || rows.len() > limit - response.rows.len(),
            ..response
        }),
        response.columns.len() > 0 ==> response.fetched(rows, limit).columns == response.columns,
    decreases rows.len(),
{
    let room = (limit - response.rows.len()) as nat;
    let taken = row_values_of(rows).take(within(rows.len(), room) as int);
    if rows.len() == 0 || room == 0 {
        assert(response.rows + taken =~= response.rows);
    } else {
        let next = response.begun(rows[0].columns, limit).with_row(rows[0].values);
        lemma_fetched(next, rows.drop_first(), limit);
        let rest = row_values_of(rows.drop_first()).take(
            within(rows.drop_first().len(), (room - 1) as nat) as int,
        );
        assert(response.rows + taken =~= next.rows + rest);
    }
}

/// Results stop at the limit: an answer holds the first rows that a statement returned, in
/// their order and as many as the limit allows, and is marked as truncated exactly if there
/// were more. Its columns are those of the first row.
pub proof fn law_results_stop_at_the_limit(format: RowFormat, rows: Seq<RowView>, limit: usize)
    ensures
        ({
            let response = ResponseView::empty(format).fetched(rows, limit);
            &&& response.rows == row_values_of(rows).take(within(rows.len(), limit as nat) as int)
            &&& response.rows.len() <= limit
            &&& response.truncated <==> rows.len() > limit
            &&& response.format == format
            &&& rows.len() == 0 ==> response.columns.len() == 0
            &&& rows.len() > 0 && rows[0].columns.len() > 0 ==> response.columns == rows[0].columns
        }),
{
    let empty = ResponseView::empty(format);
    lemma_fetched(empty, rows, limit);
    let taken = row_values_of(rows).take(within(rows.len(), limit as nat) as int);
    assert(empty.rows + taken =~= taken);
    if rows.len() > 0 && limit > 0 {
        let next = empty.begun(rows[0].columns, limit).with_row(rows[0].values);
        lemma_fetched(next, rows.drop_first(), limit);
    }
}

/// Past the limit a statement can be read on, to learn what it has changed: further rows leave
/// an answer that is truncated and names its columns as it is.
pub proof fn law_rows_past_the_limit_change_nothing(
    format: RowFormat,
    rows: Seq<RowView>,
    limit: usize,
    columns: Seq<Seq<char>>,
)
    requires
        rows.len() > limit,
        rows[0].columns.len() > 0,
    ensures
        ({
            let response = ResponseView::empty(format).fetched(rows, limit);
            response.begun(columns, limit) == response
        }),
{
    law_results_stop_at_the_limit(format, rows, limit);
    assert(row_values_of(rows).take(limit as int).len() == limit);
}

/// The members of a row as an object: each value under the name of its column.
pub open spec fn row_members(columns: Seq<Seq<char>>, values: Seq<Json>) -> Seq<
    (Seq<char>, Json),
> {
    Seq::new(within(values.len(), columns.len()), |i: int| (columns[i], values[i]))
}

/// The items of a list of texts.
pub open spec fn text_items(texts: Seq<Seq<char>>) -> Seq<Json> {
    Seq::new(texts.len(), |i: int| Json::Text(texts[i]))
}

impl ResponseView {
    /// How one row is written.
    pub open spec fn row_json(self, values: Seq<Json>) -> Json {
        match self.format {
            RowFormat::Arrays => Json::Array(values),
            RowFormat::Objects => Json::Object(row_members(self.columns, values)),
        }
    }

    /// How the rows are written.
    pub open spec fn rows_json(self) -> Seq<Json> {
        Seq::new(self.rows.len(), |i: int| self.row_json(self.rows[i]))
    }

    /// The members of an answer that the rows make up.
    pub open spec fn row_fields(self) -> Seq<(Seq<char>, Json)> {
        seq![
            ("columns"@, Json::Array(text_items(self.columns))),
            ("rows"@, Json::Array(self.rows_json())),
            ("truncated"@, Json::Bool(self.truncated)),
        ]
    }
}

fn texts_value(texts: &Vec<String>) -> (value: Value)
    ensures
        value.view() == Json::Array(text_items(texts_view(texts@))),
{
    let ghost items_json = text_items(texts_view(texts@));
    let mut items: Vec<Value> = Vec::new();
    let mut index: usize = 0;
    while index < texts.len()
        invariant
            index <= texts.len(),
            items_json == text_items(texts_view(texts@)),
            items_view(items@) == items_json.take(index as int),
        decreases texts.len() - index,
    {
        push_item(&mut items, Value::Text(texts[index].clone()));
        assert(items_view(items@) =~= items_json.take(index + 1));
        index = index + 1;
    }
    assert(items_json.take(texts@.len() as int) =~= items_json);
    array(items)
}

fn row_object(columns: &Vec<String>, values: Vec<Value>) -> (value: Value)
    ensures
        value.view() == Json::Object(row_members(texts_view(columns@), items_view(values@))),
{
    let ghost all = row_members(texts_view(columns@), items_view(values@));
    let mut members: Vec<(String, Value)> = Vec::new();
    let mut index: usize = 0;
    for value in row: values.into_iter()
        invariant
            row.seq() == values@,
            all == row_members(texts_view(columns@), items_view(values@)),
            index == within(row.index() as nat, columns@.len()),
            members_view(members@) == all.take(index as int),
    {
        assert(value == values@[row.index()]);
        if index < columns.len() {
            push_member(&mut members, columns[index].as_str(), value);
            assert(members_view(members@) =~= all.take(index + 1));
            index = index + 1;
        }
    }
    assert(all.take(index as int) =~= all);
    object(members)
}

fn row_value(columns: &Vec<String>, values: Vec<Value>, format: RowFormat) -> (value: Value)
    ensures
        value.view() == (match format {
            RowFormat::Arrays => Json::Array(items_view(values@)),
            RowFormat::Objects => Json::Object(
                row_members(texts_view(columns@), items_view(values@)),
            ),
        }),
{
    match format {
        RowFormat::Arrays => array(values),
        RowFormat::Objects => row_object(columns, values),
    }
}

impl QueryResponse {
    /// Adds the members that the rows make up, so that a batch entry can carry them beside its
    /// effect.
    pub fn write_rows(self, members: &mut Vec<(String, Value)>)
        ensures
            members_view(final(members)@) == members_view(old(members)@) + self@.row_fields(),
    {
        let QueryResponse { columns, rows, format, truncated } = self;
        let ghost response = self@;
        push_member(members, "columns", texts_value(&columns));
        let mut items: Vec<Value> = Vec::new();
        for values in list: rows.into_iter()
            invariant
                list.seq() == rows@,
                response == self@,
                self.columns == columns,
                self.rows == rows,
                self.format == format,
                items_view(items@) == response.rows_json().take(list.index()),
        {
            assert(values == rows@[list.index()]);
            push_item(&mut items, row_value(&columns, values, format));
            assert(items_view(items@) =~= response.rows_json().take(list.index() + 1));
        }
        assert(response.rows_json().take(rows@.len() as int) =~= response.rows_json());
        push_member(members, "rows", array(items));
        push_member(members, "truncated", Value::Bool(truncated));
        assert(members_view(members@) =~= members_view(old(members)@) + response.row_fields());
    }

    /// The body of the answer to a query: its rows in their order, each as an array of its values
    /// or as an object of them under the names of the columns.
    pub fn serialize(self) -> (body: Value)
        ensures
            body.view() == Json::Object(self@.row_fields()),
            body.view() matches Json::Object(members) && members.len() == 3 && {
                &&& members[1].0 == "rows"@
                &&& members[1].1 matches Json::Array(items)
                &&& items.len() == self.rows@.len()
                &&& self.format == RowFormat::Arrays ==> forall|i: int|
                    0 <= i < items.len() ==> #[trigger] items[i] == Json::Array(
                        items_view(self.rows@[i]@),
                    )
                &&& self.format == RowFormat::Objects ==> forall|i: int|
                    0 <= i < items.len() ==> #[trigger] items[i] == Json::Object(
                        row_members(texts_view(self.columns@), items_view(self.rows@[i]@)),
                    )
            },
    {
        let mut members: Vec<(String, Value)> = Vec::new();
        assert(members_view(members@) =~= Seq::empty());
        self.write_rows(&mut members);
        assert(members_view(members@) =~= self@.row_fields());
        object(members)
    }
}

/// Both formats carry the same values: the arrays are the rows themselves, and the objects hold
/// the same values in the same order, each under the name of its column.
pub proof fn law_formats_carry_the_same_values(response: ResponseView, row: int, column: int)
    requires
        0 <= row < response.rows.len(),
        response.rows[row].len() == response.columns.len(),
        0 <= column < response.columns.len(),
    ensures
        ({
            let arrays = ResponseView { format: RowFormat::Arrays, ..response };
            let objects = ResponseView { format: RowFormat::Objects, ..response };
            &&& arrays.rows_json()[row] == Json::Array(response.rows[row])
            &&& objects.rows_json()[row] matches Json::Object(members)
            &&& members.len() == response.columns.len()
            &&& members[column].0 == response.columns[column]
            &&& members[column].1 == response.rows[row][column]
            &&& arrays.row_fields()[0] == objects.row_fields()[0]
            &&& arrays.row_fields()[2] == objects.row_fields()[2]
        }),
{
}

/// What a statement changed.
#[derive(Clone, Copy, Debug, PartialEq, Eq, Structural)]
pub struct ExecuteResult {
    pub rows_affected: u64,
    pub last_insert_rowid: i64,
}

/// The members of an answer that the effect of a statement makes up.
pub open spec fn effect_fields(effect: ExecuteResult) -> Seq<(Seq<char>, Json)> {
    seq![
        ("rows_affected"@, Json::Unsigned(effect.rows_affected)),
        ("last_insert_rowid"@, Json::Integer(effect.last_insert_rowid)),
    ]
}

impl ExecuteResult {
    fn write_effect(self) -> (members: Vec<(String, Value)>)
        ensures
            members_view(members@) == effect_fields(self),
    {
        let mut members: Vec<(String, Value)> = Vec::new();
        push_member(&mut members, "rows_affected", Value::Unsigned(self.rows_affected));
        push_member(&mut members, "last_insert_rowid", Value::Integer(self.last_insert_rowid));
        assert(members_view(members@) =~= effect_fields(self));
        members
    }

    /// The body of the answer to a statement.
    pub fn serialize(self) -> (body: Value)
        ensures
            body.view() == Json::Object(effect_fields(self)),
    {
        object(self.write_effect())
    }
}

/// A statement's effect and whatever it returned. Batching only saves a round
/// trip if reads can travel in it too, so every statement reports rows.
#[derive(Debug)]
pub struct BatchStatementResult {
    pub rows_affected: u64,
    pub last_insert_rowid: i64,
    pub rows: QueryResponse,
}

/// What a [`BatchStatementResult`] holds.
#[verifier::ext_equal]
pub struct StatementView {
    pub effect: ExecuteResult,
    pub rows: ResponseView,
}

impl View for BatchStatementResult {
    type V = StatementView;

    open spec fn view(&self) -> StatementView {
        StatementView {
            effect: ExecuteResult {
                rows_affected: self.rows_affected,
                last_insert_rowid: self.last_insert_rowid,
            },
            rows: self.rows@,
        }
    }
}

impl StatementView {
    /// Nothing changed and nothing returned yet.
    pub open spec fn empty(format: RowFormat) -> Self {
        StatementView {
            effect: ExecuteResult { rows_affected: 0, last_insert_rowid: 0 },
            rows: ResponseView::empty(format),
        }
    }

    /// How the statement is reported.
    pub open spec fn json(self) -> Json {
        Json::Object(effect_fields(self.effect) + self.rows.row_fields())
    }
}

impl BatchStatementResult {
    /// How the statement is reported.
    pub fn serialize(self) -> (entry: Value)
        ensures
            entry.view() == self@.json(),
    {
        let BatchStatementResult { rows_affected, last_insert_rowid, rows } = self;
        let mut members = ExecuteResult { rows_affected, last_insert_rowid }.write_effect();
        rows.write_rows(&mut members);
        object(members)
    }
}

#[derive(Debug)]
pub struct BatchResponse {
    pub results: Vec<BatchStatementResult>,
}

/// What the results of statements hold.
pub open spec fn results_view(results: Seq<BatchStatementResult>) -> Seq<StatementView> {
    Seq::new(results.len(), |i: int| results[i]@)
}

/// How the results of statements are reported.
pub open spec fn results_json(results: Seq<StatementView>) -> Seq<Json> {
    Seq::new(results.len(), |i: int| results[i].json())
}

impl BatchResponse {
    /// The body of the answer to a batch.
    pub fn serialize(self) -> (body: Value)
        ensures
            body.view() == Json::Object(
                seq![("results"@, Json::Array(results_json(results_view(self.results@))))],
            ),
    {
        let BatchResponse { results } = self;
        let ghost all = results_json(results_view(results@));
        let mut items: Vec<Value> = Vec::new();
        for result in list: results.into_iter()
            invariant
                list.seq() == results@,
                all == results_json(results_view(results@)),
                items_view(items@) == all.take(list.index()),
        {
            assert(result == results@[list.index()]);
            push_item(&mut items, result.serialize());
            assert(items_view(items@) =~= all.take(list.index() + 1));
        }
        assert(all.take(results@.len() as int) =~= all);
        let mut members: Vec<(String, Value)> = Vec::new();
        push_member(&mut members, "results", array(items));
        assert(members_view(members@) =~= seq![("results"@, Json::Array(all))]);
        object(members)
    }
}

/// What a [`SqlRequest`] asks for.
pub struct SqlView {
    pub sql: Seq<char>,
    pub params: Seq<Seq<char>>,
    pub format: RowFormat,
}

impl View for SqlRequest {
    type V = SqlView;

    open spec fn view(&self) -> SqlView {
        SqlView { sql: self.sql@, params: texts_view(self.params@), format: self.format }
    }
}

impl SqlView {
    /// Why the statement is not run, if it is not.
    pub open spec fn fault(self) -> Option<Seq<char>> {
        if blank(self.sql) {
            Some("sql must not be empty"@)
        } else {
            bind_fault(self.params)
        }
    }
}

/// What the statements of a batch ask for.
pub open spec fn statements_view(statements: Seq<SqlRequest>) -> Seq<SqlView> {
    Seq::new(statements.len(), |i: int| statements[i]@)
}

/// A batch that is being run in a transaction.
#[derive(Debug)]
pub struct BatchRun {
    statements: Vec<SqlRequest>,
    limit: usize,
    results: Vec<BatchStatementResult>,
    error: Option<AppError>,
}

/// What a [`BatchRun`] holds.
#[verifier::ext_equal]
pub struct RunView {
    pub statements: Seq<SqlView>,
    /// How many rows a statement may return.
    pub limit: usize,
    /// What the statements that were begun have returned so far.
    pub results: Seq<StatementView>,
    /// Why the batch has failed, if it has.
    pub error: Option<AppError>,
}

impl View for BatchRun {
    type V = RunView;

    closed spec fn view(&self) -> RunView {
        RunView {
            statements: statements_view(self.statements@),
            limit: self.limit,
            results: results_view(self.results@),
            error: self.error,
        }
    }
}

/// What is to be done next for a batch.
#[derive(Debug, PartialEq, Eq)]
pub enum BatchStep {
    /// Run this statement in the transaction, with these values bound.
    Run { sql: String, values: Vec<BindValue> },
    /// Commit the transaction.
    Commit,
    /// Roll the transaction back.
    Rollback,
}

impl RunView {
    /// What always holds: the statements that were begun are the first ones, none of them was
    /// refused, and each reports rows in the format that was asked for, within the limit and
    /// truncated only at the limit.
    pub open spec fn wf(self) -> bool {
        &&& self.results.len() <= self.statements.len()
        &&& forall|i: int|
            0 <= i < self.results.len() ==> (#[trigger] self.results[i]).rows.format
                == self.statements[i].format && self.results[i].rows.rows.len() <= self.limit && (
            self.results[i].rows.truncated ==> self.results[i].rows.rows.len() == self.limit)
                && self.statements[i].fault() is None
    }

    /// A batch of which nothing has been run.
    pub open spec fn fresh(statements: Seq<SqlView>, limit: usize) -> Self {
        RunView { statements, limit, results: Seq::empty(), error: None }
    }

    /// With `result` in place of that of the statement that was begun last.
    pub open spec fn with_last(self, result: StatementView) -> Self {
        RunView { results: self.results.drop_last().push(result), ..self }
    }

    /// After the next statement was begun.
    pub open spec fn advanced(self) -> Self {
        let statement = self.statements[self.results.len() as int];
        RunView { results: self.results.push(StatementView::empty(statement.format)), ..self }
    }

    /// After the database has refused something.
    pub open spec fn failed(self, error: DatabaseError) -> Self {
        RunView {
            error: if self.error is None {
                Some(AppError::Database(error))
            } else {
                self.error
            },
            ..self
        }
    }
}

/// What [`BatchRun::next`] answers, and what it leaves behind.
pub open spec fn steps(before: RunView, after: RunView, step: BatchStep) -> bool {
    if before.error is Some {
        step is Rollback && after == before
    } else if before.results.len() == before.statements.len() {
        step is Commit && after == before
    } else {
        let statement = before.statements[before.results.len() as int];
        match statement.fault() {
            Some(reason) => {
                &&& step is Rollback
                &&& after.error matches Some(error)
                &&& refused(error, reason)
                &&& after == (RunView { error: after.error, ..before })
            },
            None => {
                &&& step matches BatchStep::Run { sql, values }
                &&& sql@ == statement.sql
                &&& binds(statement.params, values@)
                &&& after == before.advanced()
            },
        }
    }
}

impl BatchRun {
    /// Begins a batch, unless it has no statements.
    pub fn start(request: BatchRequest, limit: usize) -> (result: Result<Self, AppError>)
        ensures
            match result {
                Ok(run) => request.statements@.len() > 0 && run@ == RunView::fresh(
                    statements_view(request.statements@),
                    limit,
                ) && run@.wf(),
                Err(error) => request.statements@.len() == 0 && refused(
                    error,
                    "statements must not be empty"@,
                ),
            },
    {
        if request.statements.len() == 0 {
            return Err(AppError::InvalidRequest("statements must not be empty".to_owned()));
        }
        let run = BatchRun {
            statements: request.statements,
            limit,
            results: Vec::new(),
            error: None,
        };
        assert(run@ =~= RunView::fresh(statements_view(request.statements@), limit));
        Ok(run)
    }

    /// Begins the next statement once the one before it has been run. After the last one the
    /// batch is committed; once something has failed it is rolled back.
    pub fn next(&mut self) -> (step: BatchStep)
        requires
            old(self)@.wf(),
        ensures
            final(self)@.wf(),
            steps(old(self)@, final(self)@, step),
    {
        if self.error.is_some() {
            return BatchStep::Rollback;
        }
        let index: usize = self.results.len();
        if index == self.statements.len() {
            return BatchStep::Commit;
        }
        let prepared = match validate_sql(self.statements[index].sql.as_str()) {
            Ok(()) => bind_query(&self.statements[index].params),
            Err(error) => Err(error),
        };
        match prepared {
            Ok(values) => {
                let format = self.statements[index].format;
                let sql = self.statements[index].sql.clone();
                self.results.push(
                    BatchStatementResult {
                        rows_affected: 0,
                        last_insert_rowid: 0,
                        rows: QueryResponse::empty(format),
                    },
                );
                assert(self@ =~= old(self)@.advanced());
                BatchStep::Run { sql, values }
            },
            Err(error) => {
                self.error = Some(error);
                BatchStep::Rollback
            },
        }
    }

    /// Notes what the statement that was begun last has changed.
    pub fn effect(&mut self, effect: ExecuteResult)
        requires
            old(self)@.wf(),
            old(self)@.results.len() > 0,
        ensures
            final(self)@.wf(),
            final(self)@ == old(self)@.with_last(
                (StatementView { effect, ..old(self)@.results.last() }),
            ),
    {
        let mut result = self.results.pop().unwrap();
        result.rows_affected = effect.rows_affected;
        result.last_insert_rowid = effect.last_insert_rowid;
        self.results.push(result);
        assert(self@ =~= old(self)@.with_last(
            (StatementView { effect, ..old(self)@.results.last() }),
        ));
    }

    /// Whether the columns of the statement that was begun last have no names yet.
    pub fn needs_columns(&self) -> (result: bool)
        requires
            self@.results.len() > 0,
        ensures
            result == (self@.results.last().rows.columns.len() == 0),
    {
        self.results[self.results.len() - 1].rows.needs_columns()
    }

    /// Notes that the statement that was begun last has returned another row, and tells whether
    /// its values are wanted.
    pub fn begin_row(&mut self, columns: Vec<String>) -> (wanted: bool)
        requires
            old(self)@.wf(),
            old(self)@.results.len() > 0,
        ensures
            final(self)@.wf(),
            final(self)@ == old(self)@.with_last(
                (StatementView {
                    rows: old(self)@.results.last().rows.begun(
                        texts_view(columns@),
                        old(self)@.limit,
                    ),
                    ..old(self)@.results.last()
                }),
            ),
            wanted == (old(self)@.results.last().rows.rows.len() < old(self)@.limit),
    {
        let mut result = self.results.pop().unwrap();
        assert(result@ == old(self)@.results.last());
        let wanted = result.rows.begin_row(columns, self.limit);
        self.results.push(result);
        assert(self@ =~= old(self)@.with_last(
            (StatementView {
                rows: old(self)@.results.last().rows.begun(texts_view(columns@), old(self)@.limit),
                ..old(self)@.results.last()
            }),
        ));
        wanted
    }

    /// Adds a row to those of the statement that was begun last.
    pub fn push_row(&mut self, cells: Vec<Cell>)
        requires
            old(self)@.wf(),
            old(self)@.results.len() > 0,
            old(self)@.results.last().rows.rows.len() < old(self)@.limit,
            row_sendable(cells@),
        ensures
            final(self)@.wf(),
            final(self)@ == old(self)@.with_last(
                (StatementView {
                    rows: old(self)@.results.last().rows.with_row(row_json(cells@)),
                    ..old(self)@.results.last()
                }),
            ),
    {
        let mut result = self.results.pop().unwrap();
        assert(result@ == old(self)@.results.last());
        result.rows.push_row(cells);
        self.results.push(result);
        assert(self@ =~= old(self)@.with_last(
            (StatementView {
                rows: old(self)@.results.last().rows.with_row(row_json(cells@)),
                ..old(self)@.results.last()
            }),
        ));
    }

    /// Notes that the database has refused to run something. What failed first counts.
    pub fn fail(&mut self, error: DatabaseError)
        requires
            old(self)@.wf(),
        ensures
            final(self)@.wf(),
            final(self)@ == old(self)@.failed(error),
    {
        if self.error.is_none() {
            self.error = Some(AppError::Database(error));
        }
    }

    /// The answer to the batch, once it has been committed or rolled back: what every statement
    /// produced, or what failed first.
    pub fn finish(self) -> (result: Result<BatchResponse, AppError>)
        requires
            self@.error is Some || self@.results.len() == self@.statements.len(),
        ensures
            match result {
                Ok(response) => self@.error is None && results_view(response.results@)
                    == self@.results && response.results@.len() == self@.statements.len(),
                Err(error) => self@.error == Some(error),
            },
    {
        match self.error {
            Some(error) => Err(error),
            None => Ok(BatchResponse { results: self.results }),
        }
    }
}

/// A batch is atomic: it is committed only once every statement has been run and nothing has
/// failed; a statement that is refused rolls it back, and so does every step after something
/// failed, with the first failure as the answer.
pub proof fn law_batches_are_atomic(before: RunView, after: RunView, step: BatchStep)
    requires
        before.wf(),
        steps(before, after, step),
    ensures
        step is Commit <==> before.error is None && before.results.len()
            == before.statements.len(),
        step is Commit ==> forall|i: int|
            0 <= i < before.statements.len() ==> (#[trigger] before.statements[i]).fault() is None,
        step is Rollback <==> after.error is Some,
        before.error is Some ==> after.error == before.error,
        step is Run ==> after.results.len() == before.results.len() + 1,
{
    assert(step is Commit ==> forall|i: int|
        0 <= i < before.statements.len() ==> {
            &&& before.results[i].rows.format == before.statements[i].format
            &&& (#[trigger] before.statements[i]).fault() is None
        });
}

/// A failure is never forgotten: whatever a batch is told after it has failed, its error stays.
pub proof fn law_failed_batches_stay_failed(
    run: RunView,
    error: DatabaseError,
    result: StatementView,
)
    requires
        run.error is Some,
    ensures
        run.failed(error).error == run.error,
        run.with_last(result).error == run.error,
{
}

/// The content type of a metrics scrape.
pub const METRICS_CONTENT_TYPE: &'static str = "text/plain; version=0.0.4; charset=utf-8";

/// The body of the answer to a liveness check.
pub fn health() -> (body: Value)
    ensures
        body.view() == Json::Object(seq![("status"@, Json::Text("ok"@))]),
{
    let mut members: Vec<(String, Value)> = Vec::new();
    push_member(&mut members, "status", Value::Text("ok".to_owned()));
    assert(members_view(members@) =~= seq![("status"@, Json::Text("ok"@))]);
    object(members)
}

/// The members of the answer that reports statistics.
pub open spec fn stats_fields(stats: ManagerStats) -> Seq<(Seq<char>, Json)> {
    seq![
        ("open_databases"@, Json::Unsigned(stats.open_databases as u64)),
        ("active_leases"@, Json::Unsigned(stats.active_leases as u64)),
        ("max_open_databases"@, Json::Unsigned(stats.max_open_databases as u64)),
        ("available_request_slots"@, Json::Unsigned(stats.available_request_slots as u64)),
        ("max_concurrent_requests"@, Json::Unsigned(stats.max_concurrent_requests as u64)),
    ]
}

/// The body of the answer that reports statistics.
pub fn stats(report: &ManagerStats) -> (body: Value)
    ensures
        body.view() == Json::Object(stats_fields(*report)),
{
    let mut members: Vec<(String, Value)> = Vec::new();
    push_member(&mut members, "open_databases", Value::Unsigned(report.open_databases as u64));
    push_member(&mut members, "active_leases", Value::Unsigned(report.active_leases as u64));
    push_member(
        &mut members,
        "max_open_databases",
        Value::Unsigned(report.max_open_databases as u64),
    );
    push_member(
        &mut members,
        "available_request_slots",
        Value::Unsigned(report.available_request_slots as u64),
    );
    push_member(
        &mut members,
        "max_concurrent_requests",
        Value::Unsigned(report.max_concurrent_requests as u64),
    );
    assert(members_view(members@) =~= stats_fields(*report));
    object(members)
}

} // verus!

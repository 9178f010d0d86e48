//! Who may call, what is bound to placeholders, and what a batch does.

use crate::api::{
    bearer_token, bind_fault, binds, blank, bound_text, is_white_space, json_param, refused, steps,
    text_view, BatchStep, BindValue, BindView, ExecuteResult, JsonParam, JsonParamView, RunView,
    SqlView, StatementView,
};
use crate::error::{AppError, DatabaseError};
use vstd::prelude::*;

verus! {

/// A header that brings the token `brought` is the one that brings `expected` exactly if the two
/// are the same text; no other header brings any.
pub proof fn law_tokens_must_match(expected: Seq<char>, brought: Seq<char>, header: Seq<char>)
    ensures
        bearer_token(Some("Bearer "@ + brought)) == Some(expected) <==> brought == expected,
        bearer_token(Some(header)) == Some(expected) <==> header == "Bearer "@ + expected,
        bearer_token(None) is None,
{
    reveal_strlit("Bearer ");
    let value = "Bearer "@ + brought;
    assert(value.take(7) =~= "Bearer "@);
    assert(value.skip(7) =~= brought);
    let wanted = "Bearer "@ + expected;
    assert(wanted.take(7) =~= "Bearer "@);
    assert(wanted.skip(7) =~= expected);
    if bearer_token(Some(header)) == Some(expected) {
        assert(header =~= header.take(7) + header.skip(7));
    }
}

/// What a text that may be missing is taken to hold is what it holds.
pub proof fn law_texts_show_what_they_hold(text: &str)
    ensures
        text_view(Some(text)) == Some(text@),
        text_view(None) is None,
{
}

/// The characters that Unicode counts as white space.
pub open spec fn white(c: char) -> bool {
    let code = c as int;
    ||| 0x9 <= code <= 0xd
    ||| 0x2000 <= code <= 0x200a
    ||| code == 0x20 || code == 0x85 || code == 0xa0 || code == 0x1680
    ||| code == 0x2028 || code == 0x2029 || code == 0x202f || code == 0x205f || code == 0x3000
}

/// A text is blank exactly if all of it is white space: one other character anywhere is enough,
/// and texts that are put together are blank if both are.
pub proof fn law_blank_texts_are_white(text: Seq<char>, more: Seq<char>)
    ensures
        blank(text) <==> forall|i: int| 0 <= i < text.len() ==> white(#[trigger] text[i]),
        blank(text + more) <==> blank(text) && blank(more),
        blank(Seq::empty()),
{
    assert forall|c: char| #[trigger] white(c) == is_white_space(c) by {}
    assert forall|i: int| 0 <= i < text.len() implies white(#[trigger] text[i]) == is_white_space(
        text[i],
    ) by {}
    let whole = text + more;
    if blank(whole) {
        assert forall|i: int| 0 <= i < text.len() implies is_white_space(
            #[trigger] text[i],
        ) by {
            assert(whole[i] == text[i]);
        }
        assert forall|i: int| 0 <= i < more.len() implies is_white_space(
            #[trigger] more[i],
        ) by {
            assert(whole[text.len() + i] == more[i]);
        }
    }
    if blank(text) && blank(more) {
        assert forall|i: int| 0 <= i < whole.len() implies is_white_space(
            #[trigger] whole[i],
        ) by {
            if i < text.len() {
                assert(whole[i] == text[i]);
            } else {
                assert(whole[i] == more[i - text.len()]);
            }
        }
    }
}

/// What the text of a parameter is bound as: a string as its own text, whatever its length; an
/// array or an object as its JSON text; `null` and booleans as such; a number as the integer that
/// it is, or else by its own text. Nothing is lost on the way.
pub proof fn law_parameters_are_bound_without_loss(
    params: Seq<Seq<char>>,
    values: Seq<BindValue>,
    i: int,
)
    requires
        binds(params, values),
        0 <= i < params.len(),
    ensures
        values.len() == params.len(),
        json_param(params[i]) is Some,
        match json_param(params[i])->Some_0 {
            JsonParamView::Null => values[i]@ is Null,
            JsonParamView::Bool(value) => values[i]@ is Bool && values[i]@->Bool_0 == value,
            JsonParamView::Text(text) => values[i]@ is Text && values[i]@->Text_0 == text,
            JsonParamView::Nested(text) => values[i]@ is Text && values[i]@->Text_0 == text,
            JsonParamView::Number { signed, unsigned, text } => if signed is Some {
                values[i]@ is Integer && values[i]@->Integer_0 == signed->Some_0
            } else if unsigned is Some {
                values[i]@ is Integer && values[i]@->Integer_0 == unsigned->Some_0
                    && unsigned->Some_0 < 0x8000_0000_0000_0000
            } else {
                values[i]@ is Real && values[i]@->Real_0 == text
            },
        },
{
    assert(bound_text(params[i]) == Ok::<BindView, Seq<char>>(values[i]@));
}

/// A parameter that reads as a string is bound as that string, whatever its length, and is never
/// refused; so two that read as different strings are bound as different texts.
pub proof fn law_strings_are_bound_as_themselves(
    param: Seq<char>,
    text: Seq<char>,
    other: Seq<char>,
    other_text: Seq<char>,
)
    requires
        json_param(param) == Some(JsonParamView::Text(text)),
        json_param(other) == Some(JsonParamView::Text(other_text)),
    ensures
        bound_text(param) is Ok,
        bound_text(param)->Ok_0 == BindView::Text(text),
        bound_text(param)->Ok_0->Text_0.len() == text.len(),
        text != other_text <==> bound_text(param) != bound_text(other),
{
    assert(bound_text(other)->Ok_0->Text_0 == other_text);
}

/// What a parameter and the value that is bound for it are taken to hold is what they hold.
pub proof fn law_parameters_show_what_they_hold(
    flag: bool,
    integer: i64,
    signed: Option<i64>,
    unsigned: Option<u64>,
    text: String,
)
    ensures
        JsonParam::Null@ is Null,
        JsonParam::Bool(flag)@ == JsonParamView::Bool(flag),
        (JsonParam::Number { signed, unsigned, text })@ == (JsonParamView::Number {
            signed,
            unsigned,
            text: text@,
        }),
        JsonParam::Text(text)@ == JsonParamView::Text(text@),
        JsonParam::Nested(text)@ == JsonParamView::Nested(text@),
        BindValue::Null@ is Null,
        BindValue::Bool(flag)@ == BindView::Bool(flag),
        BindValue::Integer(integer)@ == BindView::Integer(integer as int),
        BindValue::Real(text)@ == BindView::Real(text@),
        BindValue::Text(text)@ == BindView::Text(text@),
{
}

/// Whether a parameter cannot be bound: its text is no JSON, or an integer past 63 bits.
pub open spec fn cannot_be_bound(param: Seq<char>) -> bool {
    match json_param(param) {
        None => true,
        Some(JsonParamView::Number { signed: None, unsigned: Some(number), text }) => number
            >= 0x8000_0000_0000_0000,
        _ => false,
    }
}

/// Parameters are refused exactly if one of them cannot be bound, for the reason of the first.
pub proof fn law_parameters_are_refused_for_the_first_fault(params: Seq<Seq<char>>)
    ensures
        bind_fault(params) is None <==> forall|i: int|
            0 <= i < params.len() ==> !cannot_be_bound(#[trigger] params[i]),
        bind_fault(params) matches Some(reason) ==> exists|i: int|
            {
                &&& 0 <= i < params.len()
                &&& cannot_be_bound(#[trigger] params[i])
                &&& forall|j: int| 0 <= j < i ==> !cannot_be_bound(#[trigger] params[j])
                &&& reason == (if json_param(params[i]) is None {
                    "params must be JSON values"@
                } else {
                    "unsigned parameter is larger than SQLite INTEGER"@
                })
            },
    decreases params.len(),
{
    if params.len() > 0 {
        let fewer = params.drop_last();
        law_parameters_are_refused_for_the_first_fault(fewer);
        assert(forall|i: int| 0 <= i < fewer.len() ==> #[trigger] fewer[i] == params[i]);
        assert(params.last() == params[params.len() - 1]);
        if bind_fault(fewer) is Some {
            let i = choose|i: int|
                {
                    &&& 0 <= i < fewer.len()
                    &&& cannot_be_bound(#[trigger] fewer[i])
                    &&& forall|j: int| 0 <= j < i ==> !cannot_be_bound(#[trigger] fewer[j])
                    &&& bind_fault(fewer)->Some_0 == (if json_param(fewer[i]) is None {
                        "params must be JSON values"@
                    } else {
                        "unsigned parameter is larger than SQLite INTEGER"@
                    })
                };
            assert(cannot_be_bound(params[i]));
            assert forall|j: int| 0 <= j < i implies !cannot_be_bound(#[trigger] params[j]) by {
                assert(fewer[j] == params[j]);
            }
        } else {
            let last = params.len() - 1;
            assert forall|j: int| 0 <= j < last implies !cannot_be_bound(#[trigger] params[j]) by {
                assert(fewer[j] == params[j]);
            }
            assert(cannot_be_bound(params[last]) <==> bound_text(params[last]) is Err);
        }
    }
}

/// Whether all of a text is white space.
pub open spec fn all_white(text: Seq<char>) -> bool {
    forall|i: int| 0 <= i < text.len() ==> white(#[trigger] text[i])
}

/// Whether some parameter of a statement cannot be bound.
pub open spec fn some_cannot_be_bound(params: Seq<Seq<char>>) -> bool {
    exists|i: int| 0 <= i < params.len() && cannot_be_bound(#[trigger] params[i])
}

/// A step of a batch that has not failed runs the statement that comes next, its own text with
/// its own parameters, and begins an empty result in its format. It commits once there is none.
/// A statement that is blank, or whose parameters cannot be bound, fails the batch.
pub proof fn law_batches_run_their_statements_in_order(
    before: RunView,
    after: RunView,
    step: BatchStep,
)
    requires
        steps(before, after, step),
        before.error is None,
        before.results.len() <= before.statements.len(),
    ensures
        before.results.len() == before.statements.len() ==> step is Commit && after == before,
        before.results.len() < before.statements.len() ==> {
            let next = before.statements[before.results.len() as int];
            if all_white(next.sql) {
                &&& step is Rollback
                &&& after.error matches Some(AppError::InvalidRequest(reason))
                &&& reason@ == "sql must not be empty"@
                &&& after.results == before.results
            } else if some_cannot_be_bound(next.params) {
                &&& step is Rollback
                &&& after.error matches Some(AppError::InvalidRequest(reason))
                &&& bind_fault(next.params) == Some(reason@)
                &&& after.results == before.results
            } else {
                &&& step matches BatchStep::Run { sql, values }
                &&& sql@ == next.sql
                &&& values@.len() == next.params.len()
                &&& forall|i: int|
                    0 <= i < next.params.len() ==> bound_text(next.params[i]) == Ok::<
                        BindView,
                        Seq<char>,
                    >((#[trigger] values@[i])@)
                &&& after.error is None
                &&& after.results.len() == before.results.len() + 1
                &&& after.results.take(before.results.len() as int) == before.results
                &&& after.results.last().effect == (ExecuteResult {
                    rows_affected: 0,
                    last_insert_rowid: 0,
                })
                &&& after.results.last().rows.rows.len() == 0
                &&& after.results.last().rows.columns.len() == 0
                &&& after.results.last().rows.format == next.format
                &&& !after.results.last().rows.truncated
            }
        },
        after.statements == before.statements,
        after.limit == before.limit,
{
    if before.results.len() < before.statements.len() {
        let next = before.statements[before.results.len() as int];
        law_blank_texts_are_white(next.sql, Seq::empty());
        law_parameters_are_refused_for_the_first_fault(next.params);
        assert(before.advanced().results.take(before.results.len() as int) =~= before.results);
    }
}

/// A batch that has failed is rolled back and keeps its first failure; nothing is run any more.
pub proof fn law_failed_batches_run_nothing(
    before: RunView,
    after: RunView,
    step: BatchStep,
    error: DatabaseError,
)
    ensures
        steps(before, after, step) && before.error is Some ==> step is Rollback && after == before,
        before.error is None ==> before.failed(error).error == Some(AppError::Database(error)),
        before.error is Some ==> before.failed(error).error == before.error,
        before.failed(error).results == before.results,
        before.failed(error).statements == before.statements,
        before.failed(error).limit == before.limit,
{
}

/// A batch starts with its own statements and none of their results.
pub proof fn law_batches_start_fresh(statements: Seq<SqlView>, limit: usize)
    ensures
        RunView::fresh(statements, limit).statements == statements,
        RunView::fresh(statements, limit).limit == limit,
        RunView::fresh(statements, limit).results.len() == 0,
        RunView::fresh(statements, limit).error is None,
{
}

/// What is noted of a batch goes to the statement that was begun last: all other results stay as
/// they are.
pub proof fn law_results_belong_to_the_last_statement(run: RunView, result: StatementView)
    requires
        run.results.len() > 0,
    ensures
        run.with_last(result).results.len() == run.results.len(),
        run.with_last(result).results.last() == result,
        forall|i: int|
            0 <= i < run.results.len() - 1 ==> #[trigger] run.with_last(result).results[i]
                == run.results[i],
        run.with_last(result).statements == run.statements,
        run.with_last(result).limit == run.limit,
        run.with_last(result).error == run.error,
{
}

/// A refusal holds its reason.
pub proof fn law_refusals_hold_their_reason(error: AppError, reason: Seq<char>)
    ensures
        refused(error, reason) <==> error is InvalidRequest && error->InvalidRequest_0@ == reason,
{
}

} // verus!

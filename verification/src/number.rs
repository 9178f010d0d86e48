//! Whole numbers read from text.

use crate::text::chars_of;
use vstd::prelude::*;

verus! {

/// Why a text is no whole number.
#[derive(Clone, Copy, Debug, PartialEq, Eq, Structural)]
pub enum NumberProblem {
    Empty,
    InvalidDigit,
    TooLarge,
}

impl NumberProblem {
    /// The problem in words.
    pub open spec fn text(self) -> Seq<char> {
        match self {
            NumberProblem::Empty => "cannot parse integer from empty string"@,
            NumberProblem::InvalidDigit => "invalid digit found in string"@,
            NumberProblem::TooLarge => "number too large to fit in target type"@,
        }
    }

    /// The problem in words.
    pub fn message(&self) -> (message: &'static str)
        ensures
            message@ == self.text(),
    {
        match self {
            NumberProblem::Empty => "cannot parse integer from empty string",
            NumberProblem::InvalidDigit => "invalid digit found in string",
            NumberProblem::TooLarge => "number too large to fit in target type",
        }
    }
}

/// ASCII digits.
pub open spec fn is_digit(c: char) -> bool {
    '0' <= c <= '9'
}

/// How many digits `text` starts with.
pub open spec fn leading_digits(text: Seq<char>) -> nat
    decreases text.len(),
{
    if text.len() == 0 || !is_digit(text[0]) {
        0
    } else {
        1 + leading_digits(text.drop_first())
    }
}

/// The number that digits spell.
pub open spec fn digits_value(digits: Seq<char>) -> nat
    decreases digits.len(),
{
    if digits.len() == 0 {
        0
    } else {
        10 * digits_value(digits.drop_last()) + (digits.last() as nat - '0' as nat) as nat
    }
}

/// The number, at most `max`, that a text of digits spells, with or without a leading `+`.
/// Reading stops at the first digit that exceeds `max` or at the first character that is
/// no digit, whichever comes first.
pub open spec fn parsed(text: Seq<char>, max: nat) -> Result<nat, NumberProblem> {
    let body = if text.len() > 1 && text[0] == '+' {
        text.drop_first()
    } else {
        text
    };
    let value = digits_value(body.take(leading_digits(body) as int));
    if text.len() == 0 {
        Err(NumberProblem::Empty)
    } else if value > max {
        Err(NumberProblem::TooLarge)
    } else if leading_digits(body) < body.len() {
        Err(NumberProblem::InvalidDigit)
    } else {
        Ok(value)
    }
}

proof fn lemma_leading_digits(text: Seq<char>, n: nat)
    requires
        n <= text.len(),
        forall|i: int| 0 <= i < n ==> is_digit(#[trigger] text[i]),
        n == text.len() || !is_digit(text[n as int]),
    ensures
        leading_digits(text) == n,
    decreases n,
{
    if n > 0 {
        let rest = text.drop_first();
        assert forall|i: int| 0 <= i < n - 1 implies is_digit(#[trigger] rest[i]) by {
            assert(rest[i] == text[i + 1]);
        }
        lemma_leading_digits(rest, (n - 1) as nat);
    }
}

proof fn lemma_leading_digits_are_digits(text: Seq<char>)
    ensures
        leading_digits(text) <= text.len(),
        forall|i: int| 0 <= i < leading_digits(text) ==> is_digit(#[trigger] text[i]),
    decreases text.len(),
{
    if text.len() > 0 && is_digit(text[0]) {
        let rest = text.drop_first();
        lemma_leading_digits_are_digits(rest);
        assert forall|i: int| 0 <= i < leading_digits(text) implies is_digit(
            #[trigger] text[i],
        ) by {
            if i > 0 {
                assert(text[i] == rest[i - 1]);
            }
        }
    }
}

proof fn lemma_leading_digits_reach(text: Seq<char>, n: nat)
    requires
        n <= text.len(),
        forall|i: int| 0 <= i < n ==> is_digit(#[trigger] text[i]),
    ensures
        n <= leading_digits(text),
    decreases n,
{
    if n > 0 {
        let rest = text.drop_first();
        assert forall|i: int| 0 <= i < n - 1 implies is_digit(#[trigger] rest[i]) by {
            assert(rest[i] == text[i + 1]);
        }
        lemma_leading_digits_reach(rest, (n - 1) as nat);
    }
}

proof fn lemma_longer_is_larger(digits: Seq<char>, n: nat)
    requires
        n <= digits.len(),
    ensures
        digits_value(digits.take(n as int)) <= digits_value(digits),
    decreases digits.len() - n,
{
    if n < digits.len() {
        lemma_longer_is_larger(digits, n + 1);
        assert(digits.take((n + 1) as int).drop_last() =~= digits.take(n as int));
    } else {
        assert(digits.take(n as int) =~= digits);
    }
}

/// Reads a whole number that is at most `max`.
pub fn parse_number(text: &str, max: u64) -> (result: Result<u64, NumberProblem>)
    ensures
        match result {
            Ok(number) => parsed(text@, max as nat) == Ok::<nat, NumberProblem>(number as nat),
            Err(problem) => parsed(text@, max as nat) == Err::<nat, NumberProblem>(problem),
        },
{
    let chars = chars_of(text);
    if chars.len() == 0 {
        return Err(NumberProblem::Empty);
    }
    let start: usize = if chars.len() > 1 && chars[0] == '+' {
        1
    } else {
        0
    };
    let ghost body = chars@.skip(start as int);
    assert(body =~= (if text@.len() > 1 && text@[0] == '+' {
        text@.drop_first()
    } else {
        text@
    }));
    let mut value: u64 = 0;
    let mut index: usize = start;
    while index < chars.len()
        invariant
            start <= index <= chars.len(),
            body == chars@.skip(start as int),
            forall|i: int| 0 <= i < index - start ==> is_digit(#[trigger] body[i]),
            value == digits_value(body.take(index - start)),
            value <= max,
            chars@ == text@,
            text@.len() > 0,
            body == (if text@.len() > 1 && text@[0] == '+' {
                text@.drop_first()
            } else {
                text@
            }),
        decreases chars.len() - index,
    {
        let c = chars[index];
        assert(c == body[index - start]);
        if !('0' <= c && c <= '9') {
            proof {
                lemma_leading_digits(body, (index - start) as nat);
            }
            return Err(NumberProblem::InvalidDigit);
        }
        let next: u128 = value as u128 * 10 + (c as u128 - '0' as u128);
        assert(body.take(index - start + 1).drop_last() =~= body.take(index - start));
        if next > max as u128 {
            proof {
                lemma_leading_digits_are_digits(body);
                lemma_leading_digits_reach(body, (index - start + 1) as nat);
                let all = body.take(leading_digits(body) as int);
                lemma_longer_is_larger(all, (index - start + 1) as nat);
                assert(all.take(index - start + 1) =~= body.take(index - start + 1));
            }
            return Err(NumberProblem::TooLarge);
        }
        value = next as u64;
        index = index + 1;
    }
    proof {
        lemma_leading_digits(body, (index - start) as nat);
    }
    Ok(value)
}

} // verus!

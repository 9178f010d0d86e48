//! Numbers and the digits that spell them.

use crate::number::{digits_value, is_digit, leading_digits, parsed, NumberProblem};
use crate::text::{decimal_text, digit_char};
use vstd::prelude::*;

verus! {

/// Whether all of a text is decimal digits.
pub open spec fn all_digits(text: Seq<char>) -> bool {
    forall|i: int| 0 <= i < text.len() ==> '0' <= #[trigger] text[i] <= '9'
}

/// The number that digits spell.
pub open spec fn spelled(digits: Seq<char>) -> int
    decreases digits.len(),
{
    if digits.len() == 0 {
        0
    } else {
        10 * spelled(digits.drop_last()) + (digits.last() as int - '0' as int)
    }
}

/// Whether a text spells a number: in digits, with or without a `+` in front.
pub open spec fn spells(text: Seq<char>, number: int) -> bool {
    ||| text.len() > 0 && all_digits(text) && spelled(text) == number
    ||| text.len() > 1 && text[0] == '+' && all_digits(text.drop_first()) && spelled(
        text.drop_first(),
    ) == number
}

/// A number is printed as digits that spell it, with no zero in front.
pub proof fn law_decimals_spell_their_number(number: nat)
    ensures
        decimal_text(number).len() > 0,
        all_digits(decimal_text(number)),
        spelled(decimal_text(number)) == number,
        number > 0 ==> decimal_text(number)[0] != '0',
        number == 0 ==> decimal_text(number).len() == 1,
    decreases number,
{
    if number < 10 {
        let text = decimal_text(number);
        assert(text.drop_last() =~= Seq::empty());
        assert(spelled(text.drop_last()) == 0);
        assert(text.last() == digit_char(number));
    } else {
        law_decimals_spell_their_number(number / 10);
        let text = decimal_text(number);
        assert(text.drop_last() =~= decimal_text(number / 10));
        assert(text.last() == digit_char(number % 10));
        assert(text[0] == decimal_text(number / 10)[0]);
    }
}

/// Two numbers are printed alike only if they are the same.
pub proof fn law_decimals_tell_numbers_apart(left: nat, right: nat)
    ensures
        decimal_text(left) == decimal_text(right) <==> left == right,
{
    law_decimals_spell_their_number(left);
    law_decimals_spell_their_number(right);
}

proof fn lemma_all_leading(text: Seq<char>)
    requires
        all_digits(text),
    ensures
        leading_digits(text) == text.len(),
    decreases text.len(),
{
    if text.len() > 0 {
        let rest = text.drop_first();
        assert forall|i: int| 0 <= i < rest.len() implies '0' <= #[trigger] rest[i] <= '9' by {
            assert(rest[i] == text[i + 1]);
        }
        lemma_all_leading(rest);
    }
}

proof fn lemma_leading_stops(text: Seq<char>, i: int)
    requires
        0 <= i < text.len(),
        !is_digit(text[i]),
    ensures
        leading_digits(text) <= i,
    decreases text.len(),
{
    if i > 0 && is_digit(text[0]) {
        assert(text.drop_first()[i - 1] == text[i]);
        lemma_leading_stops(text.drop_first(), i - 1);
    }
}

proof fn lemma_values_agree(digits: Seq<char>)
    requires
        all_digits(digits),
    ensures
        digits_value(digits) == spelled(digits),
    decreases digits.len(),
{
    if digits.len() > 0 {
        let fewer = digits.drop_last();
        assert forall|i: int| 0 <= i < fewer.len() implies '0' <= #[trigger] fewer[i] <= '9' by {
            assert(fewer[i] == digits[i]);
        }
        lemma_values_agree(fewer);
        assert(digits.last() == digits[digits.len() - 1]);
    }
}

/// What a text spells is read as that number, up to the largest that is allowed, and as nothing
/// else; past it, it is too large.
pub proof fn law_numbers_are_read_as_spelled(text: Seq<char>, max: nat, number: nat)
    requires
        spells(text, number as int),
    ensures
        number <= max ==> parsed(text, max) == Ok::<nat, NumberProblem>(number),
        number > max ==> parsed(text, max) == Err::<nat, NumberProblem>(NumberProblem::TooLarge),
{
    let body = if text.len() > 1 && text[0] == '+' {
        text.drop_first()
    } else {
        text
    };
    assert(all_digits(body) && spelled(body) == number);
    lemma_all_leading(body);
    lemma_values_agree(body);
    assert(body.take(body.len() as int) =~= body);
}

/// Only a text that spells a number is read as one. Nothing at all is told from what is no digit.
pub proof fn law_only_numbers_are_read(text: Seq<char>, max: nat)
    ensures
        parsed(text, max) matches Ok(number) ==> spells(text, number as int) && number <= max,
        parsed(text, max) == Err::<nat, NumberProblem>(NumberProblem::Empty) <==> text.len() == 0,
{
    let body = if text.len() > 1 && text[0] == '+' {
        text.drop_first()
    } else {
        text
    };
    if parsed(text, max) is Ok {
        assert(all_digits(body)) by {
            assert forall|i: int| 0 <= i < body.len() implies '0' <= #[trigger] body[i] <= '9' by {
                if !is_digit(body[i]) {
                    lemma_leading_stops(body, i);
                }
            }
        }
        lemma_all_leading(body);
        lemma_values_agree(body);
        assert(body.take(body.len() as int) =~= body);
    }
}

/// What was printed is read back.
pub proof fn law_printed_numbers_are_read_back(number: nat, max: nat)
    requires
        number <= max,
    ensures
        parsed(decimal_text(number), max) == Ok::<nat, NumberProblem>(number),
{
    law_decimals_spell_their_number(number);
    law_numbers_are_read_as_spelled(decimal_text(number), max, number);
}

} // verus!

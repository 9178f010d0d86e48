//! Numbers of seconds and the texts that a scrape reads them as.

use crate::laws::numbers::{all_digits, law_decimals_spell_their_number, spelled};
use crate::seconds::{
    double_unit, fewest_places, nearest_decimal, nearest_double, reads_as, round_half_even,
    seconds_text, steps_per_second, EXACT_MICROS,
};
use crate::text::{decimal_text, digit_char, fraction_text, power_of_ten, scaled_text};
use vstd::prelude::*;

verus! {

/// Ten to the power of `exponent`.
pub open spec fn tens(exponent: nat) -> nat
    decreases exponent,
{
    if exponent == 0 {
        1
    } else {
        10 * tens((exponent - 1) as nat)
    }
}

/// Whether a text spells `number` with `places` decimals: digits, and behind a point as many as
/// there are decimals.
pub open spec fn spells_decimal(text: Seq<char>, number: int, places: nat) -> bool {
    ||| places == 0 && text.len() > 0 && all_digits(text) && spelled(text) == number
    ||| exists|whole: Seq<char>, part: Seq<char>|
        {
            &&& #[trigger] (whole + seq!['.'] + part) == text
            &&& whole.len() > 0
            &&& part.len() == places > 0
            &&& all_digits(whole)
            &&& all_digits(part)
            &&& spelled(whole) * tens(places) + spelled(part) == number
        }
}

proof fn lemma_tens(exponent: nat)
    ensures
        tens(exponent) == power_of_ten(exponent),
        tens(exponent) > 0,
    decreases exponent,
{
    if exponent > 0 {
        lemma_tens((exponent - 1) as nat);
    }
}

proof fn lemma_tens_add(left: nat, right: nat)
    ensures
        tens(left + right) == tens(left) * tens(right),
    decreases left,
{
    if left > 0 {
        lemma_tens_add((left - 1) as nat, right);
        assert(tens(left + right) == 10 * tens((left - 1 + right) as nat));
        assert(10 * (tens((left - 1) as nat) * tens(right)) == (10 * tens((left - 1) as nat))
            * tens(right)) by (nonlinear_arith);
    } else {
        assert(tens(left) * tens(right) == tens(right)) by (nonlinear_arith)
            requires
                tens(left) == 1,
        ;
    }
}

proof fn lemma_spelled_front(digit: char, rest: Seq<char>)
    ensures
        spelled(seq![digit] + rest) == (digit as int - '0' as int) * tens(rest.len()) + spelled(
            rest,
        ),
    decreases rest.len(),
{
    let all = seq![digit] + rest;
    if rest.len() == 0 {
        assert(all.drop_last() =~= Seq::empty());
        assert(spelled(all.drop_last()) == 0);
        assert(all.last() == digit);
        assert(spelled(rest) == 0);
        let value = digit as int - '0' as int;
        assert(value * tens(rest.len()) == value) by (nonlinear_arith)
            requires
                tens(rest.len()) == 1,
        ;
    } else {
        let fewer = rest.drop_last();
        assert(all.drop_last() =~= seq![digit] + fewer);
        assert(all.last() == rest.last());
        lemma_spelled_front(digit, fewer);
        let value = digit as int - '0' as int;
        assert(10 * (value * tens(fewer.len())) == value * (10 * tens(fewer.len())))
            by (nonlinear_arith);
    }
}

proof fn lemma_fraction(part: nat, width: nat)
    requires
        part < tens(width),
    ensures
        fraction_text(part, width).len() <= width,
        all_digits(fraction_text(part, width)),
        spelled(fraction_text(part, width)) * tens(
            (width - fraction_text(part, width).len()) as nat,
        ) == part,
        part > 0 ==> fraction_text(part, width).len() > 0,
    decreases width,
{
    if part == 0 || width == 0 {
        assert(spelled(Seq::<char>::empty()) == 0);
        assert(0 * tens(width) == 0);
    } else {
        let below = (width - 1) as nat;
        lemma_tens(below);
        let unit = power_of_ten(below);
        let digit = part / unit;
        let left = part % unit;
        assert(digit < 10 && left < unit && part == digit * unit + left) by (nonlinear_arith)
            requires
                part < 10 * unit,
                unit > 0,
                digit == part / unit,
                left == part % unit,
        ;
        lemma_fraction(left, below);
        let rest = fraction_text(left, below);
        let text = fraction_text(part, width);
        assert(text == seq![digit_char(digit)] + rest);
        lemma_spelled_front(digit_char(digit), rest);
        assert(digit_char(digit) as int - '0' as int == digit);
        let gap = (below - rest.len()) as nat;
        lemma_tens_add(rest.len(), gap);
        assert((digit * tens(rest.len()) + spelled(rest)) * tens(gap) == digit * (tens(rest.len())
            * tens(gap)) + spelled(rest) * tens(gap)) by (nonlinear_arith);
        assert(width - text.len() == gap);
        assert forall|i: int| 0 <= i < text.len() implies '0' <= #[trigger] text[i] <= '9' by {
            if i > 0 {
                assert(text[i] == rest[i - 1]);
            }
        }
    }
}

/// A number that is divided by a power of ten is printed as a decimal of exactly that value, with
/// no more decimals than the power.
pub proof fn law_decimals_are_exact(number: nat, places: nat)
    ensures
        exists|value: int, decimals: nat|
            {
                &&& #[trigger] spells_decimal(scaled_text(number, places), value, decimals)
                &&& decimals <= places
                &&& value * tens((places - decimals) as nat) == number
            },
{
    lemma_tens(places);
    let unit = power_of_ten(places);
    let whole = number / unit;
    let part = number % unit;
    assert(part < unit && number == whole * unit + part) by (nonlinear_arith)
        requires
            unit > 0,
            whole == number / unit,
            part == number % unit,
    ;
    law_decimals_spell_their_number(whole);
    let text = scaled_text(number, places);
    if part == 0 {
        assert(spells_decimal(text, whole as int, 0));
        assert(whole as int * tens((places - 0) as nat) == number);
    } else {
        lemma_fraction(part, places);
        let behind = fraction_text(part, places);
        let decimals = behind.len();
        let value = whole * tens(decimals) + spelled(behind);
        let gap = (places - decimals) as nat;
        lemma_tens_add(decimals, gap);
        assert((whole * tens(decimals) + spelled(behind)) * tens(gap) == whole * (tens(decimals)
            * tens(gap)) + spelled(behind) * tens(gap)) by (nonlinear_arith);
        reveal_strlit(".");
        assert("."@ =~= seq!['.']);
        assert(decimal_text(whole) + seq!['.'] + behind == text);
        assert(spells_decimal(text, value, decimals));
    }
}

proof fn lemma_rounded(number: nat, divisor: nat)
    requires
        divisor > 0,
    ensures
        -(divisor as int) <= 2 * (round_half_even(number, divisor) * divisor - number) <= divisor,
{
    let quotient = number / divisor;
    let rest = number % divisor;
    assert(number == quotient * divisor + rest && rest < divisor) by (nonlinear_arith)
        requires
            divisor > 0,
            quotient == number / divisor,
            rest == number % divisor,
    ;
    assert((quotient + 1) * divisor == quotient * divisor + divisor) by (nonlinear_arith);
}

proof fn lemma_double(micros: u64)
    ensures
        -1024 <= nearest_double(micros as nat) - micros <= 1024,
{
    reveal_with_fuel(double_unit, 13);
    let unit = double_unit(micros as nat, 1);
    assert(1 <= unit <= 2048);
    lemma_rounded(micros as nat, unit);
}

proof fn lemma_steps(total: nat)
    requires
        total <= 0x1_0000_0000_0000_0000 + 1024,
    ensures
        128 <= steps_per_second(total, 524_288) <= 524_288,
{
    reveal_with_fuel(steps_per_second, 14);
}

proof fn lemma_places(mantissa: nat, steps: nat, from: nat)
    requires
        from <= 6,
    ensures
        ({
            let places = fewest_places(mantissa, steps, from);
            &&& from <= places <= 6
            &&& places < 6 ==> reads_as(
                nearest_decimal(mantissa, steps, places),
                places,
                mantissa,
                steps,
            )
        }),
    decreases 6 - from,
{
    if from < 6 && !reads_as(
        nearest_decimal(mantissa, steps, from),
        from,
        mantissa,
        steps,
    ) {
        lemma_places(mantissa, steps, from + 1);
    }
}

proof fn lemma_nearest(mantissa: nat, steps: nat, places: nat)
    requires
        steps > 0,
    ensures
        -(steps as int) <= 2 * (nearest_decimal(mantissa, steps, places) * steps - mantissa
            * power_of_ten(places)) <= steps,
{
    let doubled = 2 * mantissa * power_of_ten(places) + steps;
    let number = nearest_decimal(mantissa, steps, places);
    assert(2 * steps * number <= doubled < 2 * steps * number + 2 * steps) by (nonlinear_arith)
        requires
            steps > 0,
            number == doubled / (2 * steps),
    ;
    assert(2 * mantissa * power_of_ten(places) == 2 * (mantissa * power_of_ten(places)))
        by (nonlinear_arith);
    assert(2 * steps * number == 2 * (number * steps)) by (nonlinear_arith);
}

/// How far the decimal that stands for a double is off, in microseconds times `steps`.
proof fn lemma_decimal_off(mantissa: nat, steps: nat)
    requires
        128 <= steps <= 524_288,
    ensures
        ({
            let places = fewest_places(mantissa, steps, 0);
            let number = nearest_decimal(mantissa, steps, places);
            &&& places <= 6
            &&& -500_000 <= (number * steps) * tens((6 - places) as nat) - mantissa * 1_000_000
                <= 500_000
        }),
{
    let places = fewest_places(mantissa, steps, 0);
    let number = nearest_decimal(mantissa, steps, places);
    lemma_places(mantissa, steps, 0);
    lemma_nearest(mantissa, steps, places);
    let unit = power_of_ten(places);
    let gap = tens((6 - places) as nat);
    reveal_with_fuel(power_of_ten, 7);
    reveal_with_fuel(tens, 7);
    assert(unit * gap == 1_000_000) by {
        lemma_tens(places);
        lemma_tens_add(places, (6 - places) as nat);
        assert(tens(6) == 1_000_000);
    }
    let here = number * steps;
    let there = mantissa * unit;
    if places < 6 {
        assert(-(unit as int) <= 2 * (here - there) <= unit);
        assert(-1_000_000 <= 2 * (here * gap - there * gap) <= 1_000_000) by (nonlinear_arith)
            requires
                -(unit as int) <= 2 * (here - there) <= unit,
                unit * gap == 1_000_000,
                gap > 0,
        ;
    } else {
        assert(gap == 1);
        assert(here * gap == here && there * gap == there) by (nonlinear_arith)
            requires
                gap == 1,
        ;
    }
    assert(there * gap == mantissa * 1_000_000) by (nonlinear_arith)
        requires
            there == mantissa * unit,
            unit * gap == 1_000_000,
    ;
}

/// A total of microseconds is printed as a decimal number of seconds. Below 2^33 seconds it is
/// exact; from there on, where doubles no longer tell microseconds apart, it is less than ten
/// milliseconds off.
pub proof fn law_seconds_are_what_was_measured(micros: u64)
    ensures
        exists|value: int, decimals: nat|
            {
                &&& #[trigger] spells_decimal(seconds_text(micros), value, decimals)
                &&& decimals <= 6
                &&& micros < 8_589_934_592_000_000 ==> value * tens((6 - decimals) as nat) == micros
                &&& -10_000 < value * tens((6 - decimals) as nat) - micros < 10_000
            },
{
    if micros < EXACT_MICROS {
        law_decimals_are_exact(micros as nat, 6);
        let (value, decimals) = choose|value: int, decimals: nat|
            {
                &&& #[trigger] spells_decimal(scaled_text(micros as nat, 6), value, decimals)
                &&& decimals <= 6
                &&& value * tens((6 - decimals) as nat) == micros as nat
            };
        assert(spells_decimal(seconds_text(micros), value, decimals));
    } else {
        let total = nearest_double(micros as nat);
        lemma_double(micros);
        let steps = steps_per_second(total, 524_288);
        lemma_steps(total);
        let mantissa = round_half_even(total * steps, 1_000_000);
        lemma_rounded(total * steps, 1_000_000);
        let places = fewest_places(mantissa, steps, 0);
        let number = nearest_decimal(mantissa, steps, places);
        lemma_decimal_off(mantissa, steps);
        let gap = tens((6 - places) as nat);
        let printed = number * gap;
        assert((number * steps) * gap == printed * steps) by (nonlinear_arith)
            requires
                printed == number * gap,
        ;
        assert(-1_000_000 <= printed * steps - total * steps <= 1_000_000);
        assert(-7_813 < printed - total < 7_813) by (nonlinear_arith)
            requires
                -1_000_000 <= printed * steps - total * steps <= 1_000_000,
                steps >= 128,
        ;
        law_decimals_are_exact(number, places);
        let (value, decimals) = choose|value: int, decimals: nat|
            {
                &&& #[trigger] spells_decimal(scaled_text(number, places), value, decimals)
                &&& decimals <= places
                &&& value * tens((places - decimals) as nat) == number
            };
        assert(value * tens((6 - decimals) as nat) == printed) by {
            lemma_tens_add((places - decimals) as nat, (6 - places) as nat);
            let inner = tens((places - decimals) as nat);
            assert(value * (inner * gap) == (value * inner) * gap) by (nonlinear_arith);
        }
        assert(spells_decimal(seconds_text(micros), value, decimals));
    }
}

} // verus!

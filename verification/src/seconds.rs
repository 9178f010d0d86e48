//! A number of microseconds, printed as seconds.
//!
//! A scrape reads the text as a double-precision number, so a total is printed as the
//! double nearest to it: in the fewest decimals that read back as that double. Below
//! 2^33 seconds doubles lie closer together than microseconds do, and every digit is
//! printed as it is.

use crate::text::{power_of_ten, push_scaled, scaled_text};
use vstd::prelude::*;

verus! {

/// Microseconds in 2^33 seconds.
pub const EXACT_MICROS: u64 = 8_589_934_592_000_000;

/// 2^53: a double holds this many steps between one power of two and the next, twice over.
pub const MANTISSA: u128 = 9_007_199_254_740_992;

/// `number` divided by `divisor`, to the nearest whole number and, halfway, to the even one.
pub open spec fn round_half_even(number: nat, divisor: nat) -> nat {
    let quotient = number / divisor;
    let twice_rest = 2 * (number % divisor);
    if twice_rest > divisor || (twice_rest == divisor && quotient % 2 == 1) {
        quotient + 1
    } else {
        quotient
    }
}

/// The distance of doubles around `number`: the least power of two, from `unit` up, that
/// 53 bits of it can tell apart.
pub open spec fn double_unit(number: nat, unit: nat) -> nat
    decreases number - unit,
{
    if number < MANTISSA * unit || unit == 0 {
        unit
    } else {
        double_unit(number, 2 * unit)
    }
}

/// The double nearest to a whole number, which is a whole number itself.
pub open spec fn nearest_double(number: nat) -> nat {
    let unit = double_unit(number, 1);
    round_half_even(number, unit) * unit
}

/// How many doubles lie between one whole number and the next around `micros` microseconds,
/// counted in seconds: a power of two, from `steps` down.
pub open spec fn steps_per_second(micros: nat, steps: nat) -> nat
    decreases steps,
{
    if micros * steps < MANTISSA * 1_000_000 || steps <= 1 {
        steps
    } else {
        steps_per_second(micros, steps / 2)
    }
}

/// The whole number nearest to `mantissa / steps` times ten to the power of `places`.
pub open spec fn nearest_decimal(mantissa: nat, steps: nat, places: nat) -> nat {
    (2 * mantissa * power_of_ten(places) + steps) / (2 * steps)
}

/// Whether `number` with `places` decimals is read as the double `mantissa / steps`: it
/// lies no more than half a step off, and exactly half a step only for an even mantissa.
pub open spec fn reads_as(number: nat, places: nat, mantissa: nat, steps: nat) -> bool {
    let here = number * steps;
    let there = mantissa * power_of_ten(places);
    let off = 2 * (if here >= there {
        here - there
    } else {
        there - here
    });
    off < power_of_ten(places) || (off == power_of_ten(places) && mantissa % 2 == 0)
}

/// The fewest decimals, from `places` up to six, in which the double `mantissa / steps`
/// can be written.
pub open spec fn fewest_places(mantissa: nat, steps: nat, places: nat) -> nat
    decreases 6 - places,
{
    if places >= 6 || reads_as(
        nearest_decimal(mantissa, steps, places),
        places,
        mantissa,
        steps,
    ) {
        places
    } else {
        fewest_places(mantissa, steps, places + 1)
    }
}

/// A number of microseconds as text in seconds.
pub open spec fn seconds_text(micros: u64) -> Seq<char> {
    if micros < EXACT_MICROS {
        scaled_text(micros as nat, 6)
    } else {
        let total = nearest_double(micros as nat);
        let steps = steps_per_second(total, 524_288);
        let mantissa = round_half_even(total * steps, 1_000_000);
        let places = fewest_places(mantissa, steps, 0);
        scaled_text(nearest_decimal(mantissa, steps, places), places)
    }
}

/// `round_half_even` on machine numbers.
fn rounded(number: u128, divisor: u128) -> (result: u128)
    requires
        0 < divisor < 0x1_0000_0000_0000_0000,
        number < 0x1_0000_0000_0000_0000_0000_0000,
    ensures
        result == round_half_even(number as nat, divisor as nat),
        result <= number / divisor + 1,
{
    let quotient: u128 = number / divisor;
    let rest: u128 = number % divisor;
    assert(rest < divisor && quotient <= number) by (nonlinear_arith)
        requires
            divisor > 0,
            quotient == number / divisor,
            rest == number % divisor,
    ;
    if 2 * rest > divisor || (2 * rest == divisor && quotient % 2 == 1) {
        quotient + 1
    } else {
        quotient
    }
}

/// The double nearest to a whole number.
fn as_double(number: u64) -> (result: u128)
    ensures
        result == nearest_double(number as nat),
        result < 0x2_0000_0000_0000_0000,
{
    let mut unit: u128 = 1;
    while number as u128 >= MANTISSA * unit
        invariant
            1 <= unit < 4096,
            unit == 1 || MANTISSA * unit <= 2 * number,
            double_unit(number as nat, 1) == double_unit(number as nat, unit as nat),
        decreases 4096 - unit,
    {
        unit = 2 * unit;
    }
    let count: u128 = rounded(number as u128, unit);
    assert(count * unit <= number + unit) by (nonlinear_arith)
        requires
            count <= number as u128 / unit + 1,
            unit > 0,
    ;
    count * unit
}

/// The decimal nearest to `mantissa / steps`, in units of one `unit`-th.
fn decimal_near(mantissa: u128, steps: u128, places: Ghost<nat>, unit: u128) -> (result: u128)
    requires
        mantissa < 0x1000_0000_0000_0000_0000,
        0 < steps <= 524_288,
        0 < unit <= 1_000_000,
        unit == power_of_ten(places@),
    ensures
        result == nearest_decimal(mantissa as nat, steps as nat, places@),
        result * steps <= mantissa * unit + steps,
{
    assert(2 * mantissa * unit == 2 * (mantissa * unit) && mantissa * unit
        <= 0x1000_0000_0000_0000_0000 * 1_000_000) by (nonlinear_arith)
        requires
            mantissa < 0x1000_0000_0000_0000_0000,
            unit <= 1_000_000,
    ;
    let doubled: u128 = 2 * mantissa * unit + steps;
    let result: u128 = doubled / (2 * steps);
    assert(result * steps <= mantissa * unit + steps) by (nonlinear_arith)
        requires
            result == doubled as int / (2 * steps),
            doubled == 2 * mantissa * unit + steps,
            steps > 0,
    ;
    result
}

/// Whether `number` of one `unit`-th each is read as `mantissa / steps`.
fn is_read_as(number: u128, places: Ghost<nat>, unit: u128, mantissa: u128, steps: u128) -> (result:
    bool)
    requires
        mantissa < 0x1000_0000_0000_0000_0000,
        0 < steps <= 524_288,
        0 < unit <= 1_000_000,
        unit == power_of_ten(places@),
        number * steps <= mantissa * unit + steps,
    ensures
        result == reads_as(number as nat, places@, mantissa as nat, steps as nat),
{
    assert(mantissa * unit <= 0x1000_0000_0000_0000_0000 * 1_000_000) by (nonlinear_arith)
        requires
            mantissa < 0x1000_0000_0000_0000_0000,
            unit <= 1_000_000,
    ;
    let here: u128 = number * steps;
    let there: u128 = mantissa * unit;
    let off: u128 = if here >= there {
        2 * (here - there)
    } else {
        2 * (there - here)
    };
    off < unit || (off == unit && mantissa % 2 == 0)
}

/// Appends a number of microseconds as text in seconds.
pub fn push_seconds(out: &mut String, micros: u64)
    ensures
        final(out)@ == old(out)@ + seconds_text(micros),
{
    if micros < EXACT_MICROS {
        assert(1_000_000 == power_of_ten(6)) by {
            reveal_with_fuel(power_of_ten, 7);
        }
        push_scaled(out, micros as u128, 6, 1_000_000);
        return;
    }
    let total: u128 = as_double(micros);
    let mut steps: u128 = 524_288;
    while total * steps >= MANTISSA * 1_000_000 && steps > 1
        invariant
            1 <= steps <= 524_288,
            total < 0x2_0000_0000_0000_0000,
            total * steps < 0x2_0000_0000_0000_0000 * 524_288,
            steps_per_second(total as nat, 524_288) == steps_per_second(
                total as nat,
                steps as nat,
            ),
        decreases steps,
    {
        steps = steps / 2;
        assert(total * steps < 0x2_0000_0000_0000_0000 * 524_288) by (nonlinear_arith)
            requires
                total < 0x2_0000_0000_0000_0000,
                steps <= 524_288,
        ;
    }
    let mantissa: u128 = rounded(total * steps, 1_000_000);
    let mut places: usize = 0;
    let mut unit: u128 = 1;
    let mut number: u128 = decimal_near(mantissa, steps, Ghost(0), unit);
    while places < 6 && !is_read_as(number, Ghost(places as nat), unit, mantissa, steps)
        invariant
            places <= 6,
            unit == power_of_ten(places as nat),
            0 < unit,
            places == 6 ==> unit == 1_000_000,
            places < 6 ==> unit <= 100_000,
            mantissa < 0x1000_0000_0000_0000_0000,
            0 < steps <= 524_288,
            number == nearest_decimal(mantissa as nat, steps as nat, places as nat),
            number * steps <= mantissa * unit + steps,
            fewest_places(mantissa as nat, steps as nat, 0) == fewest_places(
                mantissa as nat,
                steps as nat,
                places as nat,
            ),
        decreases 6 - places,
    {
        places = places + 1;
        unit = unit * 10;
        assert((places == 6 ==> unit == 1_000_000) && (places < 6 ==> unit <= 100_000)) by {
            reveal_with_fuel(power_of_ten, 7);
        }
        number = decimal_near(mantissa, steps, Ghost(places as nat), unit);
    }
    push_scaled(out, number, places, unit);
}

} // verus!

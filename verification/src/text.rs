//! Decimal text of whole numbers and of numbers of seconds.

use vstd::prelude::*;
use vstd::string::StringExecFns;
use vstd::utf8::{encode_utf8, encode_utf8_decode_utf8};

verus! {

/// The character of one decimal digit.
pub open spec fn digit_char(digit: nat) -> char
    recommends
        digit < 10,
{
    ('0' as nat + digit) as char
}

/// A whole number in decimal, without leading zeros.
pub open spec fn decimal_text(number: nat) -> Seq<char>
    decreases number,
{
    if number < 10 {
        seq![digit_char(number)]
    } else {
        decimal_text(number / 10) + seq![digit_char(number % 10)]
    }
}

/// Ten to the power of `exponent`.
pub open spec fn power_of_ten(exponent: nat) -> nat
    decreases exponent,
{
    if exponent == 0 {
        1
    } else {
        10 * power_of_ten((exponent - 1) as nat)
    }
}

/// `part` as `width` digits behind a decimal point, without the trailing zeros.
pub open spec fn fraction_text(part: nat, width: nat) -> Seq<char>
    decreases width,
{
    if part == 0 || width == 0 {
        Seq::empty()
    } else {
        let unit = power_of_ten((width - 1) as nat);
        seq![digit_char(part / unit)] + fraction_text(part % unit, (width - 1) as nat)
    }
}

/// `number` divided by the `places`-th power of ten, in decimal: no trailing zeros,
/// and no decimal point in front of nothing.
pub open spec fn scaled_text(number: nat, places: nat) -> Seq<char> {
    let unit = power_of_ten(places);
    if number % unit == 0 {
        decimal_text(number / unit)
    } else {
        decimal_text(number / unit) + "."@ + fraction_text(number % unit, places)
    }
}

/// The text of one decimal digit.
pub fn digit_text(digit: u128) -> (text: &'static str)
    requires
        digit < 10,
    ensures
        text@ == seq![digit_char(digit as nat)],
{
    proof {
        reveal_strlit("0");
        reveal_strlit("1");
        reveal_strlit("2");
        reveal_strlit("3");
        reveal_strlit("4");
        reveal_strlit("5");
        reveal_strlit("6");
        reveal_strlit("7");
        reveal_strlit("8");
        reveal_strlit("9");
    }
    let text = if digit == 0 {
        "0"
    } else if digit == 1 {
        "1"
    } else if digit == 2 {
        "2"
    } else if digit == 3 {
        "3"
    } else if digit == 4 {
        "4"
    } else if digit == 5 {
        "5"
    } else if digit == 6 {
        "6"
    } else if digit == 7 {
        "7"
    } else if digit == 8 {
        "8"
    } else {
        "9"
    };
    assert(text@ =~= seq![digit_char(digit as nat)]);
    text
}

/// Appends a whole number in decimal.
pub fn push_decimal(out: &mut String, number: u128)
    ensures
        final(out)@ == old(out)@ + decimal_text(number as nat),
    decreases number,
{
    if number >= 10 {
        push_decimal(out, number / 10);
        out.append(digit_text(number % 10));
        assert(out@ =~= old(out)@ + decimal_text(number as nat));
    } else {
        out.append(digit_text(number));
    }
}

/// Appends `part` as digits behind a decimal point, without the trailing zeros.
fn push_fraction(out: &mut String, part: u128, width: usize, unit: u128)
    requires
        width <= 6,
        unit == power_of_ten(width as nat),
        part < unit,
    ensures
        final(out)@ == old(out)@ + fraction_text(part as nat, width as nat),
    decreases width,
{
    if part == 0 || width == 0 {
        assert(out@ =~= old(out)@ + fraction_text(part as nat, width as nat));
        return;
    }
    let next: u128 = unit / 10;
    assert(unit == 10 * next && next == power_of_ten((width - 1) as nat) && next > 0) by {
        lemma_power_of_ten_positive((width - 1) as nat);
    }
    assert(part / next < 10 && part % next < next) by (nonlinear_arith)
        requires
            part < 10 * next,
            next > 0,
    ;
    out.append(digit_text(part / next));
    push_fraction(out, part % next, width - 1, next);
    assert(out@ =~= old(out)@ + fraction_text(part as nat, width as nat));
}

proof fn lemma_power_of_ten_positive(exponent: nat)
    ensures
        power_of_ten(exponent) > 0,
    decreases exponent,
{
    if exponent > 0 {
        lemma_power_of_ten_positive((exponent - 1) as nat);
    }
}

/// Appends `number` divided by the `places`-th power of ten, `unit`.
pub fn push_scaled(out: &mut String, number: u128, places: usize, unit: u128)
    requires
        places <= 6,
        unit == power_of_ten(places as nat),
    ensures
        final(out)@ == old(out)@ + scaled_text(number as nat, places as nat),
{
    proof {
        lemma_power_of_ten_positive(places as nat);
    }
    assert(number % unit < unit) by (nonlinear_arith)
        requires
            unit > 0,
    ;
    push_decimal(out, number / unit);
    if number % unit != 0 {
        out.append(".");
        push_fraction(out, number % unit, places, unit);
        assert(out@ =~= old(out)@ + scaled_text(number as nat, places as nat));
    }
}

/// Whether two texts are the same.
pub fn same_text(left: &str, right: &str) -> (same: bool)
    ensures
        same == (left@ == right@),
{
    let left_bytes = left.as_bytes();
    let right_bytes = right.as_bytes();
    proof {
        encode_utf8_decode_utf8(left@);
        encode_utf8_decode_utf8(right@);
    }
    if left_bytes.len() != right_bytes.len() {
        return false;
    }
    let mut index: usize = 0;
    while index < left_bytes.len()
        invariant
            index <= left_bytes.len(),
            left_bytes@.len() == right_bytes@.len(),
            left_bytes@ == encode_utf8(left@),
            right_bytes@ == encode_utf8(right@),
            forall|i: int| 0 <= i < index ==> left_bytes@[i] == right_bytes@[i],
        decreases left_bytes.len() - index,
    {
        if left_bytes[index] != right_bytes[index] {
            return false;
        }
        index = index + 1;
    }
    assert(left_bytes@ =~= right_bytes@);
    true
}

/// The characters of a text.
pub fn chars_of(text: &str) -> (chars: Vec<char>)
    ensures
        chars@ == text@,
{
    let mut chars: Vec<char> = Vec::new();
    for c in source: text.chars()
        invariant
            source.seq() == text@,
            chars@ == source.seq().take(source.index()),
    {
        chars.push(c);
        assert(chars@ =~= source.seq().take(source.index() + 1));
    }
    assert(text@.take(text@.len() as int) =~= text@);
    chars
}

} // verus!

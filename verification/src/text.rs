//! Decimal text for the simulation's fixed-point quantities: a sign where the
//! value is negative, the whole part, a point, and the fraction without its
//! trailing zeros (but never without a digit).
use vstd::prelude::*;
use vstd::string::StringExecFns;

verus! {

/// Fraction digits of a length in femtometres, written in metres.
pub const METRE_PLACES: u8 = 15;

/// Fraction digits of a speed in micrometres per second, written in metres per
/// second.
pub const SPEED_PLACES: u8 = 6;

/// Ten to the power `places`.
pub open spec fn power_of_ten(places: nat) -> nat
    decreases places,
{
    if places == 0 {
        1
    } else {
        10 * power_of_ten((places - 1) as nat)
    }
}

/// A power of ten is at least one.
pub proof fn power_of_ten_is_positive(places: nat)
    ensures
        power_of_ten(places) >= 1,
    decreases places,
{
    if places > 0 {
        power_of_ten_is_positive((places - 1) as nat);
    }
}

/// The character that stands for the digit `digit % 10`.
pub open spec fn digit_char(digit: nat) -> char {
    let d = digit % 10;
    if d == 0 {
        '0'
    } else if d == 1 {
        '1'
    } else if d == 2 {
        '2'
    } else if d == 3 {
        '3'
    } else if d == 4 {
        '4'
    } else if d == 5 {
        '5'
    } else if d == 6 {
        '6'
    } else if d == 7 {
        '7'
    } else if d == 8 {
        '8'
    } else {
        '9'
    }
}

/// The digits of `n`, most significant first, without leading zeros; a single
/// `0` for zero.
pub open spec fn natural_text(n: nat) -> Seq<char>
    decreases n,
{
    if n < 10 {
        seq![digit_char(n)]
    } else {
        natural_text(n / 10).push(digit_char(n))
    }
}

/// The last `places` digits of `n`, most significant first, leading zeros
/// kept.
pub open spec fn padded_text(n: nat, places: nat) -> Seq<char>
    decreases places,
{
    if places == 0 {
        Seq::empty()
    } else {
        padded_text(n / 10, (places - 1) as nat).push(digit_char(n))
    }
}

/// The last `places` digits of `n` as a fraction: trailing zeros dropped, down
/// to one digit at least.
pub open spec fn fraction_text(n: nat, places: nat) -> Seq<char>
    decreases places,
{
    if places <= 1 {
        seq![digit_char(n)]
    } else if n % 10 == 0 {
        fraction_text(n / 10, (places - 1) as nat)
    } else {
        padded_text(n, places)
    }
}

/// The sign that precedes a rendered `value`: a minus for a negative one,
/// nothing otherwise.
pub open spec fn sign_text(value: int) -> Seq<char> {
    if value < 0 {
        seq!['-']
    } else {
        Seq::empty()
    }
}

/// The size of `value` without its sign.
pub open spec fn magnitude(value: int) -> nat {
    if value < 0 {
        (-value) as nat
    } else {
        value as nat
    }
}

/// `value` counted in units of ten to the minus `places`, as decimal text.
pub open spec fn decimal_text(value: int, places: nat) -> Seq<char> {
    let size = magnitude(value);
    let unit = power_of_ten(places);
    sign_text(value) + natural_text(size / unit) + seq!['.'] + fraction_text(size % unit, places)
}

/// Three texts in a row, separated by a comma and a space.
pub open spec fn triple_text(x: Seq<char>, y: Seq<char>, z: Seq<char>) -> Seq<char> {
    x + ", "@ + y + ", "@ + z
}

/// Appends the digit `digit` to `text`.
fn push_digit(text: &mut String, digit: u8)
    requires
        digit < 10,
    ensures
        final(text)@ == old(text)@.push(digit_char(digit as nat)),
{
    proof {
        reveal_strlit("0");
        reveal_strlit("1");
        reveal_strlit("2");
        reveal_strlit("3");
        reveal_strlit("4");
        reveal_strlit("5");
        reveal_strlit("6");
        reveal_strlit("7");
        reveal_strlit("8");
        reveal_strlit("9");
    }
    let glyph = match digit {
        0 => "0",
        1 => "1",
        2 => "2",
        3 => "3",
        4 => "4",
        5 => "5",
        6 => "6",
        7 => "7",
        8 => "8",
        _ => "9",
    };
    assert(glyph@ =~= seq![digit_char(digit as nat)]);
    text.append(glyph);
    assert(text@ =~= old(text)@.push(digit_char(digit as nat)));
}

/// Appends the digits of `n` to `text`.
fn push_natural(text: &mut String, n: u128)
    ensures
        final(text)@ == old(text)@ + natural_text(n as nat),
    decreases n,
{
    if n >= 10 {
        push_natural(text, n / 10);
    }
    push_digit(text, (n % 10) as u8);
    assert(text@ =~= old(text)@ + natural_text(n as nat));
}

/// Appends the last `places` digits of `n` to `text`.
fn push_padded(text: &mut String, n: u128, places: u8)
    ensures
        final(text)@ == old(text)@ + padded_text(n as nat, places as nat),
    decreases places,
{
    if places > 0 {
        push_padded(text, n / 10, places - 1);
        push_digit(text, (n % 10) as u8);
    }
    assert(text@ =~= old(text)@ + padded_text(n as nat, places as nat));
}

/// Appends the last `places` digits of `n` to `text`, as a fraction.
fn push_fraction(text: &mut String, n: u128, places: u8)
    ensures
        final(text)@ == old(text)@ + fraction_text(n as nat, places as nat),
    decreases places,
{
    if places <= 1 {
        push_digit(text, (n % 10) as u8);
        assert(text@ =~= old(text)@ + fraction_text(n as nat, places as nat));
    } else if n % 10 == 0 {
        push_fraction(text, n / 10, places - 1);
    } else {
        push_padded(text, n, places);
    }
}

/// Renders `value`, counted in units of one over `unit`, where `unit` is ten
/// to the power `places`.
fn decimal(value: i128, places: u8, unit: u128) -> (text: String)
    requires
        unit == power_of_ten(places as nat),
    ensures
        text@ == decimal_text(value as int, places as nat),
{
    let mut text = String::new();
    let size: u128 = if value < 0 {
        proof {
            reveal_strlit("-");
        }
        text.append("-");
        ((-(value + 1)) as u128) + 1
    } else {
        value as u128
    };
    assert(text@ =~= sign_text(value as int));
    assert(size == magnitude(value as int));
    proof {
        power_of_ten_is_positive(places as nat);
    }
    push_natural(&mut text, size / unit);
    proof {
        reveal_strlit(".");
    }
    text.append(".");
    push_fraction(&mut text, size % unit, places);
    assert(text@ =~= decimal_text(value as int, places as nat));
    text
}

/// A length of `femtometres`, written in metres.
pub fn metres(femtometres: i128) -> (text: String)
    ensures
        text@ == decimal_text(femtometres as int, METRE_PLACES as nat),
{
    proof {
        reveal_with_fuel(power_of_ten, 16);
    }
    decimal(femtometres, METRE_PLACES, 1_000_000_000_000_000)
}

/// A speed of `micrometres` per second, written in metres per second.
pub fn metres_per_second(micrometres: i64) -> (text: String)
    ensures
        text@ == decimal_text(micrometres as int, SPEED_PLACES as nat),
{
    proof {
        reveal_with_fuel(power_of_ten, 7);
    }
    decimal(micrometres as i128, SPEED_PLACES, 1_000_000)
}

/// Joins three texts with a comma and a space between them.
pub fn triple(x: String, y: &str, z: &str) -> (text: String)
    ensures
        text@ == triple_text(x@, y@, z@),
{
    let mut text = x;
    text.append(", ");
    text.append(y);
    text.append(", ");
    text.append(z);
    text
}

} // verus!

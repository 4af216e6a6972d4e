//! Reading rendered numbers back: what the digits of a text denote, and the
//! proofs that rendering loses nothing.
use vstd::prelude::*;
use vstd::arithmetic::div_mod::{lemma_breakdown, lemma_fundamental_div_mod};
use crate::body::{line_text, BodyView};
use crate::motion::{position_text, velocity_text, Position, Velocity};
use crate::text::{
    decimal_text, fraction_text, magnitude, natural_text, padded_text, power_of_ten,
    power_of_ten_is_positive, sign_text, triple_text, METRE_PLACES, SPEED_PLACES,
};
use crate::world::log_lines;

verus! {

/// Whether `c` is one of the ten decimal digits.
pub open spec fn is_digit(c: char) -> bool {
    c == '0' || c == '1' || c == '2' || c == '3' || c == '4' || c == '5' || c == '6' || c == '7'
        || c == '8' || c == '9'
}

/// The number that the digit `c` stands for; zero for any other character.
pub open spec fn digit_value(c: char) -> nat {
    if c == '1' {
        1
    } else if c == '2' {
        2
    } else if c == '3' {
        3
    } else if c == '4' {
        4
    } else if c == '5' {
        5
    } else if c == '6' {
        6
    } else if c == '7' {
        7
    } else if c == '8' {
        8
    } else if c == '9' {
        9
    } else {
        0
    }
}

/// Whether `text` holds decimal digits and nothing else.
pub open spec fn all_digits(text: Seq<char>) -> bool {
    forall|i: int| 0 <= i < text.len() ==> is_digit(#[trigger] text[i])
}

/// The number that a run of digits denotes, most significant digit first.
pub open spec fn digits_value(text: Seq<char>) -> nat
    decreases text.len(),
{
    if text.len() == 0 {
        0
    } else {
        10 * digits_value(text.drop_last()) + digit_value(text.last())
    }
}

/// The digits of a number are digits, and denote the number.
pub proof fn natural_text_reads_back(n: nat)
    ensures
        natural_text(n).len() >= 1,
        all_digits(natural_text(n)),
        digits_value(natural_text(n)) == n,
    decreases n,
{
    if n < 10 {
        assert(natural_text(n).drop_last() =~= Seq::<char>::empty());
        assert(digits_value(natural_text(n).drop_last()) == 0);
    } else {
        natural_text_reads_back(n / 10);
        assert(natural_text(n).drop_last() =~= natural_text(n / 10));
    }
}

/// Zero-padded digits are as many as asked for, and denote the number up to
/// that many places.
pub proof fn padded_text_reads_back(n: nat, places: nat)
    ensures
        padded_text(n, places).len() == places,
        all_digits(padded_text(n, places)),
        digits_value(padded_text(n, places)) == n % power_of_ten(places),
    decreases places,
{
    if places > 0 {
        let rest = (places - 1) as nat;
        padded_text_reads_back(n / 10, rest);
        power_of_ten_is_positive(rest);
        assert(padded_text(n, places).drop_last() =~= padded_text(n / 10, rest));
        lemma_breakdown(n as int, 10, power_of_ten(rest) as int);
    }
}

/// The digits of a fraction are between one and `places` many, and denote the
/// fraction once the dropped zeros are counted back in.
pub proof fn fraction_text_reads_back(n: nat, places: nat)
    requires
        places >= 1,
    ensures
        1 <= fraction_text(n, places).len() <= places,
        all_digits(fraction_text(n, places)),
        digits_value(fraction_text(n, places)) * power_of_ten(
            (places - fraction_text(n, places).len()) as nat,
        ) == n % power_of_ten(places),
    decreases places,
{
    let text = fraction_text(n, places);
    if places <= 1 {
        assert(text.drop_last() =~= Seq::<char>::empty());
        assert(digits_value(text.drop_last()) == 0);
        assert(power_of_ten(1) == 10) by {
            reveal_with_fuel(power_of_ten, 2);
        }
        assert(digits_value(text) * 1 == n % 10);
    } else if n % 10 == 0 {
        let rest = (places - 1) as nat;
        fraction_text_reads_back(n / 10, rest);
        power_of_ten_is_positive(rest);
        lemma_breakdown(n as int, 10, power_of_ten(rest) as int);
        let dropped = (rest - text.len()) as nat;
        let v = digits_value(text);
        assert(power_of_ten((places - text.len()) as nat) == 10 * power_of_ten(dropped));
        assert(v * (10 * power_of_ten(dropped)) == 10 * (v * power_of_ten(dropped)))
            by (nonlinear_arith);
    } else {
        padded_text_reads_back(n, places);
        assert(digits_value(text) * 1 == digits_value(text));
    }
}

/// A rendered number is its sign, the digits of its whole part, a point and
/// the digits of its fraction, and the two runs of digits denote its size.
pub proof fn decimal_text_is_faithful(value: int, places: nat)
    requires
        places >= 1,
    ensures
        ({
            let unit = power_of_ten(places);
            let whole = natural_text(magnitude(value) / unit);
            let fraction = fraction_text(magnitude(value) % unit, places);
            &&& decimal_text(value, places) == sign_text(value) + whole + seq!['.'] + fraction
            &&& all_digits(whole)
            &&& all_digits(fraction)
            &&& 1 <= whole.len()
            &&& 1 <= fraction.len() <= places
            &&& digits_value(whole) * unit + digits_value(fraction) * power_of_ten(
                (places - fraction.len()) as nat,
            ) == magnitude(value)
        }),
{
    let unit = power_of_ten(places);
    let size = magnitude(value);
    power_of_ten_is_positive(places);
    natural_text_reads_back(size / unit);
    fraction_text_reads_back(size % unit, places);
    lemma_fundamental_div_mod(size as int, unit as int);
    assert((size % unit) % unit == size % unit) by (nonlinear_arith)
        requires
            unit > 0,
    ;
    assert((size / unit) * unit == unit * (size / unit)) by (nonlinear_arith);
}

/// Whether `c` can occur in a rendered number: a digit, the minus or the
/// point.
pub open spec fn is_number_char(c: char) -> bool {
    is_digit(c) || c == '-' || c == '.'
}

/// Whether `mark` occurs nowhere in `text`.
pub open spec fn lacks(text: Seq<char>, mark: char) -> bool {
    forall|i: int| 0 <= i < text.len() ==> #[trigger] text[i] != mark
}

/// A rendered number holds digits, the minus and the point only.
pub proof fn decimal_text_is_plain(value: int, places: nat)
    requires
        places >= 1,
    ensures
        forall|i: int|
            0 <= i < decimal_text(value, places).len() ==> is_number_char(
                #[trigger] decimal_text(value, places)[i],
            ),
{
    decimal_text_is_faithful(value, places);
}

/// A text can be cut at the first occurrence of a character in one way only:
/// two cuts with the mark in neither head are the same cut.
pub proof fn first_cut_is_unique(
    head_a: Seq<char>,
    tail_a: Seq<char>,
    head_b: Seq<char>,
    tail_b: Seq<char>,
    mark: char,
)
    requires
        lacks(head_a, mark),
        lacks(head_b, mark),
        head_a + seq![mark] + tail_a == head_b + seq![mark] + tail_b,
    ensures
        head_a == head_b,
        tail_a == tail_b,
{
    let text_a = head_a + seq![mark] + tail_a;
    let text_b = head_b + seq![mark] + tail_b;
    if head_a.len() < head_b.len() {
        assert(text_a[head_a.len() as int] == mark);
        assert(text_b[head_a.len() as int] == head_b[head_a.len() as int]);
    }
    if head_b.len() < head_a.len() {
        assert(text_b[head_b.len() as int] == mark);
        assert(text_a[head_b.len() as int] == head_a[head_b.len() as int]);
    }
    assert(head_a.len() == head_b.len());
    assert(text_a.len() == text_b.len());
    assert forall|i: int| 0 <= i < head_a.len() implies head_a[i] == head_b[i] by {
        assert(text_a[i] == head_a[i]);
        assert(text_b[i] == head_b[i]);
    }
    assert(head_a =~= head_b);
    assert forall|i: int| 0 <= i < tail_a.len() implies tail_a[i] == tail_b[i] by {
        assert(text_a[head_a.len() + 1 + i] == tail_a[i]);
        assert(text_b[head_a.len() + 1 + i] == tail_b[i]);
    }
    assert(tail_a =~= tail_b);
}

/// What stands behind one and the same beginning is the same where the whole
/// is.
pub proof fn same_start_same_rest(start: Seq<char>, rest_a: Seq<char>, rest_b: Seq<char>)
    requires
        start + rest_a == start + rest_b,
    ensures
        rest_a == rest_b,
{
    assert((start + rest_a).len() == start.len() + rest_a.len());
    assert((start + rest_b).len() == start.len() + rest_b.len());
    assert forall|i: int| 0 <= i < rest_a.len() implies rest_a[i] == rest_b[i] by {
        assert((start + rest_a)[start.len() + i] == rest_a[i]);
        assert((start + rest_b)[start.len() + i] == rest_b[i]);
    }
    assert(rest_a =~= rest_b);
}

/// What stands before one and the same ending is the same where the whole is.
pub proof fn same_end_same_start(start_a: Seq<char>, start_b: Seq<char>, end: Seq<char>)
    requires
        start_a + end == start_b + end,
    ensures
        start_a == start_b,
{
    assert((start_a + end).len() == start_a.len() + end.len());
    assert((start_b + end).len() == start_b.len() + end.len());
    assert forall|i: int| 0 <= i < start_a.len() implies start_a[i] == start_b[i] by {
        assert((start_a + end)[i] == start_a[i]);
        assert((start_b + end)[i] == start_b[i]);
    }
    assert(start_a =~= start_b);
}

/// Two numbers with the same text, at the same number of places, are the same
/// number.
pub proof fn decimal_text_is_injective(a: int, b: int, places: nat)
    requires
        places >= 1,
        decimal_text(a, places) == decimal_text(b, places),
    ensures
        a == b,
{
    let unit = power_of_ten(places);
    let whole_a = natural_text(magnitude(a) / unit);
    let whole_b = natural_text(magnitude(b) / unit);
    let fraction_a = fraction_text(magnitude(a) % unit, places);
    let fraction_b = fraction_text(magnitude(b) % unit, places);
    decimal_text_is_faithful(a, places);
    decimal_text_is_faithful(b, places);
    let text_a = decimal_text(a, places);
    let text_b = decimal_text(b, places);
    assert(a < 0 <==> text_a[0] == '-') by {
        if a < 0 {
            assert(text_a[0] == sign_text(a)[0]);
        } else {
            assert(sign_text(a) =~= Seq::<char>::empty());
            assert(text_a[0] == whole_a[0]);
            assert(is_digit(whole_a[0]));
        }
    }
    assert(b < 0 <==> text_b[0] == '-') by {
        if b < 0 {
            assert(text_b[0] == sign_text(b)[0]);
        } else {
            assert(sign_text(b) =~= Seq::<char>::empty());
            assert(text_b[0] == whole_b[0]);
            assert(is_digit(whole_b[0]));
        }
    }
    assert(sign_text(a) == sign_text(b));
    let body_a = whole_a + seq!['.'] + fraction_a;
    let body_b = whole_b + seq!['.'] + fraction_b;
    assert(text_a =~= sign_text(a) + body_a);
    assert(text_b =~= sign_text(a) + body_b);
    same_start_same_rest(sign_text(a), body_a, body_b);
    first_cut_is_unique(whole_a, fraction_a, whole_b, fraction_b, '.');
}

/// Three texts without a comma can be told apart in their joined text.
pub proof fn triple_text_is_injective(
    x_a: Seq<char>,
    y_a: Seq<char>,
    z_a: Seq<char>,
    x_b: Seq<char>,
    y_b: Seq<char>,
    z_b: Seq<char>,
)
    requires
        lacks(x_a, ','),
        lacks(y_a, ','),
        lacks(x_b, ','),
        lacks(y_b, ','),
        triple_text(x_a, y_a, z_a) == triple_text(x_b, y_b, z_b),
    ensures
        x_a == x_b,
        y_a == y_b,
        z_a == z_b,
{
    reveal_strlit(", ");
    let gap = seq![' '];
    assert(", "@ =~= seq![','] + gap);
    let rest_a = (gap + y_a) + seq![','] + (gap + z_a);
    let rest_b = (gap + y_b) + seq![','] + (gap + z_b);
    assert(triple_text(x_a, y_a, z_a) =~= x_a + seq![','] + rest_a);
    assert(triple_text(x_b, y_b, z_b) =~= x_b + seq![','] + rest_b);
    first_cut_is_unique(x_a, rest_a, x_b, rest_b, ',');
    first_cut_is_unique(gap + y_a, gap + z_a, gap + y_b, gap + z_b, ',');
    same_start_same_rest(gap, y_a, y_b);
    same_start_same_rest(gap, z_a, z_b);
}

/// Two positions with the same text are the same position.
pub proof fn position_text_is_injective(a: Position, b: Position)
    requires
        position_text(a) == position_text(b),
    ensures
        a == b,
{
    let places = METRE_PLACES as nat;
    decimal_text_is_plain(a.x as int, places);
    decimal_text_is_plain(a.y as int, places);
    decimal_text_is_plain(b.x as int, places);
    decimal_text_is_plain(b.y as int, places);
    triple_text_is_injective(
        decimal_text(a.x as int, places),
        decimal_text(a.y as int, places),
        decimal_text(a.z as int, places),
        decimal_text(b.x as int, places),
        decimal_text(b.y as int, places),
        decimal_text(b.z as int, places),
    );
    decimal_text_is_injective(a.x as int, b.x as int, places);
    decimal_text_is_injective(a.y as int, b.y as int, places);
    decimal_text_is_injective(a.z as int, b.z as int, places);
}

/// Two velocities with the same text are the same velocity.
pub proof fn velocity_text_is_injective(a: Velocity, b: Velocity)
    requires
        velocity_text(a) == velocity_text(b),
    ensures
        a == b,
{
    let places = SPEED_PLACES as nat;
    decimal_text_is_plain(a.x as int, places);
    decimal_text_is_plain(a.y as int, places);
    decimal_text_is_plain(b.x as int, places);
    decimal_text_is_plain(b.y as int, places);
    triple_text_is_injective(
        decimal_text(a.x as int, places),
        decimal_text(a.y as int, places),
        decimal_text(a.z as int, places),
        decimal_text(b.x as int, places),
        decimal_text(b.y as int, places),
        decimal_text(b.z as int, places),
    );
    decimal_text_is_injective(a.x as int, b.x as int, places);
    decimal_text_is_injective(a.y as int, b.y as int, places);
    decimal_text_is_injective(a.z as int, b.z as int, places);
}

/// The text of a position holds no closing bracket.
pub proof fn position_text_has_no_bracket(point: Position)
    ensures
        lacks(position_text(point), ')'),
{
    let places = METRE_PLACES as nat;
    reveal_strlit(", ");
    decimal_text_is_plain(point.x as int, places);
    decimal_text_is_plain(point.y as int, places);
    decimal_text_is_plain(point.z as int, places);
}

/// The lines of two bodies of one name are the same only where the bodies
/// are: a line tells where its body is and how fast it moves.
pub proof fn line_text_tells_the_state(a: BodyView, b: BodyView)
    requires
        a.name == b.name,
        line_text(a) == line_text(b),
    ensures
        a == b,
{
    reveal_strlit(") velocity(");
    let middle = ") velocity("@;
    let after = middle.subrange(1, middle.len() as int);
    assert(middle =~= seq![')'] + after);
    let start = "Player "@ + a.name + " pos("@;
    let rest_a = position_text(a.position) + seq![')'] + (after + velocity_text(a.velocity) + ")"@);
    let rest_b = position_text(b.position) + seq![')'] + (after + velocity_text(b.velocity) + ")"@);
    assert(line_text(a) =~= start + rest_a);
    assert(line_text(b) =~= start + rest_b);
    same_start_same_rest(start, rest_a, rest_b);
    position_text_has_no_bracket(a.position);
    position_text_has_no_bracket(b.position);
    first_cut_is_unique(
        position_text(a.position),
        after + velocity_text(a.velocity) + ")"@,
        position_text(b.position),
        after + velocity_text(b.velocity) + ")"@,
        ')',
    );
    position_text_is_injective(a.position, b.position);
    assert(after + velocity_text(a.velocity) + ")"@ =~= after + (velocity_text(a.velocity) + ")"@));
    assert(after + velocity_text(b.velocity) + ")"@ =~= after + (velocity_text(b.velocity) + ")"@));
    same_start_same_rest(after, velocity_text(a.velocity) + ")"@, velocity_text(b.velocity) + ")"@);
    same_end_same_start(velocity_text(a.velocity), velocity_text(b.velocity), ")"@);
    velocity_text_is_injective(a.velocity, b.velocity);
}

/// Two worlds of the same names have the same report only where they are the
/// same world.
pub proof fn report_tells_the_state(a: Seq<BodyView>, b: Seq<BodyView>)
    requires
        a.len() == b.len(),
        forall|i: int| 0 <= i < a.len() ==> a[i].name == b[i].name,
        log_lines(a) == log_lines(b),
    ensures
        a == b,
{
    assert forall|i: int| 0 <= i < a.len() implies a[i] == b[i] by {
        assert(log_lines(a)[i] == line_text(a[i]));
        assert(log_lines(b)[i] == line_text(b[i]));
        line_text_tells_the_state(a[i], b[i]);
    }
    assert(a =~= b);
}

} // verus!

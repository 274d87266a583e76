use vstd::prelude::*;
use vstd::string::*;
use crate::utils::enums::Direction;
use crate::utils::geometry::Position;

verus! {

/// The character of the decimal digit `d`.
pub open spec fn digit_char(d: int) -> char {
    if d == 0 {
        '0'
    } else if d == 1 {
        '1'
    } else if d == 2 {
        '2'
    } else if d == 3 {
        '3'
    } else if d == 4 {
        '4'
    } else if d == 5 {
        '5'
    } else if d == 6 {
        '6'
    } else if d == 7 {
        '7'
    } else if d == 8 {
        '8'
    } else {
        '9'
    }
}

/// The decimal numeral of `n`, without leading zeros.
pub open spec fn decimal(n: nat) -> Seq<char>
    decreases n,
{
    if n < 10 {
        seq![digit_char(n as int)]
    } else {
        decimal(n / 10).push(digit_char((n % 10) as int))
    }
}

/// The decimal numeral of `n`, padded with a zero to two digits.
pub open spec fn two_digits(n: nat) -> Seq<char> {
    if n < 10 {
        seq!['0', digit_char(n as int)]
    } else {
        decimal(n)
    }
}

/// `seconds` as minutes and seconds, both of at least two digits, with a
/// colon between them.
pub open spec fn clock_text(seconds: nat) -> Seq<char> {
    two_digits(seconds / 60) + seq![':'] + two_digits(seconds % 60)
}

fn digit_str(d: u64) -> (s: &'static str)
    requires
        d < 10,
    ensures
        s@ == seq![digit_char(d as int)],
{
    proof {
        reveal_strlit("0");
        reveal_strlit("1");
        reveal_strlit("2");
        reveal_strlit("3");
        reveal_strlit("4");
        reveal_strlit("5");
        reveal_strlit("6");
        reveal_strlit("7");
        reveal_strlit("8");
        reveal_strlit("9");
    }
    let s: &'static str = if d == 0 {
        "0"
    } else if d == 1 {
        "1"
    } else if d == 2 {
        "2"
    } else if d == 3 {
        "3"
    } else if d == 4 {
        "4"
    } else if d == 5 {
        "5"
    } else if d == 6 {
        "6"
    } else if d == 7 {
        "7"
    } else if d == 8 {
        "8"
    } else {
        "9"
    };
    assert(s@ =~= seq![digit_char(d as int)]);
    s
}

fn append_decimal(text: &mut String, n: u64)
    ensures
        final(text)@ == old(text)@ + decimal(n as nat),
    decreases n,
{
    if n >= 10 {
        append_decimal(text, n / 10);
    }
    text.append(digit_str(n % 10));
    assert(text@ =~= old(text)@ + decimal(n as nat));
}

fn append_two_digits(text: &mut String, n: u64)
    ensures
        final(text)@ == old(text)@ + two_digits(n as nat),
{
    if n < 10 {
        text.append(digit_str(0));
    }
    append_decimal(text, n);
    assert(text@ =~= old(text)@ + two_digits(n as nat));
}

/// Converts seconds to a string in the format "MM:SS".
pub fn convert_seconds_to_string(seconds: &u64) -> (text: String)
    ensures
        text@ == clock_text(*seconds as nat),
{
    let minutes: u64 = *seconds / 60;
    let remaining_seconds: u64 = *seconds % 60;
    let mut text = String::new();
    append_two_digits(&mut text, minutes);
    proof {
        reveal_strlit(":");
    }
    text.append(":");
    append_two_digits(&mut text, remaining_seconds);
    assert(text@ =~= clock_text(*seconds as nat));
    text
}

/// The vector from the second segment of a snake to its head.
pub open spec fn head_vector(snake: Seq<Position>) -> (int, int) {
    (snake[0].x - snake[1].x, snake[0].y - snake[1].y)
}

/// The vector from the second segment of a snake to its head is made of
/// numbers of the machine.
pub open spec fn vector_fits(snake: Seq<Position>) -> bool {
    &&& i64::MIN <= head_vector(snake).0 <= i64::MAX
    &&& i64::MIN <= head_vector(snake).1 <= i64::MAX
}

/// The heading that a vector points along: sideways if its horizontal part
/// is the longer one, else up or down; a vector without a vertical part
/// that is not sideways points up.
pub open spec fn heading_of(vector: (int, int)) -> Direction {
    let ax = if vector.0 < 0 {
        -vector.0
    } else {
        vector.0
    };
    let ay = if vector.1 < 0 {
        -vector.1
    } else {
        vector.1
    };
    if ax > ay {
        if vector.0 > 0 {
            Direction::Right
        } else {
            Direction::Left
        }
    } else {
        if vector.1 < 0 {
            Direction::Down
        } else {
            Direction::Up
        }
    }
}

pub fn get_directionvector_from_snake(snake: &Vec<Position>) -> (vector: (i64, i64))
    requires
        snake@.len() >= 2,
        vector_fits(snake@),
    ensures
        vector.0 == head_vector(snake@).0,
        vector.1 == head_vector(snake@).1,
{
    (snake[0].x - snake[1].x, snake[0].y - snake[1].y)
}

pub fn get_direction_from_vector(vector: &(i64, i64)) -> (direction: Direction)
    ensures
        direction == heading_of((vector.0 as int, vector.1 as int)),
{
    let ax: i128 = if vector.0 < 0 {
        -(vector.0 as i128)
    } else {
        vector.0 as i128
    };
    let ay: i128 = if vector.1 < 0 {
        -(vector.1 as i128)
    } else {
        vector.1 as i128
    };
    if ax > ay {
        if vector.0 > 0 {
            Direction::Right
        } else {
            Direction::Left
        }
    } else {
        if vector.1 < 0 {
            Direction::Down
        } else {
            Direction::Up
        }
    }
}

} // verus!

//! Reading a point of the plane from a line that holds its two coordinates.
use vstd::prelude::*;
use crate::numbers::{decimal_text, is_i32_text, signed_value, parse_i32, render_i32};
use crate::tokens::{tokens, first_line, first_line_tokens};
use crate::control::{is_bare_line_feed, next, state_after, Event, LoopControl};
use crate::validation::ValidationError;

verus! {

/// A point of the plane with integer coordinates.
#[derive(Clone, Copy, Debug, PartialEq, Eq, Structural)]
pub struct Point {
    pub x: i32,
    pub y: i32,
}

/// Whether every token writes a signed 32-bit integer.
pub open spec fn all_readable(t: Seq<Seq<char>>) -> bool {
    forall|j: int| 0 <= j < t.len() ==> is_i32_text(#[trigger] t[j])
}

/// Whether token `k` is the first that does not write a signed 32-bit
/// integer.
pub open spec fn first_unreadable(t: Seq<Seq<char>>, k: int) -> bool {
    &&& 0 <= k < t.len()
    &&& !is_i32_text(t[k])
    &&& forall|j: int| 0 <= j < k ==> is_i32_text(#[trigger] t[j])
}

/// What validating the tokens `t` as a pair of coordinates must give: a
/// token that is no integer is reported before the number of tokens is
/// looked at.
pub open spec fn validated(t: Seq<Seq<char>>, r: Result<(i32, i32), ValidationError>) -> bool {
    match r {
        Ok((x, y)) => {
            &&& all_readable(t)
            &&& t.len() == 2
            &&& x == signed_value(t[0])
            &&& y == signed_value(t[1])
        },
        Err(ValidationError::NoInput) => all_readable(t) && t.len() == 0,
        Err(ValidationError::TooFewInputs) => all_readable(t) && t.len() == 1,
        Err(ValidationError::TooManyInputs) => all_readable(t) && t.len() > 2,
        Err(ValidationError::ParseFailure { token, cause }) => exists|k: int|
            #[trigger] first_unreadable(t, k) && token@ == t[k],
        Err(ValidationError::OutOfRange) => false,
    }
}

/// Reads the two coordinates that the first line of `input` holds.
pub fn validate(input: &str) -> (r: Result<(i32, i32), ValidationError>)
    ensures
        validated(tokens(first_line(input@)), r),
{
    let words = first_line_tokens(input);
    let ghost t = tokens(first_line(input@));
    let mut numbers: Vec<i32> = Vec::new();
    let mut i: usize = 0;
    while i < words.len()
        invariant
            i <= words.len(),
            words.deep_view() == t,
            t == tokens(first_line(input@)),
            numbers@.len() == i,
            forall|j: int| 0 <= j < i ==> is_i32_text(#[trigger] t[j]),
            forall|j: int| 0 <= j < i ==> numbers@[j] == signed_value(#[trigger] t[j]),
        decreases words.len() - i,
    {
        assert(words[i as int]@ == t[i as int]);
        match parse_i32(words[i].as_str()) {
            Ok(value) => {
                numbers.push(value);
            },
            Err(cause) => {
                let token = words[i].clone();
                assert(first_unreadable(t, i as int) && token@ == t[i as int]);
                return Err(ValidationError::ParseFailure { token, cause });
            },
        }
        i = i + 1;
    }
    let total: usize = numbers.len();
    if total == 0 {
        Err(ValidationError::NoInput)
    } else if total < 2 {
        Err(ValidationError::TooFewInputs)
    } else if total > 2 {
        Err(ValidationError::TooManyInputs)
    } else {
        Ok((numbers[0], numbers[1]))
    }
}

/// The point with the coordinates `x` and `y`.
pub fn create_point(x: i32, y: i32) -> (point: Box<Point>)
    ensures
        *point == (Point { x, y }),
{
    Box::new(Point { x, y })
}

/// How a point is shown: a record in braces, one coordinate to a line, each
/// name set right in a column four wide.
pub open spec fn point_text(point: Point) -> Seq<char> {
    "point {\n   x: "@ + decimal_text(point.x as int) + ",\n   y: "@ + decimal_text(
        point.y as int,
    ) + "\n}"@
}

/// The text that shows `point`.
pub fn to_string(point: &Box<Point>) -> (text: String)
    ensures
        text@ == point_text(**point),
{
    let mut text = String::from_str("point {\n   x: ");
    text.append(render_i32(point.x).as_str());
    text.append(",\n   y: ");
    text.append(render_i32(point.y).as_str());
    text.append("\n}");
    text
}

/// What a turn shows for a line with the tokens `t`: the point that they
/// write, as text, or the reason why they write none.
pub open spec fn replied(t: Seq<Seq<char>>, reply: Result<String, ValidationError>) -> bool {
    match reply {
        Ok(text) => {
            &&& all_readable(t)
            &&& t.len() == 2
            &&& text@ == point_text(
                Point { x: signed_value(t[0]) as i32, y: signed_value(t[1]) as i32 },
            )
        },
        Err(error) => validated(t, Err(error)),
    }
}

/// One turn of a session that reads points. `line` is the line that was
/// read, or `None` where reading failed. The turn ends the session where
/// reading failed or only the enter key was hit; any other line is answered
/// and the session goes on.
pub fn input_loop(line: Option<&str>) -> (turn: (
    LoopControl,
    Option<Result<String, ValidationError>>,
))
    ensures
        match line {
            None => turn.0 == state_after(Event::ReadFailure) && turn.1 is None,
            Some(text) => if text@ == seq!['\n'] {
                turn.0 == state_after(Event::Sentinel) && turn.1 is None
            } else {
                &&& turn.0 == LoopControl::Continue
                &&& turn.1 is Some
                &&& replied(tokens(first_line(text@)), turn.1.unwrap())
            },
        },
{
    let text = match line {
        Some(text) => text,
        None => {
            return (next(Event::ReadFailure), None);
        },
    };
    if is_bare_line_feed(text) {
        return (next(Event::Sentinel), None);
    }
    match validate(text) {
        Ok((x, y)) => {
            let point = create_point(x, y);
            (next(Event::Computed), Some(Ok(to_string(&point))))
        },
        Err(error) => (next(Event::Rejected), Some(Err(error))),
    }
}

} // verus!

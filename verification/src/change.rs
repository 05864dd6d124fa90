//! Accepting an amount of at most one dollar and breaking it into quarters,
//! dimes, nickels and pennies, with a proof that the greedy breakdown uses
//! the fewest coins.
//!
//! An amount in dollars is a binary32 floating-point number held as its 32
//! bits: the sign in the top bit, then eight bits of exponent and
//! twenty-three of fraction. Whether it lies between zero and one shows in
//! those bits. Turning dollars into whole cents takes arithmetic on the
//! number itself and is left to the caller.
use vstd::prelude::*;
use crate::control::{next, state_after, Event, LoopControl};
use crate::tokens::{trim, trimmed};
use crate::validation::ValidationError;

verus! {

/// The top bit of an amount: set where the number carries a minus sign.
pub const SIGN_BIT: u32 = 0x8000_0000;

/// The bits of positive infinity. A larger magnitude is no number at all.
pub const INFINITY: u32 = 0x7f80_0000;

/// The bits of one dollar.
pub const ONE: u32 = 0x3f80_0000;

/// The bits of minus one, the amount that asks for the session to end.
pub const SENTINEL: u32 = 0xbf80_0000;

/// The bits of `amount` without its sign.
pub open spec fn magnitude(amount: u32) -> u32 {
    if amount >= SIGN_BIT {
        (amount - SIGN_BIT) as u32
    } else {
        amount
    }
}

/// Whether `amount` is not a number, and so compares with nothing.
pub open spec fn is_nan(amount: u32) -> bool {
    magnitude(amount) > INFINITY
}

/// Whether `amount` compares as greater than one. Among the numbers without
/// a minus sign, the greater number has the greater bits.
pub open spec fn above_one(amount: u32) -> bool {
    !is_nan(amount) && amount < SIGN_BIT && amount > ONE
}

/// Whether `amount` compares as less than zero: any number with a minus
/// sign but the negative zero.
pub open spec fn below_zero(amount: u32) -> bool {
    !is_nan(amount) && amount >= SIGN_BIT && magnitude(amount) != 0
}

/// Whether `amount` is turned away: it is above one, or it is below zero
/// and not the sentinel. What is not a number compares with nothing and is
/// not turned away.
pub open spec fn out_of_range(amount: u32) -> bool {
    above_one(amount) || (below_zero(amount) && amount != SENTINEL)
}

/// What validating a reading must give: a failed reading is handed on as it
/// is, and a number is accepted unless it is out of range.
pub open spec fn validated(reading: Result<u32, ValidationError>) -> Result<
    u32,
    ValidationError,
> {
    match reading {
        Ok(amount) => if out_of_range(amount) {
            Err(ValidationError::OutOfRange)
        } else {
            Ok(amount)
        },
        Err(error) => Err(error),
    }
}

/// Validates what the parser made of the trimmed line.
pub fn validate(reading: Result<u32, ValidationError>) -> (r: Result<u32, ValidationError>)
    ensures
        r == validated(reading),
{
    let amount: u32 = match reading {
        Ok(amount) => amount,
        Err(error) => {
            return Err(error);
        },
    };
    let magnitude: u32 = if amount >= SIGN_BIT {
        amount - SIGN_BIT
    } else {
        amount
    };
    if magnitude > INFINITY {
        Ok(amount)
    } else if amount < SIGN_BIT {
        if amount > ONE {
            Err(ValidationError::OutOfRange)
        } else {
            Ok(amount)
        }
    } else if magnitude != 0 && amount != SENTINEL {
        Err(ValidationError::OutOfRange)
    } else {
        Ok(amount)
    }
}

/// The first half of a turn of a session that makes change. `line` is the
/// line that was read, or `None` where reading failed, which ends the
/// session. Any line is trimmed and handed back for the parser.
pub fn text_to_parse<'a>(line: Option<&'a str>) -> (turn: (LoopControl, Option<&'a str>))
    ensures
        match line {
            None => turn.0 == state_after(Event::ReadFailure) && turn.1 is None,
            Some(text) => {
                &&& turn.0 == LoopControl::Continue
                &&& turn.1 is Some
                &&& turn.1.unwrap()@ == trimmed(text@)
            },
        },
{
    match line {
        Some(text) => (LoopControl::Continue, Some(trim(text))),
        None => (next(Event::ReadFailure), None),
    }
}

/// The second half of the turn, on what the parser made of the trimmed
/// line. The sentinel ends the session; an accepted amount is handed back
/// to be broken into coins, a failure to be reported, and the session goes
/// on.
pub fn input_loop(reading: Result<u32, ValidationError>) -> (turn: (
    LoopControl,
    Option<Result<u32, ValidationError>>,
))
    ensures
        if validated(reading) == Ok::<u32, ValidationError>(SENTINEL) {
            turn.0 == state_after(Event::Sentinel) && turn.1 is None
        } else {
            turn.0 == LoopControl::Continue && turn.1 == Some(validated(reading))
        },
{
    match validate(reading) {
        Ok(amount) => {
            if amount == SENTINEL {
                (next(Event::Sentinel), None)
            } else {
                (next(Event::Computed), Some(Ok(amount)))
            }
        },
        Err(error) => (next(Event::Rejected), Some(Err(error))),
    }
}

/// The greedy breakdown of `cents`: as many quarters as fit, then dimes, then
/// nickels, and pennies for what is left.
pub open spec fn greedy(cents: int) -> (int, int, int, int) {
    (cents / 25, (cents % 25) / 10, ((cents % 25) % 10) / 5, ((cents % 25) % 10) % 5)
}

/// Breaks `cents` into coins, largest denomination first. An accepted
/// amount is never more than a hundred cents, but any amount that is not
/// negative is broken down.
pub fn calculate_change(
    cents: i8,
    num_quarters: &mut i8,
    num_dimes: &mut i8,
    num_nickels: &mut i8,
    num_pennies: &mut i8,
)
    requires
        0 <= cents,
    ensures
        (
            *final(num_quarters) as int,
            *final(num_dimes) as int,
            *final(num_nickels) as int,
            *final(num_pennies) as int,
        ) == greedy(cents as int),
{
    let mut change_left: i8 = cents;
    *num_quarters = change_left / 25;
    change_left = change_left % 25;
    *num_dimes = change_left / 10;
    change_left = change_left % 10;
    *num_nickels = change_left / 5;
    change_left = change_left % 5;
    *num_pennies = change_left;
}

/// The greedy breakdown is a breakdown: its coins are worth exactly `cents`,
/// and no count is negative. It never takes more than two dimes, one nickel
/// or four pennies, and for up to a dollar no more than four quarters.
pub proof fn lemma_greedy_is_exact(cents: int)
    requires
        0 <= cents,
    ensures
        25 * greedy(cents).0 + 10 * greedy(cents).1 + 5 * greedy(cents).2 + greedy(cents).3
            == cents,
        0 <= greedy(cents).0,
        cents <= 100 ==> greedy(cents).0 <= 4,
        0 <= greedy(cents).1 <= 2,
        0 <= greedy(cents).2 <= 1,
        0 <= greedy(cents).3 <= 4,
{
}

/// No way of paying `cents` with quarters, dimes, nickels and pennies uses
/// fewer coins than the greedy breakdown does. This is a property of these
/// four denominations, not of greedy breakdowns in general.
pub proof fn lemma_greedy_is_minimal(cents: int, q: int, d: int, n: int, p: int)
    requires
        0 <= cents,
        0 <= q,
        0 <= d,
        0 <= n,
        0 <= p,
        25 * q + 10 * d + 5 * n + p == cents,
    ensures
        greedy(cents).0 + greedy(cents).1 + greedy(cents).2 + greedy(cents).3 <= q + d + n + p,
{
    // What is left after the greedy quarters, and after the greedy dimes.
    let a = cents % 25;
    let b = a % 10;
    lemma_greedy_is_exact(cents);
    // Pennies beyond the last four can be traded for nickels, five for one.
    let spare = (p - b % 5) / 5;
    assert(p == b % 5 + 5 * spare && spare >= 0);
    // Fives that are not greedy quarters: each quarter given up costs five of them.
    let fewer = cents / 25 - q;
    assert(fewer >= 0);
    assert(2 * d + n + spare == 5 * fewer + a / 5);
    assert(a / 5 == 2 * (a / 10) + b / 5);
    // No dime count can make up for a quarter given up.
    assert(2 * d <= 5 * fewer + 2 * (a / 10) + 1);
    assert(d <= 4 * fewer + a / 10);
}

} // verus!

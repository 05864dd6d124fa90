//! Decimal integers as text: what a token must look like to be read as a
//! signed 32-bit integer, and the value it then has.
use vstd::prelude::*;
use crate::text::push_char;

verus! {

/// Whether `c` is one of the ten ASCII digits.
pub open spec fn is_digit(c: char) -> bool {
    48 <= c as int <= 57
}

/// Whether `s` holds nothing but ASCII digits.
pub open spec fn all_digits(s: Seq<char>) -> bool {
    forall|i: int| 0 <= i < s.len() ==> is_digit(#[trigger] s[i])
}

/// The number that the digits `s` write in base ten.
pub open spec fn decimal(s: Seq<char>) -> int
    decreases s.len(),
{
    if s.len() == 0 {
        0
    } else {
        10 * decimal(s.drop_last()) + (s.last() as int - 48)
    }
}

/// Whether `t` starts with a plus or minus sign.
pub open spec fn has_sign(t: Seq<char>) -> bool {
    t.len() > 0 && (t[0] == '+' || t[0] == '-')
}

/// The digits of `t`: all of it but a leading sign.
pub open spec fn magnitude_digits(t: Seq<char>) -> Seq<char> {
    if has_sign(t) {
        t.skip(1)
    } else {
        t
    }
}

/// The number that `t` writes: its digits in base ten, negated after a
/// minus sign.
pub open spec fn signed_value(t: Seq<char>) -> int {
    if t.len() > 0 && t[0] == '-' {
        -decimal(magnitude_digits(t))
    } else {
        decimal(magnitude_digits(t))
    }
}

/// Whether `t` writes a signed 32-bit integer: an optional sign, then one or
/// more digits and nothing else, with a value in range.
pub open spec fn is_i32_text(t: Seq<char>) -> bool {
    &&& magnitude_digits(t).len() > 0
    &&& all_digits(magnitude_digits(t))
    &&& i32::MIN <= signed_value(t) <= i32::MAX
}

/// `str::parse::<i32>`: it succeeds exactly on an optional sign followed by
/// one or more ASCII digits whose value fits, and then returns that value.
/// On failure the parser's own message is handed back, of which nothing is
/// claimed.
#[verifier::external_body]
pub(crate) fn parse_i32(token: &str) -> (r: Result<i32, String>)
    ensures
        r is Ok <==> is_i32_text(token@),
        r is Ok ==> r.unwrap() == signed_value(token@),
{
    match token.parse::<i32>() {
        Ok(value) => Ok(value),
        Err(error) => Err(error.to_string()),
    }
}

/// The ASCII digit that writes `d`.
pub open spec fn digit_char(d: int) -> char {
    (48 + d) as char
}

/// The digits that write `n` in base ten, without leading zeros.
pub open spec fn digits_of(n: nat) -> Seq<char>
    decreases n,
{
    if n < 10 {
        seq![digit_char(n as int)]
    } else {
        digits_of(n / 10).push(digit_char((n % 10) as int))
    }
}

/// How `v` is written in base ten: a minus sign where it is negative, then
/// the digits of its magnitude.
pub open spec fn decimal_text(v: int) -> Seq<char> {
    if v < 0 {
        seq!['-'] + digits_of((-v) as nat)
    } else {
        digits_of(v as nat)
    }
}

/// The digits of `n` are digits, at least one, and write `n`.
proof fn lemma_digits_write_their_number(n: nat)
    ensures
        digits_of(n).len() >= 1,
        all_digits(digits_of(n)),
        decimal(digits_of(n)) == n,
        !has_sign(digits_of(n)),
    decreases n,
{
    if n < 10 {
        let text = digits_of(n);
        assert(text.drop_last() =~= Seq::<char>::empty());
        assert(decimal(text.drop_last()) == 0);
    } else {
        lemma_digits_write_their_number(n / 10);
        let text = digits_of(n);
        assert(text.drop_last() =~= digits_of(n / 10));
        assert(text[0] == digits_of(n / 10)[0]);
    }
}

/// What is written is read back: the text of a signed 32-bit integer writes
/// a signed 32-bit integer, and its value is that integer.
pub proof fn lemma_text_round_trip(v: int)
    requires
        i32::MIN <= v <= i32::MAX,
    ensures
        is_i32_text(decimal_text(v)),
        signed_value(decimal_text(v)) == v,
{
    if v < 0 {
        lemma_digits_write_their_number((-v) as nat);
        assert(decimal_text(v).skip(1) =~= digits_of((-v) as nat));
    } else {
        lemma_digits_write_their_number(v as nat);
    }
}

/// The ASCII digit that writes `d`.
fn digit(d: i64) -> (c: char)
    requires
        0 <= d < 10,
    ensures
        c == digit_char(d as int),
{
    if d == 0 {
        '0'
    } else if d == 1 {
        '1'
    } else if d == 2 {
        '2'
    } else if d == 3 {
        '3'
    } else if d == 4 {
        '4'
    } else if d == 5 {
        '5'
    } else if d == 6 {
        '6'
    } else if d == 7 {
        '7'
    } else if d == 8 {
        '8'
    } else {
        '9'
    }
}

/// Writes `v` in base ten.
pub fn render_i32(v: i32) -> (text: String)
    ensures
        text@ == decimal_text(v as int),
{
    let mut text = String::new();
    let wide: i64 = v as i64;
    let magnitude: i64 = if v < 0 {
        push_char(&mut text, '-');
        -wide
    } else {
        wide
    };
    let ghost sign = text@;
    // The digits, last one first.
    let mut backwards: Vec<char> = Vec::new();
    let mut rest: i64 = magnitude;
    while rest >= 10
        invariant
            0 <= rest,
            digits_of(magnitude as nat) == digits_of(rest as nat) + backwards@.reverse(),
        decreases rest,
    {
        let ghost before = backwards@;
        let c = digit(rest % 10);
        backwards.push(c);
        proof {
            assert(backwards@.reverse() =~= seq![c] + before.reverse());
            assert(digits_of((rest / 10) as nat).push(c) + before.reverse() =~= digits_of(
                (rest / 10) as nat,
            ) + (seq![c] + before.reverse()));
        }
        rest = rest / 10;
    }
    let ghost before = backwards@;
    let c = digit(rest);
    backwards.push(c);
    proof {
        assert(backwards@.reverse() =~= seq![c] + before.reverse());
    }
    let mut left: usize = backwards.len();
    while left > 0
        invariant
            left <= backwards@.len(),
            text@ == sign + backwards@.reverse().take(backwards@.len() - left),
        decreases left,
    {
        left = left - 1;
        push_char(&mut text, backwards[left]);
        proof {
            let digits = backwards@.reverse();
            let k = backwards@.len() - left - 1;
            assert(digits[k] == backwards@[left as int]);
            assert(digits.take(k + 1) =~= digits.take(k).push(digits[k]));
            assert(sign + digits.take(k + 1) =~= (sign + digits.take(k)).push(digits[k]));
        }
    }
    proof {
        let digits = backwards@.reverse();
        assert(digits.take(digits.len() as int) =~= digits);
        assert(text@ =~= sign + digits_of(magnitude as nat));
        if v < 0 {
            assert(sign =~= seq!['-']);
        } else {
            assert(sign + digits_of(magnitude as nat) =~= digits_of(magnitude as nat));
        }
    }
    text
}

} // verus!

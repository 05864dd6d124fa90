//! Deciding whether a line of text reads the same in both directions once
//! punctuation, spacing and case are set aside.
use vstd::prelude::*;
use crate::control::{is_blank_line, next, state_after, Event, LoopControl};
use crate::text::{chars_of, push_char};
use crate::unicode::{alphabetic, numeric, lowercase, is_alphanumeric, to_lowercase};

verus! {

/// Whether `c` is a letter or a number.
pub open spec fn alphanumeric(c: char) -> bool {
    alphabetic(c) || numeric(c)
}

/// The letters and numbers of `s`, each replaced by its lowercase mapping,
/// everything else left out.
pub open spec fn cleaned(s: Seq<char>) -> Seq<char>
    decreases s.len(),
{
    if s.len() == 0 {
        Seq::empty()
    } else if alphanumeric(s.last()) {
        cleaned(s.drop_last()) + lowercase(s.last())
    } else {
        cleaned(s.drop_last())
    }
}

/// Whether `s` holds a letter or a number.
pub open spec fn has_alphanumeric(s: Seq<char>) -> bool {
    exists|i: int| 0 <= i < s.len() && alphanumeric(#[trigger] s[i])
}

/// The letters and numbers of `input` in lowercase, or `None` where `input`
/// holds neither a letter nor a number.
pub fn clean_input(input: &str) -> (r: Option<String>)
    ensures
        r is Some <==> has_alphanumeric(input@),
        r is Some ==> r.unwrap()@ == cleaned(input@),
{
    let mut out = String::new();
    let mut found = false;
    for c in it: input.chars()
        invariant
            it.seq() == input@,
            out@ == cleaned(input@.take(it.index() as int)),
            found <==> has_alphanumeric(input@.take(it.index() as int)),
    {
        let ghost k = it.index() as int;
        proof {
            assert(input@.take(k + 1).drop_last() =~= input@.take(k));
            assert(input@.take(k + 1).last() == c);
        }
        if is_alphanumeric(c) {
            let lower = to_lowercase(c);
            let ghost before = out@;
            let mut j: usize = 0;
            while j < lower.len()
                invariant
                    j <= lower.len(),
                    out@ == before + lower@.take(j as int),
                decreases lower.len() - j,
            {
                push_char(&mut out, lower[j]);
                proof {
                    assert(lower@.take(j + 1) =~= lower@.take(j as int).push(lower@[j as int]));
                    assert(before + lower@.take(j + 1) =~= (before + lower@.take(j as int)).push(
                        lower@[j as int],
                    ));
                }
                j = j + 1;
            }
            proof {
                assert(lower@.take(lower@.len() as int) =~= lower@);
                assert(alphanumeric(input@.take(k + 1)[k]));
            }
            found = true;
        } else {
            proof {
                if has_alphanumeric(input@.take(k + 1)) {
                    let i = choose|i: int|
                        0 <= i < k + 1 && alphanumeric(#[trigger] input@.take(k + 1)[i]);
                    assert(alphanumeric(input@.take(k)[i]));
                }
                if has_alphanumeric(input@.take(k)) {
                    let i = choose|i: int| 0 <= i < k && alphanumeric(#[trigger] input@.take(k)[i]);
                    assert(alphanumeric(input@.take(k + 1)[i]));
                }
            }
        }
    }
    proof {
        assert(input@.take(input@.len() as int) =~= input@);
    }
    if found {
        Some(out)
    } else {
        None
    }
}

/// Whether `input` equals its own reverse.
pub fn is_palindrome(input: String) -> (r: bool)
    ensures
        r == (input@ == input@.reverse()),
{
    let v = chars_of(input.as_str());
    let n: usize = v.len();
    let mut i: usize = 0;
    while i < n
        invariant
            n == v@.len(),
            v@ == input@,
            i <= n,
            forall|j: int| 0 <= j < i ==> #[trigger] v@[j] == v@[n - 1 - j],
        decreases n - i,
    {
        if v[i] != v[n - 1 - i] {
            proof {
                assert(v@.reverse()[i as int] == v@[n - 1 - i]);
            }
            return false;
        }
        i = i + 1;
    }
    proof {
        assert(v@ =~= v@.reverse());
    }
    true
}

/// What a turn says of a line.
#[derive(Clone, Copy, Debug, PartialEq, Eq, Structural)]
pub enum Verdict {
    /// Its letters and numbers read the same in both directions.
    Palindrome,
    /// They do not.
    NotPalindrome,
    /// It holds neither a letter nor a number.
    Empty,
}

/// The verdict on the line `s`.
pub open spec fn verdict_on(s: Seq<char>) -> Verdict {
    if !has_alphanumeric(s) {
        Verdict::Empty
    } else if cleaned(s) == cleaned(s).reverse() {
        Verdict::Palindrome
    } else {
        Verdict::NotPalindrome
    }
}

/// One turn of a session that looks for palindromes. `line` is the line
/// that was read, or `None` where reading failed. The turn ends the session
/// where reading failed or the line is empty or a bare line feed; any other
/// line gets its verdict, and the session goes on.
pub fn input_loop(line: Option<&str>) -> (turn: (LoopControl, Option<Verdict>))
    ensures
        match line {
            None => turn.0 == state_after(Event::ReadFailure) && turn.1 is None,
            Some(text) => if text@.len() == 0 || text@ == seq!['\n'] {
                turn.0 == state_after(Event::Sentinel) && turn.1 is None
            } else {
                turn.0 == LoopControl::Continue && turn.1 == Some(verdict_on(text@))
            },
        },
{
    let text = match line {
        Some(text) => text,
        None => {
            return (next(Event::ReadFailure), None);
        },
    };
    if is_blank_line(text) {
        return (next(Event::Sentinel), None);
    }
    match clean_input(text) {
        Some(letters) => {
            if is_palindrome(letters) {
                (next(Event::Computed), Some(Verdict::Palindrome))
            } else {
                (next(Event::Computed), Some(Verdict::NotPalindrome))
            }
        },
        None => (next(Event::Rejected), Some(Verdict::Empty)),
    }
}

} // verus!

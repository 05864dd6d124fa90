//! Counting the characters of a sentence by class.
use vstd::prelude::*;
use crate::control::{is_blank_line, next, state_after, Event, LoopControl};
use crate::tokens::{trim, trimmed};
use crate::unicode::{alphabetic, numeric, lowercase, is_alphabetic, is_numeric, to_lowercase};

verus! {

/// How many characters of `s` satisfy `p`.
pub open spec fn count_where(s: Seq<char>, p: spec_fn(char) -> bool) -> nat
    decreases s.len(),
{
    if s.len() == 0 {
        0
    } else {
        count_where(s.drop_last(), p) + if p(s.last()) { 1nat } else { 0nat }
    }
}

/// Whether the lowercase mapping of `c` is a single `a`, `e`, `i`, `o` or `u`.
pub open spec fn vowel(c: char) -> bool {
    let l = lowercase(c);
    l.len() == 1 && (l[0] == 'a' || l[0] == 'e' || l[0] == 'i' || l[0] == 'o' || l[0] == 'u')
}

/// The number of characters in `input`.
pub fn keystrokes(input: &str) -> (n: usize)
    ensures
        n == input@.len(),
{
    input.unicode_len()
}

/// Extending a sequence by one character adds one to the count exactly
/// when that character satisfies `p`.
proof fn lemma_count_step(s: Seq<char>, k: int, p: spec_fn(char) -> bool)
    requires
        0 <= k < s.len(),
    ensures
        count_where(s.take(k + 1), p) == count_where(s.take(k), p) + if p(s[k]) {
            1nat
        } else {
            0nat
        },
        count_where(s.take(k), p) <= k,
    decreases k,
{
    assert(s.take(k + 1).drop_last() =~= s.take(k));
    if k > 0 {
        lemma_count_step(s, k - 1, p);
    }
}

/// The number of alphabetic characters in `input`.
pub fn alph_chars(input: &str) -> (n: usize)
    ensures
        n == count_where(input@, |c: char| alphabetic(c)),
{
    let ghost p = |c: char| alphabetic(c);
    let total: usize = input.unicode_len();
    let mut n: usize = 0;
    for c in it: input.chars()
        invariant
            it.seq() == input@,
            input@.len() == total,
            n == count_where(input@.take(it.index() as int), p),
            n <= it.index(),
            p == (|c: char| alphabetic(c)),
    {
        proof {
            lemma_count_step(input@, it.index() as int, p);
        }
        if is_alphabetic(c) {
            n = n + 1;
        }
    }
    proof {
        assert(input@.take(input@.len() as int) =~= input@);
    }
    n
}

/// The number of numeric characters in `input`.
pub fn numeric_chars(input: &str) -> (n: usize)
    ensures
        n == count_where(input@, |c: char| numeric(c)),
{
    let ghost p = |c: char| numeric(c);
    let total: usize = input.unicode_len();
    let mut n: usize = 0;
    for c in it: input.chars()
        invariant
            it.seq() == input@,
            input@.len() == total,
            n == count_where(input@.take(it.index() as int), p),
            n <= it.index(),
            p == (|c: char| numeric(c)),
    {
        proof {
            lemma_count_step(input@, it.index() as int, p);
        }
        if is_numeric(c) {
            n = n + 1;
        }
    }
    proof {
        assert(input@.take(input@.len() as int) =~= input@);
    }
    n
}

/// The number of vowels in `input`, in either case.
pub fn vowel_chars(input: &str) -> (n: usize)
    ensures
        n == count_where(input@, |c: char| vowel(c)),
{
    let ghost p = |c: char| vowel(c);
    let total: usize = input.unicode_len();
    let mut n: usize = 0;
    for c in it: input.chars()
        invariant
            it.seq() == input@,
            input@.len() == total,
            n == count_where(input@.take(it.index() as int), p),
            n <= it.index(),
            p == (|c: char| vowel(c)),
    {
        proof {
            lemma_count_step(input@, it.index() as int, p);
        }
        let lower = to_lowercase(c);
        if lower.len() == 1 {
            let l: char = lower[0];
            if l == 'a' || l == 'e' || l == 'i' || l == 'o' || l == 'u' {
                n = n + 1;
            }
        }
    }
    proof {
        assert(input@.take(input@.len() as int) =~= input@);
    }
    n
}

/// The counts that are shown for a sentence.
#[derive(Clone, Copy, Debug, PartialEq, Eq, Structural)]
pub struct SentenceCounts {
    pub keystrokes: usize,
    pub alphabetic: usize,
    pub numeric: usize,
    pub vowels: usize,
}

/// The counts of the sentence `s`.
pub open spec fn counted(s: Seq<char>, counts: SentenceCounts) -> bool {
    &&& counts.keystrokes == s.len()
    &&& counts.alphabetic == count_where(s, |c: char| alphabetic(c))
    &&& counts.numeric == count_where(s, |c: char| numeric(c))
    &&& counts.vowels == count_where(s, |c: char| vowel(c))
}

/// One turn of a session that counts the characters of sentences. `line`
/// is the line that was read, or `None` where reading failed. The turn ends
/// the session where reading failed or the line is empty or a bare line
/// feed; any other line is trimmed and counted, and the session goes on.
pub fn input_loop(line: Option<&str>) -> (turn: (LoopControl, Option<SentenceCounts>))
    ensures
        match line {
            None => turn.0 == state_after(Event::ReadFailure) && turn.1 is None,
            Some(text) => if text@.len() == 0 || text@ == seq!['\n'] {
                turn.0 == state_after(Event::Sentinel) && turn.1 is None
            } else {
                &&& turn.0 == LoopControl::Continue
                &&& turn.1 is Some
                &&& counted(trimmed(text@), turn.1.unwrap())
            },
        },
{
    let text = match line {
        Some(text) => text,
        None => {
            return (next(Event::ReadFailure), None);
        },
    };
    if is_blank_line(text) {
        return (next(Event::Sentinel), None);
    }
    let sentence = trim(text);
    let counts = SentenceCounts {
        keystrokes: keystrokes(sentence),
        alphabetic: alph_chars(sentence),
        numeric: numeric_chars(sentence),
        vowels: vowel_chars(sentence),
    };
    (next(Event::Computed), Some(counts))
}

} // verus!

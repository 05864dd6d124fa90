//! Cutting a line of text into whitespace-separated tokens.
use vstd::prelude::*;
use crate::text::{chars_of, push_char};
use crate::unicode::{whitespace, is_whitespace};

verus! {

/// The tokens of `s`: its maximal runs of characters that are not
/// whitespace, in order.
pub open spec fn tokens(s: Seq<char>) -> Seq<Seq<char>>
    decreases s.len(),
{
    if s.len() == 0 {
        Seq::empty()
    } else if whitespace(s.last()) {
        tokens(s.drop_last())
    } else if s.len() >= 2 && !whitespace(s[s.len() - 2]) {
        let before = tokens(s.drop_last());
        before.drop_last().push(before.last().push(s.last()))
    } else {
        tokens(s.drop_last()).push(seq![s.last()])
    }
}

/// Where the first line of `s` ends: at the first line feed, or before the
/// carriage return that stands directly in front of it, or at the end of `s`
/// where it holds no line feed.
pub open spec fn first_line_end(s: Seq<char>) -> int {
    let feed = s.index_of_first('\n');
    match feed {
        None => s.len() as int,
        Some(k) => if k > 0 && s[k - 1] == '\r' {
            k - 1
        } else {
            k
        },
    }
}

/// The first line of `s`, without its line ending.
pub open spec fn first_line(s: Seq<char>) -> Seq<char> {
    s.take(first_line_end(s))
}

/// The tokens among the first `end` characters of `line`.
fn split(line: &Vec<char>, end: usize) -> (out: Vec<String>)
    requires
        end <= line@.len(),
    ensures
        out.deep_view() == tokens(line@.take(end as int)),
{
    let mut out: Vec<String> = Vec::new();
    let mut current = String::new();
    let mut inside = false;
    let mut i: usize = 0;
    assert(out.deep_view() =~= Seq::<Seq<char>>::empty());
    while i < end
        invariant
            i <= end <= line@.len(),
            !inside ==> out.deep_view() == tokens(line@.take(i as int)),
            !inside ==> i == 0 || whitespace(line@[i - 1]),
            inside ==> tokens(line@.take(i as int)) == out.deep_view().push(current@),
            inside ==> i > 0 && !whitespace(line@[i - 1]),
        decreases end - i,
    {
        let c: char = line[i];
        let ghost before = line@.take(i as int);
        let ghost after = line@.take(i + 1);
        let ghost done = out.deep_view();
        proof {
            assert(after.drop_last() =~= before);
            assert(after.last() == c);
            if i > 0 {
                assert(after[after.len() - 2] == line@[i - 1]);
            }
        }
        if is_whitespace(c) {
            if inside {
                out.push(current);
                current = String::new();
                inside = false;
                assert(out.deep_view() =~= done.push(out@.last()@));
            }
        } else if inside {
            proof {
                assert(done.push(current@).drop_last() =~= done);
            }
            push_char(&mut current, c);
        } else {
            current = String::new();
            push_char(&mut current, c);
            inside = true;
            assert(current@ =~= seq![c]);
        }
        i = i + 1;
    }
    if inside {
        let ghost done = out.deep_view();
        out.push(current);
        assert(out.deep_view() =~= done.push(out@.last()@));
    }
    out
}

/// The tokens of the first line of `input`. An empty `input` has none.
pub fn first_line_tokens(input: &str) -> (words: Vec<String>)
    ensures
        words.deep_view() == tokens(first_line(input@)),
{
    let line = chars_of(input);
    let mut end: usize = 0;
    while end < line.len() && line[end] != '\n'
        invariant
            end <= line@.len(),
            forall|j: int| 0 <= j < end ==> line@[j] != '\n',
        decreases line@.len() - end,
    {
        end = end + 1;
    }
    proof {
        line@.index_of_first_ensures('\n');
        if end < line@.len() {
            assert(line@.contains('\n'));
            assert(line@.index_of_first('\n') == Some(end as int));
        } else {
            assert(line@.index_of_first('\n') is None);
        }
    }
    if end < line.len() && end > 0 && line[end - 1] == '\r' {
        end = end - 1;
    }
    split(&line, end)
}

/// Every token holds at least one character, and none of its characters is
/// whitespace: there is nothing to trim from a token, and no empty token to
/// drop.
pub proof fn lemma_tokens_are_words(s: Seq<char>)
    ensures
        forall|i: int|
            0 <= i < tokens(s).len() ==> (#[trigger] tokens(s)[i]).len() > 0,
        forall|i: int, j: int|
            0 <= i < tokens(s).len() && 0 <= j < tokens(s)[i].len() ==> !whitespace(
                #[trigger] tokens(s)[i][j],
            ),
        s.len() > 0 && !whitespace(s.last()) ==> tokens(s).len() > 0,
    decreases s.len(),
{
    if s.len() > 0 {
        let rest = s.drop_last();
        lemma_tokens_are_words(rest);
        if !whitespace(s.last()) && s.len() >= 2 && !whitespace(s[s.len() - 2]) {
            assert(rest.last() == s[s.len() - 2]);
        }
    }
}

/// `s` without the whitespace at its start and at its end.
pub open spec fn trimmed(s: Seq<char>) -> Seq<char>
    decreases s.len(),
{
    if s.len() == 0 {
        s
    } else if whitespace(s.first()) {
        trimmed(s.drop_first())
    } else if whitespace(s.last()) {
        trimmed(s.drop_last())
    } else {
        s
    }
}

/// Between the whitespace that leads and the whitespace that trails lies
/// the trimmed text.
proof fn lemma_trimmed_is_middle(s: Seq<char>, from: int, to: int)
    requires
        0 <= from <= to <= s.len(),
        forall|j: int| 0 <= j < from ==> whitespace(#[trigger] s[j]),
        forall|j: int| to <= j < s.len() ==> whitespace(#[trigger] s[j]),
        from < to ==> !whitespace(s[from]) && !whitespace(s[to - 1]),
    ensures
        trimmed(s) == s.subrange(from, to),
    decreases s.len(),
{
    if s.len() == 0 {
        assert(s.subrange(from, to) =~= s);
    } else if from == to {
        if whitespace(s.first()) {
            lemma_trimmed_is_middle(s.drop_first(), 0, 0);
        } else {
            assert(whitespace(s[0]));
        }
        assert(s.subrange(from, to) =~= s.drop_first().subrange(0, 0));
    } else if whitespace(s.first()) {
        lemma_trimmed_is_middle(s.drop_first(), from - 1, to - 1);
        assert(s.subrange(from, to) =~= s.drop_first().subrange(from - 1, to - 1));
    } else if whitespace(s.last()) {
        assert(from == 0) by {
            if from > 0 {
                assert(whitespace(s[0]));
            }
        }
        lemma_trimmed_is_middle(s.drop_last(), from, to);
        assert(s.subrange(from, to) =~= s.drop_last().subrange(from, to));
    } else {
        assert(from == 0) by {
            if from > 0 {
                assert(whitespace(s[0]));
            }
        }
        assert(to == s.len()) by {
            if to < s.len() {
                assert(whitespace(s[s.len() - 1]));
            }
        }
        assert(s.subrange(from, to) =~= s);
    }
}

/// The part of `input` that is left when the whitespace at its start and at
/// its end is taken away.
pub fn trim(input: &str) -> (middle: &str)
    ensures
        middle@ == trimmed(input@),
{
    let line = chars_of(input);
    let mut from: usize = 0;
    while from < line.len() && is_whitespace(line[from])
        invariant
            from <= line@.len(),
            forall|j: int| 0 <= j < from ==> whitespace(#[trigger] line@[j]),
        decreases line@.len() - from,
    {
        from = from + 1;
    }
    let mut to: usize = line.len();
    while to > from && is_whitespace(line[to - 1])
        invariant
            from <= to <= line@.len(),
            forall|j: int| to <= j < line@.len() ==> whitespace(#[trigger] line@[j]),
        decreases to,
    {
        to = to - 1;
    }
    proof {
        lemma_trimmed_is_middle(input@, from as int, to as int);
    }
    input.substring_char(from, to)
}

} // verus!

//! Whether a session goes on after a line, or stops.
use vstd::prelude::*;

verus! {

/// The state of a session: it reads another line, or it has ended.
#[derive(Clone, Copy, Debug, PartialEq, Eq, Structural)]
pub enum LoopControl {
    Continue,
    Stop,
}

/// What one turn of a session came to.
#[derive(Clone, Copy, Debug, PartialEq, Eq, Structural)]
pub enum Event {
    /// No line could be read.
    ReadFailure,
    /// The line asks for the session to end.
    Sentinel,
    /// The line was rejected and the reason reported.
    Rejected,
    /// The line was accepted and its result shown.
    Computed,
}

/// The state after `event`: a session ends when reading fails or the
/// sentinel comes, and at no other time. A rejected line never ends it.
pub open spec fn state_after(event: Event) -> LoopControl {
    match event {
        Event::ReadFailure | Event::Sentinel => LoopControl::Stop,
        Event::Rejected | Event::Computed => LoopControl::Continue,
    }
}

/// The state in which a session goes on after `event`.
pub fn next(event: Event) -> (state: LoopControl)
    ensures
        state == state_after(event),
{
    match event {
        Event::ReadFailure => LoopControl::Stop,
        Event::Sentinel => LoopControl::Stop,
        Event::Rejected => LoopControl::Continue,
        Event::Computed => LoopControl::Continue,
    }
}

/// Whether `line` is a line feed and nothing else: a line on which only the
/// enter key was hit.
pub fn is_bare_line_feed(line: &str) -> (r: bool)
    ensures
        r == (line@ == seq!['\n']),
{
    let r = line.unicode_len() == 1 && line.get_char(0) == '\n';
    proof {
        if r {
            assert(line@ =~= seq!['\n']);
        }
    }
    r
}

/// Whether `line` is empty or a bare line feed.
pub fn is_blank_line(line: &str) -> (r: bool)
    ensures
        r == (line@.len() == 0 || line@ == seq!['\n']),
{
    line.is_empty() || is_bare_line_feed(line)
}

} // verus!

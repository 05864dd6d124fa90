//! The ways in which a line of input can fail validation.
use vstd::prelude::*;

verus! {

/// Why a line was rejected. None of these ends a session.
#[derive(Clone, Debug, PartialEq, Eq)]
pub enum ValidationError {
    /// The line held nothing to read a value from.
    NoInput,
    /// The line held fewer values than were asked for.
    TooFewInputs,
    /// The line held more values than were asked for.
    TooManyInputs,
    /// A token is not a number of the kind asked for: the token, and what the
    /// parser said of it.
    ParseFailure { token: String, cause: String },
    /// The value is a number, but not one that is allowed here.
    OutOfRange,
}

} // verus!

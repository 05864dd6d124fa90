//! The Unicode character classes and case mapping that the rest of the
//! library is stated over. The standard library decides them; each is given a
//! name here so that contracts can speak of it.
use vstd::prelude::*;

verus! {

/// Whether `c` has the Unicode property `Alphabetic`.
pub uninterp spec fn alphabetic(c: char) -> bool;

/// Whether `c` is in one of the Unicode general categories for numbers.
pub uninterp spec fn numeric(c: char) -> bool;

/// Whether `c` has the Unicode property `White_Space`.
pub uninterp spec fn whitespace(c: char) -> bool;

/// The lowercase mapping of `c`, which may be longer than one character.
pub uninterp spec fn lowercase(c: char) -> Seq<char>;

/// `char::is_alphabetic`: the answer is the Unicode property `Alphabetic`
/// of `c`, which this library only names.
#[verifier::external_body]
pub(crate) fn is_alphabetic(c: char) -> (r: bool)
    ensures
        r == alphabetic(c),
{
    c.is_alphabetic()
}

/// `char::is_numeric`: the answer is whether `c` is a Unicode number, which
/// this library only names.
#[verifier::external_body]
pub(crate) fn is_numeric(c: char) -> (r: bool)
    ensures
        r == numeric(c),
{
    c.is_numeric()
}

/// `char::is_alphanumeric`: documented as true exactly when `is_alphabetic`
/// or `is_numeric` is.
#[verifier::external_body]
pub(crate) fn is_alphanumeric(c: char) -> (r: bool)
    ensures
        r == (alphabetic(c) || numeric(c)),
{
    c.is_alphanumeric()
}

/// `char::is_whitespace`: the answer is the Unicode property `White_Space`
/// of `c`, which this library only names.
#[verifier::external_body]
pub(crate) fn is_whitespace(c: char) -> (r: bool)
    ensures
        r == whitespace(c),
{
    c.is_whitespace()
}

/// `char::to_lowercase`, gathered into a vector: the characters are the
/// lowercase mapping of `c`, which this library only names. The standard
/// library documents that the mapping yields one or more characters.
#[verifier::external_body]
pub(crate) fn to_lowercase(c: char) -> (r: Vec<char>)
    ensures
        r@ == lowercase(c),
        r@.len() >= 1,
{
    c.to_lowercase().collect()
}

} // verus!

//! Validated-input aggregation for small interactive console sessions:
//! cutting a line of text into tokens and validating them, sorting and
//! counting signed samples, breaking an amount of cents into coins, and
//! deciding after each line whether a session goes on.
//!
//! The library never reads or prints, and it does no floating-point
//! arithmetic: a caller hands it the line that was read and, where numbers
//! with a fraction are wanted, the bits of what the parser made of each
//! token.
pub mod change;
pub mod control;
pub mod numbers;
pub mod palindrome;
pub mod points;
pub mod sentences;
pub mod sums;
pub mod text;
pub mod tokens;
pub mod unicode;
pub mod validation;

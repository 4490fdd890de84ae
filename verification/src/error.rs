//! The error taxonomy: one kind for every failure mode of the library.

use vstd::prelude::*;

verus! {

/// Every failure a session operation or a parser can report.
///
/// Each variant carries enough context to explain the failure: either the raw
/// offending response text (`No`, `Bad`, `Invalid`) or a human-readable
/// message (the rest).
#[derive(Debug, Clone)]
pub enum IMAPError {
    /// A transport-level failure (refused connection, timeout, broken pipe),
    /// reported by the caller that performed the I/O.
    IOError(String),
    /// A login was attempted in a state that can never accept it.
    LoginError(String),
    /// A select was attempted in a state that can never accept it.
    SelectError(String),
    /// The operation needs a live connection and there is none, or the
    /// server greeting did not classify as `* OK`.
    ConnectError(String),
    /// The server rejected the command with `NO`; carries the response text.
    No(String),
    /// The server rejected the command with `BAD`; carries the response text.
    Bad(String),
    /// The response did not parse as any recognized shape; carries the text.
    Invalid(String),
}

} // verus!

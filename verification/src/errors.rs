//! The error taxonomy of the library.
//!
//! Parse failures are local to one file and are swallowed by callers
//! (a failed file contributes nothing); only a malformed signature
//! request is surfaced immediately.

use vstd::prelude::*;

verus! {

/// Failure to turn a file's text into a module record.
#[derive(Debug, Clone, Copy, PartialEq, Eq, Structural)]
pub enum ParseError {
    /// The file was unreadable or not valid UTF-8.
    Read,
    /// The text did not parse under the grammar.
    Syntax,
}

/// Failure to understand a signature request before any lookup happens.
#[derive(Debug, Clone, Copy, PartialEq, Eq, Structural)]
pub enum RequestError {
    /// The request lacks the `module:symbol` separator.
    InvalidFormat,
}

impl RequestError {
    /// A human-readable description of the failure.
    pub fn message(&self) -> (r: &'static str)
        ensures
            r@ == "Invalid import path format. Expected 'module:symbol'"@,
    {
        "Invalid import path format. Expected 'module:symbol'"
    }
}

} // verus!

//! The error taxonomy of the parsing core.

use vstd::prelude::*;

verus! {

/// A failure of the parsing core.
///
/// Input/output and serialization failures live at the caller's
/// boundary, outside this library.
#[derive(Debug)]
pub enum ParseError {
    /// The grammar failed to match a block; the diagnostic names the
    /// failing rule.
    ParsingError(String),
    /// Extraction produced an empty field mapping.  A successful match
    /// of the `event` rule structurally guarantees all ten fields, so
    /// this is a defensive invariant check, not a reachable outcome.
    EmptyEvent,
}

impl ParseError {
    /// The diagnostic text of this error.
    pub fn message(&self) -> (r: &str)
        ensures
            self is ParsingError ==> r@ == self->ParsingError_0@,
    {
        match self {
            ParseError::ParsingError(m) => m.as_str(),
            ParseError::EmptyEvent => "empty event",
        }
    }
}

} // verus!

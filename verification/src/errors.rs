//! Typed parse failures.  Every failure is local: the failing parser returns
//! the input it was given untouched, together with one of these kinds, and
//! ordered alternation in the callers tries the next candidate.

use vstd::prelude::*;

verus! {

/// The kinds of parse failure the grammar can report.
#[derive(Debug, PartialEq, Eq, Structural, Clone, Copy)]
pub enum ErrorKind {
    /// An opening delimiter had no matching close before the input ended.
    UnterminatedDelimiter,
    /// A closing delimiter appeared with no corresponding open.
    UnmatchedClosingDelimiter,
    /// Non-delimiter content preceded an expected delimiter.
    MalformedPrefix,
    /// An attribute key outside the fixed vocabulary.
    UnknownAttributeKey,
    /// The line classifier found no matching alternative; the driver stops.
    NoAlternativeMatched,
}

/// A failure value: the error kind together with the input slice the failing
/// parser was looking at.
#[derive(Debug, Clone, Copy)]
pub struct BtError<'a> {
    pub input: &'a str,
    pub kind: ErrorKind,
}

impl<'a> BtError<'a> {
    pub fn new(input: &'a str, kind: ErrorKind) -> (r: BtError<'a>)
        ensures
            r.input == input,
            r.kind == kind,
    {
        BtError { input, kind }
    }
}

} // verus!

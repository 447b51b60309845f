//! The single error taxonomy the front end surfaces to callers.

use vstd::prelude::*;

verus! {

/// Which discipline of the front end rejected the input.
#[derive(Clone, Copy, Debug, PartialEq, Eq, Structural)]
pub enum ErrorKind {
    /// An unrecognized character, an unterminated string literal or block
    /// comment, or a literal that was still mid-scan at end of input.
    Lexical,
    /// An expected token variant did not match what the stream held, or the
    /// stream ran out where a token was required.
    Syntax,
    /// An unsupported file version, a duplicate camera declaration, an
    /// unknown field name inside a recognized block, or a degenerate
    /// (non-invertible) transform.
    Semantic,
    /// An exact rational value fell outside the range this model can carry.
    NumericRange,
    /// An error built directly from a caller-supplied message.
    Other,
}

/// A human-readable error carrying the kind of failure and, for lexical
/// errors, the character offset at which it was detected.
#[derive(Debug)]
pub struct TokenizationError {
    pub kind: ErrorKind,
    pub offset: usize,
    pub message: String,
}

impl TokenizationError {
    /// Build an error from a bare message, as callers outside the front end do.
    pub fn new(message: String) -> (r: TokenizationError)
        ensures
            r.kind == ErrorKind::Other,
            r.offset == 0,
            r.message@ == message@,
    {
        TokenizationError { kind: ErrorKind::Other, offset: 0, message }
    }

    /// Build an error of a given kind at a given input offset.
    pub fn at(kind: ErrorKind, offset: usize, message: &str) -> (r: TokenizationError)
        ensures
            r.kind == kind,
            r.offset == offset,
            r.message@ == message@,
    {
        TokenizationError { kind, offset, message: message.to_owned() }
    }

    /// Build an error of a given kind with no meaningful offset.
    pub fn of_kind(kind: ErrorKind, message: &str) -> (r: TokenizationError)
        ensures
            r.kind == kind,
            r.offset == 0,
            r.message@ == message@,
    {
        TokenizationError { kind, offset: 0, message: message.to_owned() }
    }

    /// The stored message.
    pub fn description(&self) -> (r: &str)
        ensures
            r@ == self.message@,
    {
        self.message.as_str()
    }
}

} // verus!

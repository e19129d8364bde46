//! Parse failures for duration expressions, with their position.

use vstd::prelude::*;

verus! {

/// What went wrong while parsing a duration expression.
#[derive(Clone, Debug, PartialEq, Eq)]
pub enum ErrorKind {
    /// A character that can start no token.
    IllegalChar(char),
    /// The input held no token at all.
    Empty,
    /// A token of one kind stood where the other was expected.
    UnexpectedToken { expected: &'static str, got: &'static str },
    /// A run of letters, already lower-cased, that names no known unit.
    UnknownUnit(String),
}

/// The mathematical value of an `ErrorKind`.
pub ghost enum ErrorKindV {
    IllegalChar { c: char },
    Empty,
    UnexpectedToken { expected: Seq<char>, got: Seq<char> },
    UnknownUnit { name: Seq<char> },
}

impl View for ErrorKind {
    type V = ErrorKindV;

    open spec fn view(&self) -> ErrorKindV {
        match self {
            ErrorKind::IllegalChar(c) => (ErrorKindV::IllegalChar { c: *c }),
            ErrorKind::Empty => ErrorKindV::Empty,
            ErrorKind::UnexpectedToken { expected, got } => (ErrorKindV::UnexpectedToken {
                expected: expected@,
                got: got@,
            }),
            ErrorKind::UnknownUnit(s) => (ErrorKindV::UnknownUnit { name: s@ }),
        }
    }
}

/// A parse failure and the 0-based line and column where it arose.
#[derive(Clone, Debug, PartialEq, Eq)]
pub struct Error {
    pub kind: ErrorKind,
    pub line: usize,
    pub col: usize,
}

/// The mathematical value of an `Error`.
pub ghost struct ErrorV {
    pub kind: ErrorKindV,
    pub line: int,
    pub col: int,
}

impl View for Error {
    type V = ErrorV;

    open spec fn view(&self) -> ErrorV {
        ErrorV { kind: self.kind@, line: self.line as int, col: self.col as int }
    }
}

impl Error {
    /// An unrecognized-unit failure for the lower-cased unit text `s`.
    pub fn unknown_unit(s: String, pos: (usize, usize)) -> (e: Error)
        ensures
            e@ == (ErrorV {
                kind: ErrorKindV::UnknownUnit { name: s@ },
                line: pos.0 as int,
                col: pos.1 as int,
            }),
    {
        Error { kind: ErrorKind::UnknownUnit(s), line: pos.0, col: pos.1 }
    }

    /// A wrong-token failure, carrying the expected and actual token kinds.
    pub fn unexpected_token(expected: &'static str, got: &'static str, pos: (usize, usize)) -> (e:
        Error)
        ensures
            e@ == (ErrorV {
                kind: ErrorKindV::UnexpectedToken { expected: expected@, got: got@ },
                line: pos.0 as int,
                col: pos.1 as int,
            }),
    {
        Error { kind: ErrorKind::UnexpectedToken { expected, got }, line: pos.0, col: pos.1 }
    }

    /// An illegal-character failure at the character's position.
    pub fn illegal(c: char, pos: (usize, usize)) -> (e: Error)
        ensures
            e@ == (ErrorV {
                kind: ErrorKindV::IllegalChar { c: c },
                line: pos.0 as int,
                col: pos.1 as int,
            }),
    {
        Error { kind: ErrorKind::IllegalChar(c), line: pos.0, col: pos.1 }
    }

    /// The empty-input failure.
    pub fn empty() -> (e: Error)
        ensures
            e@ == (ErrorV { kind: ErrorKindV::Empty, line: 0, col: 0 }),
    {
        Error { kind: ErrorKind::Empty, line: 0, col: 0 }
    }
}

} // verus!

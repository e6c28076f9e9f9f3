//! The ways in which reading or running a script fails.

use vstd::prelude::*;

verus! {

/// Why a script was refused.
#[derive(Clone, Copy, Debug, PartialEq, Eq, Structural)]
pub enum ErrorKind {
    /// A line has none of the shapes of the grammar.
    MalformedLine,
    /// A function starts inside another function.
    NestedFunctionStart,
    /// A function ends where none was started.
    UnmatchedFunctionEnd,
    /// An assignment or a command line stands outside every function.
    StatementOutsideFunction,
    /// The text ends inside a function.
    UnterminatedFunction,
    /// The script defines no function `main`.
    NoEntryFunction,
    /// A line could not be read.
    IoFailure,
}

/// What `ErrorKind::message` says of each failure.
pub open spec fn message_of(kind: ErrorKind) -> Seq<char> {
    match kind {
        ErrorKind::MalformedLine => "encounter bad line"@,
        ErrorKind::NestedFunctionStart =>
            "already started to construct function, but got function start again"@,
        ErrorKind::UnmatchedFunctionEnd => "expect start mark when outside, but got function end"@,
        ErrorKind::StatementOutsideFunction => "expect start mark when outside, but got statement"@,
        ErrorKind::UnterminatedFunction => "haven't end"@,
        ErrorKind::NoEntryFunction => "no main"@,
        ErrorKind::IoFailure => "cannot read line"@,
    }
}

impl ErrorKind {
    /// A short description of the failure, for a diagnostic.
    pub fn message(&self) -> (m: &'static str)
        ensures
            m@ == message_of(*self),
    {
        match self {
            ErrorKind::MalformedLine => "encounter bad line",
            ErrorKind::NestedFunctionStart =>
                "already started to construct function, but got function start again",
            ErrorKind::UnmatchedFunctionEnd =>
                "expect start mark when outside, but got function end",
            ErrorKind::StatementOutsideFunction =>
                "expect start mark when outside, but got statement",
            ErrorKind::UnterminatedFunction => "haven't end",
            ErrorKind::NoEntryFunction => "no main",
            ErrorKind::IoFailure => "cannot read line",
        }
    }
}

} // verus!

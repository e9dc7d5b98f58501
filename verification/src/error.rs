//! Errors as they are reported to the query engine.
use vstd::prelude::*;

verus! {

/// Who is to blame.
#[derive(Debug, Clone, Copy, PartialEq, Eq, Structural)]
pub enum Blame {
    /// An argument, or the data it points to.
    Value,
    /// The worker itself.
    Runtime,
}

/// A reported error.
#[derive(Debug, PartialEq, Eq)]
pub struct Error {
    pub blame: Blame,
    /// The error in words.
    pub message: String,
}

/// An error, with its message as a sequence of characters.
pub struct ErrorText {
    pub blame: Blame,
    pub message: Seq<char>,
}

impl View for Error {
    type V = ErrorText;

    open spec fn view(&self) -> ErrorText {
        ErrorText { blame: self.blame, message: self.message@ }
    }
}

/// An error of an argument.
pub open spec fn bad_value(message: Seq<char>) -> ErrorText {
    ErrorText { blame: Blame::Value, message }
}

impl Error {
    /// An error of an argument.
    pub fn value_error(message: String) -> (e: Error)
        ensures
            e@ == bad_value(message@),
    {
        Error { blame: Blame::Value, message }
    }

    /// An error of the worker.
    pub fn runtime_error(message: String) -> (e: Error)
        ensures
            e@ == (ErrorText { blame: Blame::Runtime, message: message@ }),
    {
        Error { blame: Blame::Runtime, message }
    }
}

} // verus!

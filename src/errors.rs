//! The errors of the library, by kind.
use vstd::prelude::*;

verus! {

/// What went wrong, by the part of a run that it concerns.
#[derive(Clone, Copy, Debug, PartialEq, Eq, Structural)]
pub enum ErrorKind {
    /// The configuration asks for something that cannot be done.
    Configuration,
    /// Reading, writing or starting something failed.
    Io,
    /// Data that a tool produced could not be read.
    Data,
    /// A process ended with a failure status where success was expected.
    Execution,
    /// An unknown tool or runtime was asked for.
    NotFound,
}

/// An error with a message for the user.
#[derive(Debug)]
pub struct Error {
    pub kind: ErrorKind,
    pub message: String,
}

impl Error {
    pub fn new(kind: ErrorKind, message: &str) -> (r: Error)
        ensures
            r.kind == kind,
            r.message@ == message@,
    {
        Error { kind, message: message.to_owned() }
    }

    /// The message for the user.
    pub fn message(&self) -> (r: &str)
        ensures
            r@ == self.message@,
    {
        self.message.as_str()
    }
}

} // verus!

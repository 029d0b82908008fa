//! The error that a rejected action is answered with.
use vstd::prelude::*;

verus! {

/// What went wrong, as far as a caller may want to react to it.
#[derive(Debug, Clone, Copy, PartialEq, Eq, Structural)]
pub enum ErrorKind {
    /// The data that an action was given is not valid.
    DataInvalid,
    /// The action was not in a state in which it can be committed.
    PreconditionFailed,
}

/// A rejected action.
#[derive(Debug, PartialEq, Eq)]
pub struct Error {
    pub kind: ErrorKind,
    pub message: String,
}

/// The model of an [`Error`].
#[verifier::ext_equal]
pub struct ErrorView {
    pub kind: ErrorKind,
    pub message: Seq<char>,
}

impl View for Error {
    type V = ErrorView;

    open spec fn view(&self) -> ErrorView {
        ErrorView { kind: self.kind, message: self.message@ }
    }
}

/// An error about invalid data.
pub open spec fn invalid(message: Seq<char>) -> ErrorView {
    ErrorView { kind: ErrorKind::DataInvalid, message }
}

impl Error {
    /// An error of the given kind with the given message.
    pub fn new(kind: ErrorKind, message: String) -> (result: Self)
        ensures
            result@ == (ErrorView { kind, message: message@ }),
    {
        Self { kind, message }
    }
}

} // verus!

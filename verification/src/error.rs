//! The errors that requests are answered with.

use vstd::prelude::*;

verus! {

/// What went wrong, in the terms of the client-server protocol.
#[derive(Clone, Copy, Debug, PartialEq, Eq, Structural)]
pub enum ErrorKind {
    BadAlias,
    BadJson,
    Database,
    DuplicateAnnotation,
    Forbidden,
    InvalidParam,
    InviteBlocked,
    LimitExceeded,
    MissingToken,
    NotFound,
    Unknown,
}

/// An error kind with the message for the client.
#[derive(Debug)]
pub struct Error {
    pub kind: ErrorKind,
    pub message: String,
}

/// What an [`Error`] says.
pub struct ErrorView {
    pub kind: ErrorKind,
    pub message: Seq<char>,
}

impl View for Error {
    type V = ErrorView;

    open spec fn view(&self) -> ErrorView {
        ErrorView { kind: self.kind, message: self.message@ }
    }
}

impl DeepView for Error {
    type V = ErrorView;

    open spec fn deep_view(&self) -> ErrorView {
        self@
    }
}

/// The error of the given kind with the given message.
pub open spec fn failure(kind: ErrorKind, message: Seq<char>) -> ErrorView {
    ErrorView { kind, message }
}

/// A result, with its value and its error taken by their views.
pub open spec fn seen<T: DeepView>(result: Result<T, Error>) -> Result<T::V, ErrorView> {
    match result {
        Ok(value) => Ok(value.deep_view()),
        Err(error) => Err(error@),
    }
}

impl Error {
    /// An error with a fixed message.
    pub fn new(kind: ErrorKind, message: &str) -> (error: Error)
        ensures
            error@ == failure(kind, message@),
    {
        Error { kind, message: message.to_owned() }
    }

    /// The HTTP status that this error asks for by itself, where it does: only
    /// a limit that is exceeded does, with "too many requests". Every other
    /// error leaves the status to its kind.
    pub fn explicit_status(&self) -> (status: Option<u16>)
        ensures
            status == (if self@.kind == ErrorKind::LimitExceeded {
                Some(429u16)
            } else {
                None
            }),
    {
        if self.kind == ErrorKind::LimitExceeded {
            Some(429)
        } else {
            None
        }
    }
}

} // verus!

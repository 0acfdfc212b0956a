//! The error type of the library.

use vstd::prelude::*;

verus! {

/// What kind of condition an [`Error`] reports.
#[derive(Clone, Copy, Debug, PartialEq, Eq, Structural)]
pub enum ErrorKind {
    /// A condition without a kind of its own.
    Generic,
    /// A value that has to be there is absent.
    MissingData,
    /// A broken assumption between parts of the library.
    Internal,
    /// A deletion vector that cannot be used.
    DeletionVector,
    /// A request that the state of the transaction does not allow.
    InvalidTransactionState,
    /// A selection vector that does not fit its batch.
    InvalidSelectionVector,
    /// A failure of the engine that evaluates, reads or writes batches.
    Engine,
}

/// An error: its kind and a message for people.
#[derive(Debug)]
pub struct Error {
    /// The kind of condition.
    pub kind: ErrorKind,
    /// The message.
    pub message: String,
}

/// The mathematical content of an [`Error`].
#[verifier::ext_equal]
pub ghost struct ErrorModel {
    pub kind: ErrorKind,
    pub message: Seq<char>,
}

/// Result type of the fallible operations of the library.
pub type DeltaResult<T> = Result<T, Error>;

impl View for Error {
    type V = ErrorModel;

    open spec fn view(&self) -> ErrorModel {
        ErrorModel { kind: self.kind, message: self.message@ }
    }
}

impl Clone for Error {
    fn clone(&self) -> (copy: Self)
        ensures
            copy@ == self@,
    {
        Error { kind: self.kind, message: self.message.clone() }
    }
}

/// The model of a result: the model of its value or of its error.
pub open spec fn outcome<T: View>(result: Result<T, Error>) -> Result<T::V, ErrorModel> {
    match result {
        Ok(value) => Ok(value@),
        Err(error) => Err(error@),
    }
}

/// The model of an optional value.
pub open spec fn viewed<T: View>(value: Option<T>) -> Option<T::V> {
    match value {
        Some(v) => Some(v@),
        None => None,
    }
}

/// The model of a generic error.
pub open spec fn generic(message: Seq<char>) -> ErrorModel {
    ErrorModel { kind: ErrorKind::Generic, message }
}

impl Error {
    /// Makes an error of the given kind.
    pub fn new(kind: ErrorKind, message: String) -> (error: Error)
        ensures
            error@ == (ErrorModel { kind, message: message@ }),
    {
        Error { kind, message }
    }

    /// Makes a generic error.
    pub fn generic(message: String) -> (error: Error)
        ensures
            error@ == generic(message@),
    {
        Error { kind: ErrorKind::Generic, message }
    }

    /// The message of the error.
    pub fn to_string(&self) -> (text: String)
        ensures
            text@ == self@.message,
    {
        self.message.clone()
    }
}

} // verus!

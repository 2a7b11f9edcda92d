//! Failures of file operations, held as plain values: the kind of the
//! failure and the text that `Display` shows for it.
use vstd::prelude::*;

verus! {

#[verifier::external_type_specification]
#[verifier::external_body]
pub struct ExIoErrorKind(std::io::ErrorKind);

/// The kind of a failure (`std::io::ErrorKind`).
#[derive(Debug, PartialEq, Eq)]
pub enum ErrorKind {
    /// `std::io::ErrorKind::Other`.
    Other,
    /// `std::io::ErrorKind::AlreadyExists`.
    AlreadyExists,
    /// `std::io::ErrorKind::NotFound`.
    NotFound,
    /// Any kind, carried through unchanged.
    Io(std::io::ErrorKind),
}

/// A failed file operation: its kind and its message.
#[derive(Debug, PartialEq, Eq)]
pub struct InstallError {
    pub kind: ErrorKind,
    pub message: String,
}

impl InstallError {
    /// `io::Error::other(message)`.
    pub fn other(message: String) -> (e: InstallError)
        ensures
            e.kind == ErrorKind::Other,
            e.message@ == message@,
    {
        InstallError { kind: ErrorKind::Other, message }
    }
}

} // verus!

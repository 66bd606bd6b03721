//! The error taxonomy shared by every component of the core.

use vstd::prelude::*;

verus! {

/// Why an operation on the document store failed. Every variant is surfaced
/// to the requesting client as a string in the matching response message.
#[derive(Clone, Copy, PartialEq, Eq, Structural, Debug)]
pub enum EditorError {
    /// An offset or length exceeds the rope length, or a range is reversed.
    OutOfRange,
    /// The operation requires an open file and the session has none.
    NotOpen,
    /// The resolved path does not lie under the session's canonical home.
    PathEscape,
    /// A delete or rename was refused because some session has the file open.
    Busy,
    /// A rename was refused because the target file already exists.
    AlreadyExists,
    /// The session id is missing from the table it should be registered in.
    UnknownSession,
    /// The path is missing from the file table.
    UnknownFile,
}

impl EditorError {
    /// The wire string for this error, as it appears in response messages.
    pub fn message(&self) -> (r: String)
        ensures
            r@ == self.spec_message(),
    {
        match self {
            EditorError::OutOfRange => "Out of range".to_owned(),
            EditorError::NotOpen => "File not open".to_owned(),
            EditorError::PathEscape => "Invalid file path".to_owned(),
            EditorError::Busy => "File is busy".to_owned(),
            EditorError::AlreadyExists => "File already exists".to_owned(),
            EditorError::UnknownSession => "ID not found in clients".to_owned(),
            EditorError::UnknownFile => "Thread local storage does not exist".to_owned(),
        }
    }

    /// The wire string for this error, at the specification level.
    pub open spec fn spec_message(&self) -> Seq<char> {
        match self {
            EditorError::OutOfRange => "Out of range"@,
            EditorError::NotOpen => "File not open"@,
            EditorError::PathEscape => "Invalid file path"@,
            EditorError::Busy => "File is busy"@,
            EditorError::AlreadyExists => "File already exists"@,
            EditorError::UnknownSession => "ID not found in clients"@,
            EditorError::UnknownFile => "Thread local storage does not exist"@,
        }
    }
}

} // verus!

//! The error kinds a run of the client can end with.

use vstd::prelude::*;

verus! {

/// Everything that can go wrong between reading the arguments and printing
/// the share link. Argument errors are produced by [`crate::Options::new`];
/// the transfer errors by the functions in [`crate::transfer`].
#[derive(Clone, Copy, Debug, PartialEq, Eq, Structural)]
pub enum HasteError {
    /// No operand followed the program name.
    MissingArguments,
    /// The first operand was a URL, but no filename followed it.
    MissingFilename,
    /// The file to upload could not be opened or read.
    FileNotFound,
    /// The request never reached a server (bad URL, connect failure).
    InvalidUrl,
    /// The request was built but could not be delivered.
    RequestFailed,
    /// The server answered with a status outside the success range.
    UnsuccessfulRequest,
    /// The response body was not a JSON object carrying a "key" string.
    InvalidResponse,
    /// Downloading is not implemented.
    NotImplemented,
}

impl HasteError {
    /// A short user-facing description of the error.
    pub fn message(&self) -> (m: &'static str)
        ensures
            m@ == match *self {
                HasteError::MissingArguments => "Missing arguments"@,
                HasteError::MissingFilename => "Missing filename"@,
                HasteError::FileNotFound => "Could not open file"@,
                HasteError::InvalidUrl => "Invalid URL"@,
                HasteError::RequestFailed => "Could not POST"@,
                HasteError::UnsuccessfulRequest => "POST was unsuccessful"@,
                HasteError::InvalidResponse => "Invalid response"@,
                HasteError::NotImplemented => "To be implemented"@,
            },
    {
        match *self {
            HasteError::MissingArguments => "Missing arguments",
            HasteError::MissingFilename => "Missing filename",
            HasteError::FileNotFound => "Could not open file",
            HasteError::InvalidUrl => "Invalid URL",
            HasteError::RequestFailed => "Could not POST",
            HasteError::UnsuccessfulRequest => "POST was unsuccessful",
            HasteError::InvalidResponse => "Invalid response",
            HasteError::NotImplemented => "To be implemented",
        }
    }
}

} // verus!

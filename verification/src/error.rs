//! The library's error type.

use vstd::prelude::*;

verus! {

/// What went wrong.
#[derive(Clone, Copy, Debug, PartialEq, Eq, Structural)]
pub enum ErrorKind {
    /// A string holds characters that the chosen font cannot encode.
    UnsupportedEncoding,
    /// The PDF backend failed (loading a font, writing the document).
    PdfError,
}

/// An error with a message and a kind.
#[derive(Debug)]
pub struct Error {
    pub msg: String,
    pub kind: ErrorKind,
}

impl Error {
    /// Creates an error of the given kind with the given message.
    pub fn new(msg: String, kind: ErrorKind) -> (e: Error)
        ensures
            e.msg@ == msg@,
            e.kind == kind,
    {
        Error { msg, kind }
    }
}

} // verus!

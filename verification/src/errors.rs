//! The error type shared by every fallible operation.

use vstd::prelude::*;
use vstd::string::StringExecFns;

verus! {

/// The taxonomy of failures, without the message.
#[derive(Clone, Copy, Debug, PartialEq, Eq, Structural)]
pub enum ErrorKind {
    ParseError,
    InvalidPointer,
    KeyNotFound,
    TypeError,
    IoError,
}

/// What a [`SonicError`] is in contracts: its kind and the characters of its message.
pub struct Failure {
    pub kind: ErrorKind,
    pub text: Seq<char>,
}

/// Errors that can occur during JSON operations.
#[derive(Debug)]
pub enum SonicError {
    /// Malformed JSON, oversized input, or nesting beyond the depth limit.
    ParseError(String),
    /// A pointer that does not start with `/`, a negative index, or too many path segments.
    InvalidPointer(String),
    /// The path does not lead to a value in the document.
    KeyNotFound(String),
    /// The value found is not of the type asked for.
    TypeError(String),
    /// Reserved for failures at the host's I/O boundary.
    IoError(String),
}

impl View for SonicError {
    type V = Failure;

    open spec fn view(&self) -> Failure {
        match self {
            SonicError::ParseError(m) => Failure { kind: ErrorKind::ParseError, text: m@ },
            SonicError::InvalidPointer(m) => Failure { kind: ErrorKind::InvalidPointer, text: m@ },
            SonicError::KeyNotFound(m) => Failure { kind: ErrorKind::KeyNotFound, text: m@ },
            SonicError::TypeError(m) => Failure { kind: ErrorKind::TypeError, text: m@ },
            SonicError::IoError(m) => Failure { kind: ErrorKind::IoError, text: m@ },
        }
    }
}

/// The fixed words that precede the message of each kind when an error is rendered.
pub open spec fn kind_prefix(kind: ErrorKind) -> Seq<char> {
    match kind {
        ErrorKind::ParseError => "JSON parse error: "@,
        ErrorKind::InvalidPointer => "Invalid JSON pointer: "@,
        ErrorKind::KeyNotFound => "Key not found: "@,
        ErrorKind::TypeError => "Type conversion error: "@,
        ErrorKind::IoError => "IO error: "@,
    }
}

/// The rendering of a failure: the prefix of its kind, then its message.
pub open spec fn rendered(f: Failure) -> Seq<char> {
    kind_prefix(f.kind) + f.text
}

impl SonicError {
    /// The kind of this error.
    pub fn kind(&self) -> (k: ErrorKind)
        ensures
            k == self@.kind,
    {
        match self {
            SonicError::ParseError(_) => ErrorKind::ParseError,
            SonicError::InvalidPointer(_) => ErrorKind::InvalidPointer,
            SonicError::KeyNotFound(_) => ErrorKind::KeyNotFound,
            SonicError::TypeError(_) => ErrorKind::TypeError,
            SonicError::IoError(_) => ErrorKind::IoError,
        }
    }

    /// The message carried by this error, without the prefix of its kind.
    pub fn message(&self) -> (m: &str)
        ensures
            m@ == self@.text,
    {
        match self {
            SonicError::ParseError(m) => m.as_str(),
            SonicError::InvalidPointer(m) => m.as_str(),
            SonicError::KeyNotFound(m) => m.as_str(),
            SonicError::TypeError(m) => m.as_str(),
            SonicError::IoError(m) => m.as_str(),
        }
    }

    /// The human-readable line for this error: prefix and message.
    pub fn to_string(&self) -> (s: String)
        ensures
            s@ == rendered(self@),
    {
        let prefix = match self {
            SonicError::ParseError(_) => "JSON parse error: ",
            SonicError::InvalidPointer(_) => "Invalid JSON pointer: ",
            SonicError::KeyNotFound(_) => "Key not found: ",
            SonicError::TypeError(_) => "Type conversion error: ",
            SonicError::IoError(_) => "IO error: ",
        };
        let mut s = String::from_str(prefix);
        s.append(self.message());
        s
    }
}

} // verus!

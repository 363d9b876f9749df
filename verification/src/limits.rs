//! The limits that bound the cost of every operation.

use vstd::prelude::*;
use vstd::string::StringExecFns;
use crate::errors::{ErrorKind, Failure, SonicError};
use crate::text::{decimal_text, push_decimal};

verus! {

/// Deepest nesting of arrays and objects that is turned into a host value.
pub const MAX_DEPTH: usize = 512;

/// Largest document, in bytes, that is parsed or searched: 64 MiB.
pub const MAX_INPUT_SIZE: usize = 67108864;

/// Most segments that one pointer string may hold.
pub const MAX_POINTER_SEGMENTS: usize = 256;

/// Most steps that the path of a cursor may hold.
pub const MAX_PATH_SEGMENTS: usize = 256;

/// The message for a document of `len` bytes that is over the size limit.
pub open spec fn size_message(len: nat) -> Seq<char> {
    "Input size ("@ + decimal_text(len) + " bytes) exceeds maximum allowed ("@ + decimal_text(
        MAX_INPUT_SIZE as nat,
    ) + " bytes)"@
}

/// The failure for a document of `len` bytes that is over the size limit.
pub open spec fn oversized(len: nat) -> Failure {
    Failure { kind: ErrorKind::ParseError, text: size_message(len) }
}

/// The failure for nesting beyond [`MAX_DEPTH`].
pub open spec fn too_deep() -> Failure {
    Failure {
        kind: ErrorKind::ParseError,
        text: "Maximum nesting depth ("@ + decimal_text(MAX_DEPTH as nat) + ") exceeded"@,
    }
}

/// The failure for a path that would grow beyond [`MAX_PATH_SEGMENTS`].
pub open spec fn path_too_long() -> Failure {
    Failure {
        kind: ErrorKind::InvalidPointer,
        text: "Path has too many segments (max "@ + decimal_text(MAX_PATH_SEGMENTS as nat) + ")"@,
    }
}

/// Accepts a document of `len` bytes exactly when it is within [`MAX_INPUT_SIZE`].
pub fn check_input_size(len: usize) -> (r: Result<(), SonicError>)
    ensures
        len <= MAX_INPUT_SIZE ==> r is Ok,
        len > MAX_INPUT_SIZE ==> (r matches Err(e) && e@ == oversized(len as nat)),
{
    if len > MAX_INPUT_SIZE {
        let mut m = String::from_str("Input size (");
        push_decimal(&mut m, len as u64);
        m.append(" bytes) exceeds maximum allowed (");
        push_decimal(&mut m, MAX_INPUT_SIZE as u64);
        m.append(" bytes)");
        return Err(SonicError::ParseError(m));
    }
    Ok(())
}

/// The error for nesting beyond [`MAX_DEPTH`].
pub fn depth_exceeded() -> (e: SonicError)
    ensures
        e@ == too_deep(),
{
    let mut m = String::from_str("Maximum nesting depth (");
    push_decimal(&mut m, MAX_DEPTH as u64);
    m.append(") exceeded");
    SonicError::ParseError(m)
}

/// The error for a path that would grow beyond [`MAX_PATH_SEGMENTS`].
pub fn path_limit_exceeded() -> (e: SonicError)
    ensures
        e@ == path_too_long(),
{
    let mut m = String::from_str("Path has too many segments (max ");
    push_decimal(&mut m, MAX_PATH_SEGMENTS as u64);
    m.append(")");
    SonicError::InvalidPointer(m)
}

} // verus!

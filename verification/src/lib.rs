//! Lazy JSON navigation: a cursor accumulates path steps over a shared
//! document and resolves them against the raw text only on hydration.

use vstd::prelude::*;
use crate::errors::SonicError;
use crate::host::HostValue;
use crate::limits::MAX_INPUT_SIZE;
use crate::parser::{byte_len, decoded, extracted, outcome, parsed_ok};
use crate::query::{root, Query};

pub mod errors;
pub mod host;
pub mod limits;
pub mod number;
pub mod parser;
pub mod pointer;
pub mod query;
pub mod sonic;
pub mod text;

verus! {

/// The entry point for lazy JSON operations.
pub struct Sift;

impl Sift {
    /// A lazy cursor at the root of `json`; nothing is parsed.
    pub fn query(json: String) -> (q: Query)
        ensures
            q@ == root(json@),
    {
        Query::new(json)
    }

    /// Extracts the value at `pointer`; see [`parser::get_by_pointer`].
    pub fn get(json: &str, pointer: &str) -> (r: Result<HostValue, SonicError>)
        ensures
            outcome(r) == extracted(json@, pointer@),
    {
        parser::get_by_pointer(json, pointer)
    }

    /// Full decode; see [`parser::decode`].
    pub fn decode(json: &str) -> (r: Result<HostValue, SonicError>)
        ensures
            outcome(r) == decoded(json@),
    {
        parser::decode(json)
    }

    /// Whether `json` is one JSON document within the size limit.
    pub fn is_valid(json: &str) -> (ok: bool)
        ensures
            ok == (byte_len(json@) <= MAX_INPUT_SIZE && parsed_ok(json@)),
    {
        parser::is_valid(json)
    }
}

/// The same one-shot operations under their older name.
pub struct Sonic;

impl Sonic {
    /// Extracts the value at `pointer` without a full decode.
    pub fn get(json: &str, pointer: &str) -> (r: Result<HostValue, SonicError>)
        ensures
            outcome(r) == extracted(json@, pointer@),
    {
        parser::get_by_pointer(json, pointer)
    }

    /// Full decode.
    pub fn decode(json: &str) -> (r: Result<HostValue, SonicError>)
        ensures
            outcome(r) == decoded(json@),
    {
        parser::decode(json)
    }

    /// Whether `json` is one JSON document within the size limit.
    pub fn is_valid(json: &str) -> (ok: bool)
        ensures
            ok == (byte_len(json@) <= MAX_INPUT_SIZE && parsed_ok(json@)),
    {
        parser::is_valid(json)
    }
}

} // verus!

//! The lazy cursor: a shared document and the path accumulated so far. Navigation
//! only extends the path; the document is first looked at when a value is asked for.

use std::sync::Arc;
use vstd::prelude::*;
use vstd::string::StringExecFns;
use crate::errors::{ErrorKind, Failure, SonicError};
use crate::host::{well_formed, HostValue, HostView};
use crate::limits::{
    check_input_size,
    oversized,
    path_limit_exceeded,
    path_too_long,
    MAX_INPUT_SIZE,
    MAX_PATH_SEGMENTS,
};
use crate::parser::{
    byte_len,
    decode,
    decoded,
    extracted,
    not_found,
    outcome,
    scan_failed,
    scan_failure,
};
use crate::pointer::{
    bad_start,
    bad_start_error,
    escape,
    lemma_index_pointer,
    lemma_key_pointer,
    lemma_pointer_concat,
    parsed_pointer,
    plain_index,
    pointer_steps,
    segment_count,
    segments_of,
    steps_of,
    well_formed_pointer,
    PathSegment,
    Step,
};
use crate::sonic::{
    located,
    locate,
    raw_text,
    span_as_bool,
    span_as_double,
    span_as_i64,
    span_as_str,
    span_as_u64,
    span_bool,
    span_double,
    span_i64,
    span_kind,
    span_raw,
    span_str,
    span_type,
    span_u64,
    well_formed_span,
    JsonType,
};
use crate::text::{chars_of, decimal_text, push_signed_decimal, signed_decimal_text};

verus! {

/// A cursor, as contracts see it: the text of its document and the steps of its path.
pub struct Cursor {
    pub json: Seq<char>,
    pub path: Seq<Step>,
}

/// A lazy JSON cursor. Every navigation returns a new cursor over the same document;
/// none of them reads the document.
#[derive(Debug)]
pub struct Query {
    json: Arc<String>,
    path: Vec<PathSegment>,
}

impl View for Query {
    type V = Cursor;

    closed spec fn view(&self) -> Cursor {
        Cursor { json: self.json@, path: steps_of(self.path@) }
    }
}

impl Query {
    /// No cursor holds more than [`MAX_PATH_SEGMENTS`] steps.
    #[verifier::type_invariant]
    spec fn within_limit(&self) -> bool {
        self.path.len() <= MAX_PATH_SEGMENTS
    }
}

/// `Arc::clone`: another pointer to the same document.
#[verifier::external_body]
fn share(json: &Arc<String>) -> (r: Arc<String>)
    ensures
        r == *json,
{
    Arc::clone(json)
}

/// The failure that refuses the negative array index `idx`.
pub open spec fn negative_index(idx: int) -> Failure {
    Failure {
        kind: ErrorKind::InvalidPointer,
        text: "Array index must be non-negative, got "@ + signed_decimal_text(idx),
    }
}

/// The failure for a hydration that asked for another type than the value has.
pub open spec fn wrong_type(text: Seq<char>) -> Failure {
    Failure { kind: ErrorKind::TypeError, text }
}

/// The cursor for a whole document.
pub open spec fn root(json: Seq<char>) -> Cursor {
    Cursor { json, path: Seq::empty() }
}

/// `c` with one more step, or the failure where its path is full.
pub open spec fn stepped(c: Cursor, step: Step) -> Result<Cursor, Failure> {
    if c.path.len() >= MAX_PATH_SEGMENTS {
        Err(path_too_long())
    } else {
        Ok(Cursor { json: c.json, path: c.path.push(step) })
    }
}

/// Where navigation by the key `key` leads from `c`.
pub open spec fn navigated_by_key(c: Cursor, key: Seq<char>) -> Result<Cursor, Failure> {
    stepped(c, Step::Key(key))
}

/// Where navigation by the index `idx` leads from `c`.
pub open spec fn navigated_by_index(c: Cursor, idx: int) -> Result<Cursor, Failure> {
    if idx < 0 {
        Err(negative_index(idx))
    } else {
        stepped(c, Step::Index(idx as nat))
    }
}

/// Where navigation by the pointer `ptr` leads from `c`: nowhere new for the empty
/// pointer, else along all the steps of `ptr`, unless the path would grow beyond
/// [`MAX_PATH_SEGMENTS`].
pub open spec fn navigated_by_pointer(c: Cursor, ptr: Seq<char>) -> Result<Cursor, Failure> {
    if ptr.len() == 0 {
        Ok(c)
    } else if ptr[0] != '/' {
        Err(bad_start())
    } else if c.path.len() + pointer_steps(ptr).len() > MAX_PATH_SEGMENTS {
        Err(path_too_long())
    } else {
        Ok(Cursor { json: c.json, path: c.path + pointer_steps(ptr) })
    }
}

/// The raw text that `c` resolves to, or why it does not.
///
/// A document over the size limit is refused before any scan. A scan that finds no
/// such key or index, or a step that does not fit the value, is reported as not found;
/// one that meets malformed JSON is a parse failure with the scanner's rendering.
pub open spec fn resolved(c: Cursor) -> Result<Seq<char>, Failure> {
    if byte_len(c.json) > MAX_INPUT_SIZE {
        Err(oversized(byte_len(c.json)))
    } else {
        match located(c.json, c.path) {
            Ok(raw) => Ok(raw),
            Err(why) => Err(scan_failed(why)),
        }
    }
}

/// The string that a span holds, or the failure for a span of another type.
pub open spec fn read_string(raw: Seq<char>) -> Result<Seq<char>, Failure> {
    match span_str(raw) {
        Some(s) => Ok(s),
        None => Err(wrong_type("Value is not a string"@)),
    }
}

/// The signed integer that a span holds, or the failure for any other span.
pub open spec fn read_int(raw: Seq<char>) -> Result<i64, Failure> {
    match span_i64(raw) {
        Some(n) => Ok(n),
        None => Err(wrong_type("Value is not an integer"@)),
    }
}

/// The double that a span holds, as its bit pattern, or the failure for a span that
/// is no number.
pub open spec fn read_float(raw: Seq<char>) -> Result<u64, Failure> {
    match span_double(raw) {
        Some(bits) => Ok(bits),
        None => Err(wrong_type("Value is not a float"@)),
    }
}

/// The boolean that a span holds, or the failure for any other span.
pub open spec fn read_bool(raw: Seq<char>) -> Result<bool, Failure> {
    match span_bool(raw) {
        Some(b) => Ok(b),
        None => Err(wrong_type("Value is not a boolean"@)),
    }
}

/// The name of the type of a value of type `kind`; for a number, `integer` says that it
/// is an integer within 64 bits and `double` that it is some other number.
pub open spec fn kind_name_of(kind: JsonType, integer: bool, double: bool) -> Seq<char> {
    match kind {
        JsonType::Null => "null"@,
        JsonType::Boolean => "boolean"@,
        JsonType::Number => if integer {
            "integer"@
        } else if double {
            "float"@
        } else {
            "unknown"@
        },
        JsonType::String => "string"@,
        JsonType::Array => "array"@,
        JsonType::Object => "object"@,
    }
}

/// The name of the type of the value that a span holds.
pub open spec fn span_kind_name(raw: Seq<char>) -> Seq<char> {
    kind_name_of(
        span_type(raw),
        span_i64(raw) is Some || span_u64(raw) is Some,
        span_double(raw) is Some,
    )
}

/// What hydration of `c` as a string gives.
pub open spec fn hydrated_string(c: Cursor) -> Result<Seq<char>, Failure> {
    match resolved(c) {
        Ok(raw) => read_string(raw),
        Err(e) => Err(e),
    }
}

/// What hydration of `c` as a signed integer gives.
pub open spec fn hydrated_int(c: Cursor) -> Result<i64, Failure> {
    match resolved(c) {
        Ok(raw) => read_int(raw),
        Err(e) => Err(e),
    }
}

/// What hydration of `c` as a double gives, the double as its bit pattern.
pub open spec fn hydrated_float(c: Cursor) -> Result<u64, Failure> {
    match resolved(c) {
        Ok(raw) => read_float(raw),
        Err(e) => Err(e),
    }
}

/// What hydration of `c` as a boolean gives.
pub open spec fn hydrated_bool(c: Cursor) -> Result<bool, Failure> {
    match resolved(c) {
        Ok(raw) => read_bool(raw),
        Err(e) => Err(e),
    }
}

/// What asking for the type of the value at `c` gives.
pub open spec fn hydrated_type(c: Cursor) -> Result<JsonType, Failure> {
    match resolved(c) {
        Ok(raw) => Ok(span_type(raw)),
        Err(e) => Err(e),
    }
}

/// What asking for the name of the type of the value at `c` gives.
pub open spec fn hydrated_type_name(c: Cursor) -> Result<Seq<char>, Failure> {
    match resolved(c) {
        Ok(raw) => Ok(span_kind_name(raw)),
        Err(e) => Err(e),
    }
}

/// The full hydration of `c`: at the root the decode of the whole document, along a
/// path the decode of the raw text that the path resolves to.
pub open spec fn hydrated_value(c: Cursor) -> Result<HostView, Failure> {
    if c.path.len() == 0 {
        decoded(c.json)
    } else {
        match resolved(c) {
            Ok(raw) => decoded(raw),
            Err(e) => Err(e),
        }
    }
}

/// What navigation gives, as contracts see it.
pub open spec fn arrival(r: Result<Query, SonicError>) -> Result<Cursor, Failure> {
    match r {
        Ok(q) => Ok(q@),
        Err(e) => Err(e@),
    }
}

/// The string asked for, or the error for a value that is none.
pub fn expect_string(found: Option<String>) -> (r: Result<String, SonicError>)
    ensures
        found matches Some(s) ==> r == Ok::<String, SonicError>(s),
        found is None ==> (r matches Err(e) && e@ == wrong_type("Value is not a string"@)),
{
    match found {
        Some(s) => Ok(s),
        None => Err(SonicError::TypeError(String::from_str("Value is not a string"))),
    }
}

/// The integer asked for, or the error for a value that is none.
pub fn expect_int(found: Option<i64>) -> (r: Result<i64, SonicError>)
    ensures
        found matches Some(n) ==> r == Ok::<i64, SonicError>(n),
        found is None ==> (r matches Err(e) && e@ == wrong_type("Value is not an integer"@)),
{
    match found {
        Some(n) => Ok(n),
        None => Err(SonicError::TypeError(String::from_str("Value is not an integer"))),
    }
}

/// The double asked for, as its bit pattern, or the error for a value that is none.
pub fn expect_float(found: Option<u64>) -> (r: Result<u64, SonicError>)
    ensures
        found matches Some(bits) ==> r == Ok::<u64, SonicError>(bits),
        found is None ==> (r matches Err(e) && e@ == wrong_type("Value is not a float"@)),
{
    match found {
        Some(bits) => Ok(bits),
        None => Err(SonicError::TypeError(String::from_str("Value is not a float"))),
    }
}

/// The boolean asked for, or the error for a value that is none.
pub fn expect_bool(found: Option<bool>) -> (r: Result<bool, SonicError>)
    ensures
        found matches Some(b) ==> r == Ok::<bool, SonicError>(b),
        found is None ==> (r matches Err(e) && e@ == wrong_type("Value is not a boolean"@)),
{
    match found {
        Some(b) => Ok(b),
        None => Err(SonicError::TypeError(String::from_str("Value is not a boolean"))),
    }
}

/// The name of a type; see [`kind_name_of`].
pub fn kind_name(kind: JsonType, integer: bool, double: bool) -> (name: String)
    ensures
        name@ == kind_name_of(kind, integer, double),
{
    let name = match kind {
        JsonType::Null => "null",
        JsonType::Boolean => "boolean",
        JsonType::Number => if integer {
            "integer"
        } else if double {
            "float"
        } else {
            "unknown"
        },
        JsonType::String => "string",
        JsonType::Array => "array",
        JsonType::Object => "object",
    };
    String::from_str(name)
}

/// The error that refuses `idx` as an array index.
pub fn negative_index_error(idx: i64) -> (e: SonicError)
    ensures
        e@ == negative_index(idx as int),
{
    let mut m = String::from_str("Array index must be non-negative, got ");
    push_signed_decimal(&mut m, idx);
    SonicError::InvalidPointer(m)
}

fn clone_path(path: &Vec<PathSegment>) -> (out: Vec<PathSegment>)
    ensures
        out@ == path@,
{
    let mut out: Vec<PathSegment> = Vec::new();
    let mut i: usize = 0;
    while i < path.len()
        invariant
            i <= path.len(),
            out@ == path@.take(i as int),
        decreases path.len() - i,
    {
        out.push(path[i].clone());
        i = i + 1;
    }
    out
}

impl Clone for Query {
    fn clone(&self) -> (r: Self)
        ensures
            r@ == self@,
    {
        proof {
            use_type_invariant(self);
        }
        Query { json: share(&self.json), path: clone_path(&self.path) }
    }
}

impl Query {
    /// A cursor at the root of `json`. The document is stored as it is: neither its
    /// size nor its syntax is looked at before a value is asked for.
    pub fn new(json: String) -> (q: Query)
        ensures
            q@ == root(json@),
    {
        let q = Query { json: Arc::new(json), path: Vec::new() };
        assert(steps_of(q.path@) == Seq::<Step>::empty());
        q
    }

    /// The number of steps accumulated so far, never more than [`MAX_PATH_SEGMENTS`].
    pub fn path_len(&self) -> (n: usize)
        ensures
            n == self@.path.len(),
            n <= MAX_PATH_SEGMENTS,
    {
        proof {
            use_type_invariant(self);
        }
        self.path.len()
    }

    fn validate_input_size(&self) -> (r: Result<(), SonicError>)
        ensures
            byte_len(self@.json) <= MAX_INPUT_SIZE ==> r is Ok,
            byte_len(self@.json) > MAX_INPUT_SIZE ==> (r matches Err(e) && e@ == oversized(
                byte_len(self@.json),
            )),
    {
        check_input_size(self.json.as_str().as_bytes().len())
    }

    fn resolve(&self) -> (r: Result<sonic_rs::LazyValue<'_>, SonicError>)
        ensures
            r matches Ok(span) ==> resolved(self@) == Ok::<Seq<char>, Failure>(raw_text(span))
                && well_formed_span(raw_text(span)),
            r matches Err(e) ==> resolved(self@) == Err::<Seq<char>, Failure>(e@),
    {
        match self.validate_input_size() {
            Err(e) => {
                return Err(e);
            },
            Ok(_) => {},
        }
        match locate(self.json.as_str(), &self.path) {
            Ok(span) => Ok(span),
            Err(e) => Err(scan_failure(&e)),
        }
    }

    fn extended(&self, seg: PathSegment) -> (r: Result<Query, SonicError>)
        ensures
            arrival(r) == stepped(self@, seg@),
    {
        if self.path.len() >= MAX_PATH_SEGMENTS {
            return Err(path_limit_exceeded());
        }
        let mut path = clone_path(&self.path);
        assert(steps_of(path@.push(seg)) == steps_of(path@).push(seg@));
        path.push(seg);
        Ok(Query { json: share(&self.json), path })
    }

    /// Navigates by a pointer string. The path is accumulated, not resolved.
    pub fn pointer(&self, ptr: &str) -> (r: Result<Query, SonicError>)
        ensures
            arrival(r) == navigated_by_pointer(self@, ptr@),
    {
        let chars = chars_of(ptr);
        if chars.len() == 0 {
            return Ok(self.clone());
        }
        if chars[0] != '/' {
            return Err(bad_start_error());
        }
        let n = segment_count(&chars);
        if n > MAX_PATH_SEGMENTS || self.path.len() > MAX_PATH_SEGMENTS - n {
            return Err(path_limit_exceeded());
        }
        let mut path = clone_path(&self.path);
        let mut more = segments_of(&chars);
        assert(steps_of(path@ + more@) == steps_of(path@) + steps_of(more@));
        path.append(&mut more);
        Ok(Query { json: share(&self.json), path })
    }

    /// Navigates into the member `key` of an object.
    pub fn get(&self, key: &str) -> (r: Result<Query, SonicError>)
        ensures
            arrival(r) == navigated_by_key(self@, key@),
    {
        self.extended(PathSegment::Key(String::from_str(key)))
    }

    /// Navigates into the element `idx` of an array. A negative index is refused.
    pub fn index(&self, idx: i64) -> (r: Result<Query, SonicError>)
        ensures
            arrival(r) == navigated_by_index(self@, idx as int),
    {
        if idx < 0 {
            return Err(negative_index_error(idx));
        }
        self.extended(PathSegment::Index(idx as u64))
    }

    /// The value as a string.
    pub fn string(&self) -> (r: Result<String, SonicError>)
        ensures
            match r {
                Ok(s) => hydrated_string(self@) == Ok::<Seq<char>, Failure>(s@),
                Err(e) => hydrated_string(self@) == Err::<Seq<char>, Failure>(e@),
            },
    {
        let lazy = match self.resolve() {
            Ok(lazy) => lazy,
            Err(e) => {
                return Err(e);
            },
        };
        expect_string(span_as_str(&lazy))
    }

    /// The value as a signed integer.
    pub fn integer(&self) -> (r: Result<i64, SonicError>)
        ensures
            match r {
                Ok(n) => hydrated_int(self@) == Ok::<i64, Failure>(n),
                Err(e) => hydrated_int(self@) == Err::<i64, Failure>(e@),
            },
    {
        let lazy = match self.resolve() {
            Ok(lazy) => lazy,
            Err(e) => {
                return Err(e);
            },
        };
        expect_int(span_as_i64(&lazy))
    }

    /// The value as a double, given by its IEEE 754 binary64 bit pattern.
    pub fn float(&self) -> (r: Result<u64, SonicError>)
        ensures
            match r {
                Ok(bits) => hydrated_float(self@) == Ok::<u64, Failure>(bits),
                Err(e) => hydrated_float(self@) == Err::<u64, Failure>(e@),
            },
    {
        let lazy = match self.resolve() {
            Ok(lazy) => lazy,
            Err(e) => {
                return Err(e);
            },
        };
        expect_float(span_as_double(&lazy))
    }

    /// The value as a boolean.
    pub fn bool(&self) -> (r: Result<bool, SonicError>)
        ensures
            match r {
                Ok(b) => hydrated_bool(self@) == Ok::<bool, Failure>(b),
                Err(e) => hydrated_bool(self@) == Err::<bool, Failure>(e@),
            },
    {
        let lazy = match self.resolve() {
            Ok(lazy) => lazy,
            Err(e) => {
                return Err(e);
            },
        };
        expect_bool(span_as_bool(&lazy))
    }

    /// Whether the value is `null`.
    pub fn is_null(&self) -> (r: Result<bool, SonicError>)
        ensures
            match r {
                Ok(b) => hydrated_type(self@) matches Ok(kind) && b == (kind == JsonType::Null),
                Err(e) => hydrated_type(self@) == Err::<JsonType, Failure>(e@),
            },
    {
        let lazy = match self.resolve() {
            Ok(lazy) => lazy,
            Err(e) => {
                return Err(e);
            },
        };
        Ok(span_kind(&lazy) == JsonType::Null)
    }

    /// The raw JSON text of the value, unparsed.
    pub fn raw(&self) -> (r: Result<String, SonicError>)
        ensures
            match r {
                Ok(s) => resolved(self@) == Ok::<Seq<char>, Failure>(s@),
                Err(e) => resolved(self@) == Err::<Seq<char>, Failure>(e@),
            },
    {
        let lazy = match self.resolve() {
            Ok(lazy) => lazy,
            Err(e) => {
                return Err(e);
            },
        };
        Ok(String::from_str(span_raw(&lazy)))
    }

    /// Full hydration of the value into a host value. At the root this is the full
    /// decode of the document.
    pub fn value(&self) -> (r: Result<HostValue, SonicError>)
        ensures
            outcome(r) == hydrated_value(self@),
            r matches Ok(v) ==> well_formed(v@),
    {
        if self.path.len() == 0 {
            return decode(self.json.as_str());
        }
        let lazy = match self.resolve() {
            Ok(lazy) => lazy,
            Err(e) => {
                return Err(e);
            },
        };
        decode(span_raw(&lazy))
    }

    /// Whether the value is an array.
    pub fn is_array(&self) -> (r: Result<bool, SonicError>)
        ensures
            match r {
                Ok(b) => hydrated_type(self@) matches Ok(kind) && b == (kind == JsonType::Array),
                Err(e) => hydrated_type(self@) == Err::<JsonType, Failure>(e@),
            },
    {
        let lazy = match self.resolve() {
            Ok(lazy) => lazy,
            Err(e) => {
                return Err(e);
            },
        };
        Ok(span_kind(&lazy) == JsonType::Array)
    }

    /// Whether the value is an object.
    pub fn is_object(&self) -> (r: Result<bool, SonicError>)
        ensures
            match r {
                Ok(b) => hydrated_type(self@) matches Ok(kind) && b == (kind == JsonType::Object),
                Err(e) => hydrated_type(self@) == Err::<JsonType, Failure>(e@),
            },
    {
        let lazy = match self.resolve() {
            Ok(lazy) => lazy,
            Err(e) => {
                return Err(e);
            },
        };
        Ok(span_kind(&lazy) == JsonType::Object)
    }

    /// The name of the type of the value: `null`, `boolean`, `integer`, `float`,
    /// `string`, `array`, `object` or `unknown`.
    pub fn get_type(&self) -> (r: Result<String, SonicError>)
        ensures
            match r {
                Ok(name) => hydrated_type_name(self@) == Ok::<Seq<char>, Failure>(name@),
                Err(e) => hydrated_type_name(self@) == Err::<Seq<char>, Failure>(e@),
            },
    {
        let lazy = match self.resolve() {
            Ok(lazy) => lazy,
            Err(e) => {
                return Err(e);
            },
        };
        let kind = span_kind(&lazy);
        if kind == JsonType::Number {
            let integer = span_as_i64(&lazy).is_some() || span_as_u64(&lazy).is_some();
            let double = !integer && span_as_double(&lazy).is_some();
            Ok(kind_name(kind, integer, double))
        } else {
            Ok(kind_name(kind, false, false))
        }
    }
}

/// What navigation by the key `key` gives after a navigation that may have failed.
pub open spec fn then_key(r: Result<Cursor, Failure>, key: Seq<char>) -> Result<Cursor, Failure> {
    match r {
        Ok(c) => navigated_by_key(c, key),
        Err(e) => Err(e),
    }
}

/// What navigation by the pointer `ptr` gives after a navigation that may have failed.
pub open spec fn then_pointer(r: Result<Cursor, Failure>, ptr: Seq<char>) -> Result<
    Cursor,
    Failure,
> {
    match r {
        Ok(c) => navigated_by_pointer(c, ptr),
        Err(e) => Err(e),
    }
}

/// What full hydration gives after a navigation that may have failed.
pub open spec fn then_value(r: Result<Cursor, Failure>) -> Result<HostView, Failure> {
    match r {
        Ok(c) => hydrated_value(c),
        Err(e) => Err(e),
    }
}

/// Navigation by the empty pointer leads to the same cursor, and so to the same
/// resolved text and the same value.
pub proof fn lemma_empty_pointer_is_identity(c: Cursor)
    ensures
        navigated_by_pointer(c, Seq::empty()) == Ok::<Cursor, Failure>(c),
        then_value(navigated_by_pointer(c, Seq::empty())) == hydrated_value(c),
{
}

/// Navigation by a key that is no numeral leads where the pointer of that one
/// segment, escaped, leads.
pub proof fn lemma_key_equals_pointer(c: Cursor, key: Seq<char>)
    requires
        plain_index(key) is None,
    ensures
        navigated_by_key(c, key) == navigated_by_pointer(c, seq!['/'] + escape(key)),
{
    lemma_key_pointer(key);
    assert(c.path + seq![Step::Key(key)] =~= c.path.push(Step::Key(key)));
}

/// Navigation by an index leads where the pointer of that one numeral leads.
pub proof fn lemma_index_equals_pointer(c: Cursor, idx: int)
    requires
        0 <= idx <= u64::MAX,
    ensures
        navigated_by_index(c, idx) == navigated_by_pointer(
            c,
            seq!['/'] + decimal_text(idx as nat),
        ),
{
    lemma_index_pointer(idx as nat);
    assert(c.path + seq![Step::Index(idx as nat)] =~= c.path.push(Step::Index(idx as nat)));
}

/// Navigation by one pointer and then by another leads where the two pointers written
/// one after the other lead.
pub proof fn lemma_pointer_chain(c: Cursor, p: Seq<char>, q: Seq<char>)
    requires
        well_formed_pointer(p),
        well_formed_pointer(q),
    ensures
        then_pointer(navigated_by_pointer(c, p), q) == navigated_by_pointer(c, p + q),
{
    lemma_pointer_concat(p, q);
    if p.len() == 0 {
        assert(p + q =~= q);
    } else if q.len() == 0 {
        assert(p + q =~= p);
    } else {
        assert((p + q)[0] == p[0]);
        assert((c.path + pointer_steps(p)) + pointer_steps(q) =~= c.path + (pointer_steps(p)
            + pointer_steps(q)));
    }
}

/// Two navigations by key lead where the pointer of the two keys, escaped, leads; the
/// value hydrated at the end is the same either way.
pub proof fn lemma_chained_equals_pointer(c: Cursor, a: Seq<char>, b: Seq<char>)
    requires
        plain_index(a) is None,
        plain_index(b) is None,
    ensures
        then_key(navigated_by_key(c, a), b) == navigated_by_pointer(
            c,
            seq!['/'] + escape(a) + seq!['/'] + escape(b),
        ),
        then_value(then_key(navigated_by_key(c, a), b)) == then_value(
            navigated_by_pointer(c, seq!['/'] + escape(a) + seq!['/'] + escape(b)),
        ),
{
    let p = seq!['/'] + escape(a);
    let q = seq!['/'] + escape(b);
    lemma_key_equals_pointer(c, a);
    if navigated_by_key(c, a) is Ok {
        lemma_key_equals_pointer(navigated_by_key(c, a)->Ok_0, b);
    }
    lemma_pointer_chain(c, p, q);
    assert(p + q =~= seq!['/'] + escape(a) + seq!['/'] + escape(b));
}

/// Full hydration at the root, reached by the empty pointer, gives what a full decode
/// of the document gives: the same value or the same failure.
pub proof fn lemma_root_value_is_decode(json: Seq<char>)
    ensures
        hydrated_value(root(json)) == decoded(json),
        then_value(navigated_by_pointer(root(json), Seq::empty())) == decoded(json),
{
}

/// A negative index is refused as an invalid pointer, whatever the cursor: the
/// document plays no part in it.
pub proof fn lemma_negative_index_refused(c: Cursor, idx: int)
    requires
        idx < 0,
    ensures
        navigated_by_index(c, idx) == Err::<Cursor, Failure>(negative_index(idx)),
        negative_index(idx).kind == ErrorKind::InvalidPointer,
{
}

/// Navigation that succeeds keeps the document and the steps taken so far, and adds
/// to them; from a cursor within the path limit it leads to one within it.
pub proof fn lemma_navigation_extends(c: Cursor, key: Seq<char>, idx: int, ptr: Seq<char>)
    requires
        c.path.len() <= MAX_PATH_SEGMENTS,
    ensures
        navigated_by_key(c, key) matches Ok(d) ==> d.json == c.json && c.path.is_prefix_of(d.path)
            && d.path.len() <= MAX_PATH_SEGMENTS,
        navigated_by_index(c, idx) matches Ok(d) ==> d.json == c.json && c.path.is_prefix_of(
            d.path,
        ) && d.path.len() <= MAX_PATH_SEGMENTS,
        navigated_by_pointer(c, ptr) matches Ok(d) ==> d.json == c.json && c.path.is_prefix_of(
            d.path,
        ) && d.path.len() <= MAX_PATH_SEGMENTS,
{
}

/// The size guard: on a document over [`MAX_INPUT_SIZE`] bytes no cursor resolves,
/// and every hydration fails with the size failure.
pub proof fn lemma_oversized_never_resolves(c: Cursor)
    requires
        byte_len(c.json) > MAX_INPUT_SIZE,
    ensures
        resolved(c) == Err::<Seq<char>, Failure>(oversized(byte_len(c.json))),
        hydrated_value(c) == Err::<HostView, Failure>(oversized(byte_len(c.json))),
        hydrated_string(c) == Err::<Seq<char>, Failure>(oversized(byte_len(c.json))),
        hydrated_int(c) == Err::<i64, Failure>(oversized(byte_len(c.json))),
        hydrated_float(c) == Err::<u64, Failure>(oversized(byte_len(c.json))),
        hydrated_bool(c) == Err::<bool, Failure>(oversized(byte_len(c.json))),
        hydrated_type(c) == Err::<JsonType, Failure>(oversized(byte_len(c.json))),
        hydrated_type_name(c) == Err::<Seq<char>, Failure>(oversized(byte_len(c.json))),
{
}

/// A path that leads nowhere fails every hydration in the same way, with the same
/// words for every path and every document.
pub proof fn lemma_missing_path_is_silent(c: Cursor)
    requires
        byte_len(c.json) <= MAX_INPUT_SIZE,
        c.path.len() > 0,
        located(c.json, c.path) matches Err(why) && (why.not_found || why.unmatched_type),
    ensures
        resolved(c) == Err::<Seq<char>, Failure>(not_found()),
        hydrated_value(c) == Err::<HostView, Failure>(not_found()),
        hydrated_string(c) == Err::<Seq<char>, Failure>(not_found()),
        hydrated_int(c) == Err::<i64, Failure>(not_found()),
        hydrated_float(c) == Err::<u64, Failure>(not_found()),
        hydrated_bool(c) == Err::<bool, Failure>(not_found()),
        hydrated_type(c) == Err::<JsonType, Failure>(not_found()),
        hydrated_type_name(c) == Err::<Seq<char>, Failure>(not_found()),
        not_found().text == "Path not found"@,
{
}

/// Malformed JSON met while resolving is a parse failure, at the root and along a
/// path alike.
pub proof fn lemma_malformed_never_resolves(c: Cursor)
    requires
        byte_len(c.json) <= MAX_INPUT_SIZE,
        located(c.json, c.path) matches Err(why) && !why.not_found && !why.unmatched_type,
    ensures
        resolved(c) matches Err(e) && e.kind == ErrorKind::ParseError,
{
}

/// Typed hydration and extraction agree on scalars: where a cursor reached by a
/// pointer of at least one step hydrates as a string, an integer, a boolean or a
/// double that is no integer, extraction by the same pointer gives that very value.
pub proof fn lemma_typed_hydration_agrees(json: Seq<char>, ptr: Seq<char>)
    requires
        parsed_pointer(ptr) matches Ok(steps) && steps.len() > 0,
    ensures
        navigated_by_pointer(root(json), ptr) matches Ok(c) && ({
            &&& resolved(c) matches Ok(raw) ==> {
                &&& span_type(raw) == JsonType::String ==> (hydrated_string(c) matches Ok(s)
                    ==> extracted(json, ptr) == Ok::<HostView, Failure>(HostView::Str(s)))
                &&& span_type(raw) == JsonType::Number ==> (hydrated_int(c) matches Ok(n)
                    ==> extracted(json, ptr) == Ok::<HostView, Failure>(HostView::Int(n as int)))
                &&& span_type(raw) == JsonType::Number && span_i64(raw) is None && span_u64(raw)
                    is None ==> (hydrated_float(c) matches Ok(bits) ==> extracted(json, ptr)
                    == Ok::<HostView, Failure>(HostView::Float(bits)))
                &&& span_type(raw) == JsonType::Boolean ==> (hydrated_bool(c) matches Ok(b)
                    ==> extracted(json, ptr) == Ok::<HostView, Failure>(HostView::Bool(b)))
                &&& span_type(raw) == JsonType::Null ==> extracted(json, ptr) == Ok::<
                    HostView,
                    Failure,
                >(HostView::Null)
            }
            &&& resolved(c) matches Err(e) ==> extracted(json, ptr) == Err::<HostView, Failure>(e)
        }),
{
    let c = Cursor { json, path: Seq::<Step>::empty() + pointer_steps(ptr) };
    assert(c.path =~= pointer_steps(ptr));
}

} // verus!

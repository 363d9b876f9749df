//! The boundary to the `sonic_rs` scanner and parser.
//!
//! Everything here is stated, not proved: the types of `sonic_rs` that the library
//! passes around, names for what its scanner and parser return, and one thin wrapper
//! for each of its functions that the library calls.

use vstd::prelude::*;
use crate::pointer::{steps_of, PathSegment, Step};

verus! {

/// `sonic_rs::LazyValue`: a span of raw JSON text, not yet parsed.
#[verifier::external_type_specification]
#[verifier::external_body]
pub struct ExLazyValue<'a>(sonic_rs::LazyValue<'a>);

/// `sonic_rs::ArrayJsonIter`: walks the elements of a raw array span.
#[verifier::external_type_specification]
#[verifier::external_body]
pub struct ExArrayJsonIter<'a>(sonic_rs::ArrayJsonIter<'a>);

/// `sonic_rs::ObjectJsonIter`: walks the members of a raw object span.
#[verifier::external_type_specification]
#[verifier::external_body]
pub struct ExObjectJsonIter<'a>(sonic_rs::ObjectJsonIter<'a>);

/// `sonic_rs::Value`: a fully parsed document or a node of one.
#[verifier::external_type_specification]
#[verifier::external_body]
pub struct ExValue(sonic_rs::Value);

/// `sonic_rs::Error`: why a scan or a parse failed.
#[verifier::external_type_specification]
#[verifier::external_body]
pub struct ExError(sonic_rs::Error);

/// The type tag of a JSON value.
#[derive(Clone, Copy, Debug, PartialEq, Eq, Structural)]
pub enum JsonType {
    Null,
    Boolean,
    Number,
    String,
    Object,
    Array,
}

/// A JSON number as a parsed value gives it out.
pub enum JsonNumber {
    /// A non-negative integer.
    PosInt(u64),
    /// A negative integer.
    NegInt(i64),
    /// Any other number that reads as a double, as the bit pattern of that double.
    Float(u64),
    /// A number kept as text that reads as none of the three: a value can hold a
    /// numeral whose double would not be finite.
    Unread,
}

/// Why a skip-scan failed, as contracts see it: the rendering of the error and the
/// class that the scanner puts it in.
pub struct Refusal {
    pub text: Seq<char>,
    /// The key or the index is not there.
    pub not_found: bool,
    /// The step does not fit the value: a key into what is no object, an index into
    /// what is no array.
    pub unmatched_type: bool,
}

/// A parsed JSON value, as contracts see it.
pub enum Json {
    Null,
    Bool(bool),
    Number(JsonNumber),
    Str(Seq<char>),
    Array(Seq<Json>),
    /// The members in the order in which the parser hands them out.
    Object(Seq<(Seq<char>, Json)>),
}

impl JsonNumber {
    /// The number as a signed integer, where it is an integer that fits.
    pub open spec fn as_i64(self) -> Option<i64> {
        match self {
            JsonNumber::PosInt(n) => if n <= i64::MAX {
                Some(n as i64)
            } else {
                None
            },
            JsonNumber::NegInt(n) => Some(n),
            JsonNumber::Float(_) => None,
            JsonNumber::Unread => None,
        }
    }

    /// The number as an unsigned integer, where it is a non-negative integer.
    pub open spec fn as_u64(self) -> Option<u64> {
        match self {
            JsonNumber::PosInt(n) => Some(n),
            _ => None,
        }
    }
}

impl Json {
    /// The type tag of this value.
    pub open spec fn kind(self) -> JsonType {
        match self {
            Json::Null => JsonType::Null,
            Json::Bool(_) => JsonType::Boolean,
            Json::Number(_) => JsonType::Number,
            Json::Str(_) => JsonType::String,
            Json::Array(_) => JsonType::Array,
            Json::Object(_) => JsonType::Object,
        }
    }

    pub open spec fn as_bool(self) -> Option<bool> {
        match self {
            Json::Bool(b) => Some(b),
            _ => None,
        }
    }

    pub open spec fn as_i64(self) -> Option<i64> {
        match self {
            Json::Number(n) => n.as_i64(),
            _ => None,
        }
    }

    pub open spec fn as_u64(self) -> Option<u64> {
        match self {
            Json::Number(n) => n.as_u64(),
            _ => None,
        }
    }

    pub open spec fn as_str(self) -> Option<Seq<char>> {
        match self {
            Json::Str(s) => Some(s),
            _ => None,
        }
    }
}

/// The raw JSON text that a span covers.
pub uninterp spec fn raw_text(span: sonic_rs::LazyValue<'_>) -> Seq<char>;

/// The rendering of a scanner or parser error.
pub uninterp spec fn failure_text(e: sonic_rs::Error) -> Seq<char>;

/// Whether the error is of the scanner's not-found class.
pub uninterp spec fn failure_not_found(e: sonic_rs::Error) -> bool;

/// Whether the error is of the scanner's unmatched-type class.
pub uninterp spec fn failure_unmatched(e: sonic_rs::Error) -> bool;

/// What contracts keep of a scanner error.
pub open spec fn refusal_of(e: sonic_rs::Error) -> Refusal {
    Refusal {
        text: failure_text(e),
        not_found: failure_not_found(e),
        unmatched_type: failure_unmatched(e),
    }
}

/// The tree that a parsed value holds: what its type tag, its scalar readers and the
/// walk over its elements or members give out. A number kept as text that no reader
/// accepts is [`JsonNumber::Unread`].
pub uninterp spec fn json_of(v: sonic_rs::Value) -> Json;

/// What a full parse of `json` gives: its tree, or the rendering of the error.
pub uninterp spec fn parsed(json: Seq<char>) -> Result<Json, Seq<char>>;

/// What the skip-scan of `json` along `path` gives: the raw text of the value found,
/// or why the scan failed. With an empty path it finds the first value of the
/// document.
pub uninterp spec fn located(json: Seq<char>, path: Seq<Step>) -> Result<Seq<char>, Refusal>;

/// The signed integer that the raw text of a number writes, if it is one that fits.
pub uninterp spec fn span_i64(raw: Seq<char>) -> Option<i64>;

/// The unsigned integer that the raw text of a number writes, if it is one that fits.
pub uninterp spec fn span_u64(raw: Seq<char>) -> Option<u64>;

/// The bit pattern of the double that the raw text of a number writes.
pub uninterp spec fn span_double(raw: Seq<char>) -> Option<u64>;

/// The characters that the raw text of a string stands for, escapes undone.
pub uninterp spec fn span_str(raw: Seq<char>) -> Option<Seq<char>>;

/// What walking the raw text of an array hands out, in order: the raw text of each
/// element, or the rendering of an error, after which the walk ends.
pub uninterp spec fn array_items(raw: Seq<char>) -> Seq<Result<Seq<char>, Seq<char>>>;

/// What walking the raw text of an object hands out, in order: the key and the raw
/// text of each member, or the rendering of an error, after which the walk ends.
pub uninterp spec fn object_members(raw: Seq<char>) -> Seq<
    Result<(Seq<char>, Seq<char>), Seq<char>>,
>;

/// What an array walk has yet to hand out.
pub uninterp spec fn array_pending(it: sonic_rs::ArrayJsonIter<'_>) -> Seq<
    Result<Seq<char>, Seq<char>>,
>;

/// What an object walk has yet to hand out.
pub uninterp spec fn object_pending(it: sonic_rs::ObjectJsonIter<'_>) -> Seq<
    Result<(Seq<char>, Seq<char>), Seq<char>>,
>;

/// Whether `c` can begin a JSON value.
pub open spec fn starts_value(c: char) -> bool {
    c == '-' || ('0' <= c <= '9') || c == '"' || c == '{' || c == '[' || c == 't' || c == 'f' || c
        == 'n'
}

/// What holds of the raw text of every span that the scanner hands out: it begins as
/// a JSON value does, and where it begins as a literal does, it is that literal.
pub open spec fn well_formed_span(raw: Seq<char>) -> bool {
    &&& raw.len() > 0
    &&& starts_value(raw[0])
    &&& raw[0] == 't' ==> raw == "true"@
    &&& raw[0] == 'f' ==> raw == "false"@
    &&& raw[0] == 'n' ==> raw == "null"@
}

/// The type of a span, read off its first character.
pub open spec fn span_type(raw: Seq<char>) -> JsonType {
    if raw[0] == 'n' {
        JsonType::Null
    } else if raw[0] == 't' || raw[0] == 'f' {
        JsonType::Boolean
    } else if raw[0] == '"' {
        JsonType::String
    } else if raw[0] == '{' {
        JsonType::Object
    } else if raw[0] == '[' {
        JsonType::Array
    } else {
        JsonType::Number
    }
}

/// The boolean that a span writes, if it is `true` or `false`.
pub open spec fn span_bool(raw: Seq<char>) -> Option<bool> {
    if raw == "true"@ {
        Some(true)
    } else if raw == "false"@ {
        Some(false)
    } else {
        None
    }
}

/// `sonic_rs::get`: skip-scans `json` along `path` and hands out the span found.
/// The span is well formed: the scanner accepts a value only by its first character,
/// and a literal only in full. An index goes to the scanner as a `usize`, which holds
/// every `u64` on a 64-bit target.
#[verifier::external_body]
pub(crate) fn locate<'a>(json: &'a str, path: &Vec<PathSegment>) -> (r: Result<
    sonic_rs::LazyValue<'a>,
    sonic_rs::Error,
>)
    ensures
        r matches Ok(span) ==> (located(json@, steps_of(path@)) matches Ok(raw) && raw
            == raw_text(span) && well_formed_span(raw)),
        r matches Err(e) ==> (located(json@, steps_of(path@)) matches Err(x) && x == refusal_of(e)),
{
    let nodes: Vec<sonic_rs::PointerNode> = path.iter().map(
        |seg| match seg {
            PathSegment::Key(k) => sonic_rs::PointerNode::Key(faststr::FastStr::new(k)),
            PathSegment::Index(i) => sonic_rs::PointerNode::Index(*i as usize),
        },
    ).collect();
    sonic_rs::get(json, nodes.as_slice())
}

/// `sonic_rs::from_str` at `sonic_rs::Value`: parses the whole of `json`.
#[verifier::external_body]
pub(crate) fn parse_document(json: &str) -> (r: Result<sonic_rs::Value, sonic_rs::Error>)
    ensures
        r matches Ok(v) ==> (parsed(json@) matches Ok(tree) && tree == json_of(v)),
        r matches Err(e) ==> (parsed(json@) matches Err(m) && m == failure_text(e)),
{
    sonic_rs::from_str::<sonic_rs::Value>(json)
}

/// `to_string` of `sonic_rs::Error`: its rendering.
#[verifier::external_body]
pub(crate) fn error_text(e: &sonic_rs::Error) -> (m: String)
    ensures
        m@ == failure_text(*e),
{
    e.to_string()
}

/// `Error::is_not_found`: whether the error says that a key or an index is not there.
#[verifier::external_body]
pub(crate) fn error_is_not_found(e: &sonic_rs::Error) -> (b: bool)
    ensures
        b == failure_not_found(*e),
{
    e.is_not_found()
}

/// `Error::is_unmatched_type`: whether the error says that a value has another type
/// than was asked for.
#[verifier::external_body]
pub(crate) fn error_is_unmatched_type(e: &sonic_rs::Error) -> (b: bool)
    ensures
        b == failure_unmatched(*e),
{
    e.is_unmatched_type()
}

/// `LazyValue::as_raw_str`: the raw text of the span.
#[verifier::external_body]
pub(crate) fn span_raw<'b>(span: &'b sonic_rs::LazyValue<'_>) -> (raw: &'b str)
    ensures
        raw@ == raw_text(*span),
{
    span.as_raw_str()
}

/// `get_type` of `LazyValue`: the type, read off the first byte of the raw text. It
/// panics on any other first byte, which a well-formed span does not have.
#[verifier::external_body]
pub(crate) fn span_kind(span: &sonic_rs::LazyValue<'_>) -> (k: JsonType)
    requires
        well_formed_span(raw_text(*span)),
    ensures
        k == span_type(raw_text(*span)),
{
    match sonic_rs::JsonValueTrait::get_type(span) {
        sonic_rs::JsonType::Null => JsonType::Null,
        sonic_rs::JsonType::Boolean => JsonType::Boolean,
        sonic_rs::JsonType::Number => JsonType::Number,
        sonic_rs::JsonType::String => JsonType::String,
        sonic_rs::JsonType::Object => JsonType::Object,
        sonic_rs::JsonType::Array => JsonType::Array,
    }
}

/// `as_bool` of `LazyValue`: compares the raw text with `true` and `false`.
#[verifier::external_body]
pub(crate) fn span_as_bool(span: &sonic_rs::LazyValue<'_>) -> (r: Option<bool>)
    ensures
        r == span_bool(raw_text(*span)),
{
    sonic_rs::JsonValueTrait::as_bool(span)
}

/// `as_i64` of `LazyValue`: parses the raw text as a number.
#[verifier::external_body]
pub(crate) fn span_as_i64(span: &sonic_rs::LazyValue<'_>) -> (r: Option<i64>)
    ensures
        r == span_i64(raw_text(*span)),
{
    sonic_rs::JsonValueTrait::as_i64(span)
}

/// `as_u64` of `LazyValue`: parses the raw text as a number.
#[verifier::external_body]
pub(crate) fn span_as_u64(span: &sonic_rs::LazyValue<'_>) -> (r: Option<u64>)
    ensures
        r == span_u64(raw_text(*span)),
{
    sonic_rs::JsonValueTrait::as_u64(span)
}

/// `as_f64` of `LazyValue`: parses the raw text as a number; the double is handed
/// on as its bit pattern.
#[verifier::external_body]
pub(crate) fn span_as_double(span: &sonic_rs::LazyValue<'_>) -> (r: Option<u64>)
    ensures
        r == span_double(raw_text(*span)),
{
    sonic_rs::JsonValueTrait::as_f64(span).map(|x| x.to_bits())
}

/// `as_str` of `LazyValue`: the content of a string span, escapes undone, and nothing
/// for a span of another type. The scanner notes on each span whether its text holds
/// an escape, so what comes back depends on the raw text alone. It reads the type
/// first, and so needs a well-formed span.
#[verifier::external_body]
pub(crate) fn span_as_str(span: &sonic_rs::LazyValue<'_>) -> (r: Option<String>)
    requires
        well_formed_span(raw_text(*span)),
    ensures
        r matches Some(s) ==> span_str(raw_text(*span)) == Some(s@),
        r is None ==> span_str(raw_text(*span)) is None,
{
    sonic_rs::JsonValueTrait::as_str(span).map(|s| s.to_string())
}

/// `LazyValue::into_array_iter`: a walk over the elements, for a span of array type
/// and for no other.
#[verifier::external_body]
pub(crate) fn span_into_array<'a>(span: sonic_rs::LazyValue<'a>) -> (r: Option<
    sonic_rs::ArrayJsonIter<'a>,
>)
    requires
        well_formed_span(raw_text(span)),
    ensures
        r is Some <==> span_type(raw_text(span)) == JsonType::Array,
        r matches Some(it) ==> array_pending(it) == array_items(raw_text(span)),
{
    span.into_array_iter()
}

/// `LazyValue::into_object_iter`: a walk over the members, for a span of object type
/// and for no other.
#[verifier::external_body]
pub(crate) fn span_into_object<'a>(span: sonic_rs::LazyValue<'a>) -> (r: Option<
    sonic_rs::ObjectJsonIter<'a>,
>)
    requires
        well_formed_span(raw_text(span)),
    ensures
        r is Some <==> span_type(raw_text(span)) == JsonType::Object,
        r matches Some(it) ==> object_pending(it) == object_members(raw_text(span)),
{
    span.into_object_iter()
}

/// `next` of `ArrayJsonIter`: hands out what is first among the pending, `None` when
/// nothing is. An element comes as a well-formed span.
#[verifier::external_body]
pub(crate) fn array_next<'a>(it: &mut sonic_rs::ArrayJsonIter<'a>) -> (r: Option<
    Result<sonic_rs::LazyValue<'a>, sonic_rs::Error>,
>)
    ensures
        r is None <==> array_pending(*old(it)).len() == 0,
        r is None ==> array_pending(*final(it)).len() == 0,
        r is Some ==> array_pending(*final(it)) == array_pending(*old(it)).skip(1),
        r matches Some(Ok(span)) ==> (array_pending(*old(it))[0] matches Ok(raw) && raw == raw_text(
            span,
        ) && well_formed_span(raw)),
        r matches Some(Err(e)) ==> (array_pending(*old(it))[0] matches Err(m) && m == failure_text(
            e,
        )),
{
    it.next()
}

/// `next` of `ObjectJsonIter`: hands out what is first among the pending, `None` when
/// nothing is. A member comes as its key, unescaped, and a well-formed span.
#[verifier::external_body]
pub(crate) fn object_next<'a>(it: &mut sonic_rs::ObjectJsonIter<'a>) -> (r: Option<
    Result<(String, sonic_rs::LazyValue<'a>), sonic_rs::Error>,
>)
    ensures
        r is None <==> object_pending(*old(it)).len() == 0,
        r is None ==> object_pending(*final(it)).len() == 0,
        r is Some ==> object_pending(*final(it)) == object_pending(*old(it)).skip(1),
        r matches Some(Ok(member)) ==> (object_pending(*old(it))[0] matches Ok(m) && m.0
            == member.0@ && m.1 == raw_text(member.1) && well_formed_span(m.1)),
        r matches Some(Err(e)) ==> (object_pending(*old(it))[0] matches Err(m) && m
            == failure_text(e)),
{
    it.next().map(|r| r.map(|(k, v)| (k.into_owned(), v)))
}

/// `get_type` of `Value`.
#[verifier::external_body]
pub(crate) fn node_kind(v: &sonic_rs::Value) -> (k: JsonType)
    ensures
        k == json_of(*v).kind(),
{
    match sonic_rs::JsonValueTrait::get_type(v) {
        sonic_rs::JsonType::Null => JsonType::Null,
        sonic_rs::JsonType::Boolean => JsonType::Boolean,
        sonic_rs::JsonType::Number => JsonType::Number,
        sonic_rs::JsonType::String => JsonType::String,
        sonic_rs::JsonType::Object => JsonType::Object,
        sonic_rs::JsonType::Array => JsonType::Array,
    }
}

/// `as_bool` of `Value`.
#[verifier::external_body]
pub(crate) fn node_as_bool(v: &sonic_rs::Value) -> (r: Option<bool>)
    ensures
        r == json_of(*v).as_bool(),
{
    sonic_rs::JsonValueTrait::as_bool(v)
}

/// `as_i64` of `Value`: an integer that fits `i64`.
#[verifier::external_body]
pub(crate) fn node_as_i64(v: &sonic_rs::Value) -> (r: Option<i64>)
    ensures
        r == json_of(*v).as_i64(),
{
    sonic_rs::JsonValueTrait::as_i64(v)
}

/// `as_u64` of `Value`: a non-negative integer.
#[verifier::external_body]
pub(crate) fn node_as_u64(v: &sonic_rs::Value) -> (r: Option<u64>)
    ensures
        r == json_of(*v).as_u64(),
{
    sonic_rs::JsonValueTrait::as_u64(v)
}

/// `as_f64` of `Value`, handed on as a bit pattern: the double itself for a number
/// that reads as one, some double for an integer, nothing for a number that does not
/// read and for what is no number.
#[verifier::external_body]
pub(crate) fn node_as_double(v: &sonic_rs::Value) -> (r: Option<u64>)
    ensures
        json_of(*v) matches Json::Number(JsonNumber::Float(bits)) ==> r == Some(bits),
        r is Some <==> (json_of(*v) matches Json::Number(n) && n !is Unread),
{
    sonic_rs::JsonValueTrait::as_f64(v).map(|x| x.to_bits())
}

/// `as_str` of `Value`.
#[verifier::external_body]
pub(crate) fn node_as_str(v: &sonic_rs::Value) -> (r: Option<String>)
    ensures
        r matches Some(s) ==> json_of(*v).as_str() == Some(s@),
        r is None ==> json_of(*v).as_str() is None,
{
    sonic_rs::JsonValueTrait::as_str(v).map(|s| s.to_string())
}

/// `as_array` of `Value`, and `iter` of the array: the elements in order.
#[verifier::external_body]
pub(crate) fn node_items<'a>(v: &'a sonic_rs::Value) -> (r: Option<Vec<&'a sonic_rs::Value>>)
    ensures
        r is Some <==> json_of(*v) is Array,
        r matches Some(items) ==> json_of(*v) == Json::Array(
            Seq::new(items@.len(), |i: int| json_of(*items@[i])),
        ),
{
    sonic_rs::JsonContainerTrait::as_array(v).map(|a| a.iter().collect())
}

/// `as_object` of `Value`, and `iter` of the object: the members in the order in
/// which the object hands them out, each key copied.
#[verifier::external_body]
pub(crate) fn node_members<'a>(v: &'a sonic_rs::Value) -> (r: Option<
    Vec<(String, &'a sonic_rs::Value)>,
>)
    ensures
        r is Some <==> json_of(*v) is Object,
        r matches Some(members) ==> json_of(*v) == Json::Object(
            Seq::new(members@.len(), |i: int| (members@[i].0@, json_of(*members@[i].1))),
        ),
{
    sonic_rs::JsonContainerTrait::as_object(v).map(
        |o| o.iter().map(|(k, n)| (k.to_string(), n)).collect(),
    )
}

} // verus!

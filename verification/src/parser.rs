//! Turning raw spans and parsed trees into host values, with bounded depth, and the
//! three one-shot operations: full decode, extraction by pointer, validation.

use vstd::prelude::*;
use vstd::string::StringExecFns;
use crate::errors::{ErrorKind, Failure, SonicError};
use crate::host::{
    distinct_keys,
    items_view,
    lemma_array_view,
    lemma_object_view,
    lemma_put_distinct,
    lemma_put_well_formed,
    put,
    well_formed,
    well_formed_values,
    HostValue,
    HostView,
    ObjectBuilder,
};
use crate::limits::{
    check_input_size,
    depth_exceeded,
    oversized,
    too_deep,
    MAX_DEPTH,
    MAX_INPUT_SIZE,
    MAX_POINTER_SEGMENTS,
};
use crate::number::{unsigned_to_host, unsigned_view};
use crate::pointer::{
    bad_start,
    parse_pointer,
    parsed_pointer,
    pointer_steps,
    too_many_segments,
    well_formed_pointer,
};
use crate::sonic::{
    array_items,
    array_next,
    array_pending,
    error_is_not_found,
    error_is_unmatched_type,
    error_text,
    failure_text,
    json_of,
    located,
    locate,
    node_as_bool,
    node_as_double,
    node_as_i64,
    node_as_str,
    node_as_u64,
    node_items,
    node_kind,
    node_members,
    object_members,
    object_next,
    object_pending,
    parse_document,
    parsed,
    raw_text,
    refusal_of,
    span_as_bool,
    span_as_double,
    span_as_i64,
    span_as_str,
    span_as_u64,
    span_bool,
    span_double,
    span_i64,
    span_into_array,
    span_into_object,
    span_kind,
    span_str,
    span_type,
    span_u64,
    well_formed_span,
    Json,
    JsonNumber,
    JsonType,
    Refusal,
};

verus! {

/// The number of bytes of `text` in UTF-8, which is what the size limit counts.
pub open spec fn byte_len(text: Seq<char>) -> nat {
    vstd::utf8::encode_utf8(text).len()
}

/// The failure for a value whose type cannot be told.
pub open spec fn unknown_type() -> Failure {
    Failure { kind: ErrorKind::TypeError, text: "Unknown JSON value type"@ }
}

/// The failure for a path that leads to no value. It says nothing of the path.
pub open spec fn not_found() -> Failure {
    Failure { kind: ErrorKind::KeyNotFound, text: "Path not found"@ }
}

/// The failure for text that the scanner or parser refused, with its rendering.
pub open spec fn malformed(text: Seq<char>) -> Failure {
    Failure { kind: ErrorKind::ParseError, text }
}

/// The failure of a scan: where the scanner says that the key or index is not there,
/// or that a step does not fit the value, it is the not-found failure, the same for
/// both; any other reason is a parse failure with the scanner's rendering.
pub open spec fn scan_failed(why: Refusal) -> Failure {
    if why.not_found || why.unmatched_type {
        not_found()
    } else {
        malformed(why.text)
    }
}

/// What a hydration gives, as contracts see it.
pub open spec fn outcome(r: Result<HostValue, SonicError>) -> Result<HostView, Failure> {
    match r {
        Ok(v) => Ok(v@),
        Err(e) => Err(e@),
    }
}

/// How far hydration at `depth` is from the depth limit; it orders the recursion.
pub open spec fn rank(depth: nat) -> nat {
    if depth <= MAX_DEPTH {
        (2 * (MAX_DEPTH - depth) + 2) as nat
    } else {
        0
    }
}

/// The host value of a number span: a signed integer where it is one, else an
/// unsigned integer under the policy of [`unsigned_view`], else a double.
pub open spec fn hydrated_number(raw: Seq<char>) -> Result<HostView, Failure> {
    match span_i64(raw) {
        Some(n) => Ok(HostView::Int(n as int)),
        None => match span_u64(raw) {
            Some(n) => Ok(unsigned_view(n)),
            None => match span_double(raw) {
                Some(bits) => Ok(HostView::Float(bits)),
                None => Err(unknown_type()),
            },
        },
    }
}

/// The host value of the raw span `raw` at nesting `depth`.
///
/// Beyond [`MAX_DEPTH`] it is the depth failure. Scalars convert by type; the
/// elements of an array and the members of an object are hydrated one level deeper, in
/// order, and the first failure among them is the failure of the whole.
pub open spec fn hydrated_span(raw: Seq<char>, depth: nat) -> Result<HostView, Failure>
    decreases rank(depth), 0nat,
{
    if depth > MAX_DEPTH {
        Err(too_deep())
    } else {
        match span_type(raw) {
            JsonType::Null => Ok(HostView::Null),
            JsonType::Boolean => match span_bool(raw) {
                Some(b) => Ok(HostView::Bool(b)),
                None => Err(unknown_type()),
            },
            JsonType::Number => hydrated_number(raw),
            JsonType::String => match span_str(raw) {
                Some(s) => Ok(HostView::Str(s)),
                None => Err(unknown_type()),
            },
            JsonType::Array => match hydrated_items(array_items(raw), depth + 1, Seq::empty()) {
                Ok(items) => Ok(HostView::Array(items)),
                Err(e) => Err(e),
            },
            JsonType::Object => match hydrated_members(
                object_members(raw),
                depth + 1,
                Seq::empty(),
            ) {
                Ok(members) => Ok(HostView::Object(members)),
                Err(e) => Err(e),
            },
        }
    }
}

/// The elements `done`, followed by the host values of `items` at `depth`, or the
/// first failure met on the way.
pub open spec fn hydrated_items(
    items: Seq<Result<Seq<char>, Seq<char>>>,
    depth: nat,
    done: Seq<HostView>,
) -> Result<Seq<HostView>, Failure>
    decreases rank(depth) + 1, items.len(),
{
    if items.len() == 0 {
        Ok(done)
    } else {
        match items[0] {
            Err(text) => Err(malformed(text)),
            Ok(raw) => match hydrated_span(raw, depth) {
                Err(e) => Err(e),
                Ok(v) => hydrated_items(items.skip(1), depth, done.push(v)),
            },
        }
    }
}

/// The members `done` after each member of `members`, hydrated at `depth`, is set in
/// turn (a later member of the same name overwrites), or the first failure met.
pub open spec fn hydrated_members(
    members: Seq<Result<(Seq<char>, Seq<char>), Seq<char>>>,
    depth: nat,
    done: Seq<(Seq<char>, HostView)>,
) -> Result<Seq<(Seq<char>, HostView)>, Failure>
    decreases rank(depth) + 1, members.len(),
{
    if members.len() == 0 {
        Ok(done)
    } else {
        match members[0] {
            Err(text) => Err(malformed(text)),
            Ok(member) => match hydrated_span(member.1, depth) {
                Err(e) => Err(e),
                Ok(v) => hydrated_members(members.skip(1), depth, put(done, member.0, v)),
            },
        }
    }
}

/// The host value of a parsed number; a number that does not read has none.
pub open spec fn hydrated_tree_number(n: JsonNumber) -> Result<HostView, Failure> {
    match n {
        JsonNumber::PosInt(u) => Ok(unsigned_view(u)),
        JsonNumber::NegInt(i) => Ok(HostView::Int(i as int)),
        JsonNumber::Float(bits) => Ok(HostView::Float(bits)),
        JsonNumber::Unread => Err(unknown_type()),
    }
}

/// The host value of the parsed tree `tree` at nesting `depth`, under the same rules
/// as [`hydrated_span`].
pub open spec fn hydrated_tree(tree: Json, depth: nat) -> Result<HostView, Failure>
    decreases rank(depth), 0nat,
{
    if depth > MAX_DEPTH {
        Err(too_deep())
    } else {
        match tree {
            Json::Null => Ok(HostView::Null),
            Json::Bool(b) => Ok(HostView::Bool(b)),
            Json::Number(n) => hydrated_tree_number(n),
            Json::Str(s) => Ok(HostView::Str(s)),
            Json::Array(nodes) => match hydrated_nodes(nodes, depth + 1, Seq::empty()) {
                Ok(items) => Ok(HostView::Array(items)),
                Err(e) => Err(e),
            },
            Json::Object(fields) => match hydrated_fields(fields, depth + 1, Seq::empty()) {
                Ok(members) => Ok(HostView::Object(members)),
                Err(e) => Err(e),
            },
        }
    }
}

/// The elements `done`, followed by the host values of `nodes` at `depth`, or the
/// first failure met on the way.
pub open spec fn hydrated_nodes(nodes: Seq<Json>, depth: nat, done: Seq<HostView>) -> Result<
    Seq<HostView>,
    Failure,
>
    decreases rank(depth) + 1, nodes.len(),
{
    if nodes.len() == 0 {
        Ok(done)
    } else {
        match hydrated_tree(nodes[0], depth) {
            Err(e) => Err(e),
            Ok(v) => hydrated_nodes(nodes.skip(1), depth, done.push(v)),
        }
    }
}

/// The members `done` after each of `fields`, hydrated at `depth`, is set in turn, or
/// the first failure met.
pub open spec fn hydrated_fields(
    fields: Seq<(Seq<char>, Json)>,
    depth: nat,
    done: Seq<(Seq<char>, HostView)>,
) -> Result<Seq<(Seq<char>, HostView)>, Failure>
    decreases rank(depth) + 1, fields.len(),
{
    if fields.len() == 0 {
        Ok(done)
    } else {
        match hydrated_tree(fields[0].1, depth) {
            Err(e) => Err(e),
            Ok(v) => hydrated_fields(fields.skip(1), depth, put(done, fields[0].0, v)),
        }
    }
}

/// Whether a full parse of `json` succeeds.
pub open spec fn parsed_ok(json: Seq<char>) -> bool {
    parsed(json) is Ok
}

/// What a full decode of `json` gives.
pub open spec fn decoded(json: Seq<char>) -> Result<HostView, Failure> {
    if byte_len(json) > MAX_INPUT_SIZE {
        Err(oversized(byte_len(json)))
    } else {
        match parsed(json) {
            Err(text) => Err(malformed(text)),
            Ok(tree) => hydrated_tree(tree, 0),
        }
    }
}

/// What extraction from `json` by `pointer` gives.
pub open spec fn extracted(json: Seq<char>, pointer: Seq<char>) -> Result<HostView, Failure> {
    if byte_len(json) > MAX_INPUT_SIZE {
        Err(oversized(byte_len(json)))
    } else if !well_formed_pointer(pointer) {
        Err(bad_start())
    } else if pointer.len() == 0 {
        decoded(json)
    } else if pointer_steps(pointer).len() > MAX_POINTER_SEGMENTS {
        Err(too_many_segments(pointer_steps(pointer).len()))
    } else {
        match located(json, pointer_steps(pointer)) {
            Err(why) => Err(scan_failed(why)),
            Ok(raw) => hydrated_span(raw, 0),
        }
    }
}

/// The error for a value whose type cannot be told.
pub fn unknown_type_error() -> (e: SonicError)
    ensures
        e@ == unknown_type(),
{
    SonicError::TypeError(String::from_str("Unknown JSON value type"))
}

/// The error for a path that leads to no value.
pub fn not_found_error() -> (e: SonicError)
    ensures
        e@ == not_found(),
{
    SonicError::KeyNotFound(String::from_str("Path not found"))
}

/// The error for text that the scanner or parser refused: a parse error that carries
/// the rendering of `e`.
pub fn malformed_error(e: &sonic_rs::Error) -> (r: SonicError)
    ensures
        r@ == malformed(failure_text(*e)),
{
    SonicError::ParseError(error_text(e))
}

/// The error for a scan that failed with `e`; see [`scan_failed`].
pub fn scan_failure(e: &sonic_rs::Error) -> (r: SonicError)
    ensures
        r@ == scan_failed(refusal_of(*e)),
{
    if error_is_not_found(e) || error_is_unmatched_type(e) {
        not_found_error()
    } else {
        malformed_error(e)
    }
}

/// Converts a raw span into a host value, counting depth from zero.
pub(crate) fn lazyvalue_to_zval(lazy: sonic_rs::LazyValue<'_>) -> (r: Result<
    HostValue,
    SonicError,
>)
    requires
        well_formed_span(raw_text(lazy)),
    ensures
        outcome(r) == hydrated_span(raw_text(lazy), 0),
{
    lazyvalue_to_zval_with_depth(lazy, 0)
}

/// Converts a raw span at nesting `depth` into a host value. Scalars are read off the
/// span directly; arrays and objects are walked member by member, each member parsed
/// only when the walk reaches it.
#[verifier::loop_isolation(false)]
pub(crate) fn lazyvalue_to_zval_with_depth(lazy: sonic_rs::LazyValue<'_>, depth: usize) -> (r:
    Result<HostValue, SonicError>)
    requires
        well_formed_span(raw_text(lazy)),
    ensures
        outcome(r) == hydrated_span(raw_text(lazy), depth as nat),
    decreases rank(depth as nat),
{
    if depth > MAX_DEPTH {
        return Err(depth_exceeded());
    }
    let ghost raw = raw_text(lazy);
    let kind = span_kind(&lazy);
    match kind {
        JsonType::Null => Ok(HostValue::Null),
        JsonType::Boolean => match span_as_bool(&lazy) {
            Some(b) => Ok(HostValue::Bool(b)),
            None => Err(unknown_type_error()),
        },
        JsonType::Number => {
            if let Some(n) = span_as_i64(&lazy) {
                Ok(HostValue::Int(n))
            } else if let Some(n) = span_as_u64(&lazy) {
                Ok(unsigned_to_host(n))
            } else if let Some(bits) = span_as_double(&lazy) {
                Ok(HostValue::Float(bits))
            } else {
                Err(unknown_type_error())
            }
        },
        JsonType::String => match span_as_str(&lazy) {
            Some(s) => Ok(HostValue::Str(s)),
            None => Err(unknown_type_error()),
        },
        JsonType::Array => {
            let mut it = match span_into_array(lazy) {
                Some(it) => it,
                None => {
                    return Err(unknown_type_error());
                },
            };
            let mut out: Vec<HostValue> = Vec::new();
            assert(items_view(out@) == Seq::<HostView>::empty());
            loop
                invariant
                    depth <= MAX_DEPTH,
                    hydrated_items(array_items(raw), (depth + 1) as nat, Seq::empty())
                        == hydrated_items(array_pending(it), (depth + 1) as nat, items_view(out@)),
                decreases array_pending(it).len(),
            {
                match array_next(&mut it) {
                    None => {
                        proof {
                            lemma_array_view(out);
                        }
                        return Ok(HostValue::Array(out));
                    },
                    Some(Err(e)) => {
                        return Err(malformed_error(&e));
                    },
                    Some(Ok(item)) => {
                        let v = match lazyvalue_to_zval_with_depth(item, depth + 1) {
                            Ok(v) => v,
                            Err(e) => {
                                return Err(e);
                            },
                        };
                        assert(items_view(out@.push(v)) == items_view(out@).push(v@));
                        out.push(v);
                    },
                }
            }
        },
        JsonType::Object => {
            let mut it = match span_into_object(lazy) {
                Some(it) => it,
                None => {
                    return Err(unknown_type_error());
                },
            };
            let mut out = ObjectBuilder::new();
            loop
                invariant
                    depth <= MAX_DEPTH,
                    hydrated_members(object_members(raw), (depth + 1) as nat, Seq::empty())
                        == hydrated_members(object_pending(it), (depth + 1) as nat, out@),
                decreases object_pending(it).len(),
            {
                match object_next(&mut it) {
                    None => {
                        let members = out.finish();
                        proof {
                            lemma_object_view(members);
                        }
                        return Ok(HostValue::Object(members));
                    },
                    Some(Err(e)) => {
                        return Err(malformed_error(&e));
                    },
                    Some(Ok(member)) => {
                        let (key, item) = member;
                        let v = match lazyvalue_to_zval_with_depth(item, depth + 1) {
                            Ok(v) => v,
                            Err(e) => {
                                return Err(e);
                            },
                        };
                        out = out.insert(key, v);
                    },
                }
            }
        },
    }
}

/// Converts a parsed tree into a host value, counting depth from zero.
pub fn value_to_zval(value: &sonic_rs::Value) -> (r: Result<HostValue, SonicError>)
    ensures
        outcome(r) == hydrated_tree(json_of(*value), 0),
        r matches Ok(v) ==> well_formed(v@),
{
    proof {
        lemma_tree_well_formed(json_of(*value), 0);
    }
    value_to_zval_with_depth(value, 0)
}

/// Converts a parsed tree at nesting `depth` into a host value.
#[verifier::loop_isolation(false)]
pub(crate) fn value_to_zval_with_depth(value: &sonic_rs::Value, depth: usize) -> (r: Result<
    HostValue,
    SonicError,
>)
    ensures
        outcome(r) == hydrated_tree(json_of(*value), depth as nat),
    decreases rank(depth as nat),
{
    if depth > MAX_DEPTH {
        return Err(depth_exceeded());
    }
    let kind = node_kind(value);
    match kind {
        JsonType::Null => Ok(HostValue::Null),
        JsonType::Boolean => match node_as_bool(value) {
            Some(b) => Ok(HostValue::Bool(b)),
            None => Err(unknown_type_error()),
        },
        JsonType::Number => {
            if let Some(n) = node_as_i64(value) {
                Ok(HostValue::Int(n))
            } else if let Some(n) = node_as_u64(value) {
                Ok(unsigned_to_host(n))
            } else if let Some(bits) = node_as_double(value) {
                Ok(HostValue::Float(bits))
            } else {
                Err(unknown_type_error())
            }
        },
        JsonType::String => match node_as_str(value) {
            Some(s) => Ok(HostValue::Str(s)),
            None => Err(unknown_type_error()),
        },
        JsonType::Array => {
            let items = match node_items(value) {
                Some(items) => items,
                None => {
                    return Err(unknown_type_error());
                },
            };
            let ghost nodes = Seq::new(items@.len(), |i: int| json_of(*items@[i]));
            let mut out: Vec<HostValue> = Vec::new();
            let mut i: usize = 0;
            assert(items_view(out@) == Seq::<HostView>::empty());
            assert(nodes.skip(0) == nodes);
            while i < items.len()
                invariant
                    depth <= MAX_DEPTH,
                    i <= items.len(),
                    nodes == Seq::new(items@.len(), |i: int| json_of(*items@[i])),
                    hydrated_nodes(nodes, (depth + 1) as nat, Seq::empty()) == hydrated_nodes(
                        nodes.skip(i as int),
                        (depth + 1) as nat,
                        items_view(out@),
                    ),
                decreases items.len() - i,
            {
                assert(nodes.skip(i as int)[0] == json_of(*items@[i as int]));
                assert(nodes.skip(i as int).skip(1) == nodes.skip(i + 1));
                let v = match value_to_zval_with_depth(items[i], depth + 1) {
                    Ok(v) => v,
                    Err(e) => {
                        return Err(e);
                    },
                };
                assert(items_view(out@.push(v)) == items_view(out@).push(v@));
                out.push(v);
                i = i + 1;
            }
            proof {
                lemma_array_view(out);
            }
            Ok(HostValue::Array(out))
        },
        JsonType::Object => {
            let members = match node_members(value) {
                Some(members) => members,
                None => {
                    return Err(unknown_type_error());
                },
            };
            let ghost fields = Seq::new(
                members@.len(),
                |i: int| (members@[i].0@, json_of(*members@[i].1)),
            );
            let mut out = ObjectBuilder::new();
            let mut i: usize = 0;
            assert(fields.skip(0) == fields);
            while i < members.len()
                invariant
                    depth <= MAX_DEPTH,
                    i <= members.len(),
                    fields == Seq::new(
                        members@.len(),
                        |i: int| (members@[i].0@, json_of(*members@[i].1)),
                    ),
                    hydrated_fields(fields, (depth + 1) as nat, Seq::empty()) == hydrated_fields(
                        fields.skip(i as int),
                        (depth + 1) as nat,
                        out@,
                    ),
                decreases members.len() - i,
            {
                assert(fields.skip(i as int)[0] == (
                    members@[i as int].0@,
                    json_of(*members@[i as int].1),
                ));
                assert(fields.skip(i as int).skip(1) == fields.skip(i + 1));
                let v = match value_to_zval_with_depth(members[i].1, depth + 1) {
                    Ok(v) => v,
                    Err(e) => {
                        return Err(e);
                    },
                };
                out = out.insert(members[i].0.clone(), v);
                i = i + 1;
            }
            let all = out.finish();
            proof {
                lemma_object_view(all);
            }
            Ok(HostValue::Object(all))
        },
    }
}

/// Full decode: parses the whole of `json` and converts it into a host value.
///
/// A document over [`MAX_INPUT_SIZE`] bytes is refused before any parsing.
pub fn decode(json: &str) -> (r: Result<HostValue, SonicError>)
    ensures
        outcome(r) == decoded(json@),
        r matches Ok(v) ==> well_formed(v@),
{
    proof {
        lemma_outcomes_well_formed(json@, Seq::empty());
    }
    match check_input_size(json.as_bytes().len()) {
        Err(e) => {
            return Err(e);
        },
        Ok(_) => {},
    }
    match parse_document(json) {
        Err(e) => Err(malformed_error(&e)),
        Ok(value) => value_to_zval(&value),
    }
}

/// Extracts the value at `pointer` without decoding the rest of `json`.
///
/// The empty pointer decodes the whole document. Any other pointer is parsed into
/// steps and handed to the skip-scan. Where the scan finds no such key or index, or a
/// step that does not fit the value, the caller learns only that the path was not
/// found; where it meets malformed JSON, that is a parse error.
pub fn get_by_pointer(json: &str, pointer: &str) -> (r: Result<HostValue, SonicError>)
    ensures
        outcome(r) == extracted(json@, pointer@),
        r matches Ok(v) ==> well_formed(v@),
{
    proof {
        lemma_outcomes_well_formed(json@, pointer@);
    }
    match check_input_size(json.as_bytes().len()) {
        Err(e) => {
            return Err(e);
        },
        Ok(_) => {},
    }
    let path = match parse_pointer(pointer) {
        Ok(path) => path,
        Err(e) => {
            return Err(e);
        },
    };
    if path.len() == 0 {
        return decode(json);
    }
    match locate(json, &path) {
        Err(e) => Err(scan_failure(&e)),
        Ok(lazy) => lazyvalue_to_zval(lazy),
    }
}

/// Whether `json` is within the size limit and parses as one JSON document. Oversized
/// input is not an error here: it is not valid.
pub fn is_valid(json: &str) -> (ok: bool)
    ensures
        ok == (byte_len(json@) <= MAX_INPUT_SIZE && parsed_ok(json@)),
{
    if json.as_bytes().len() > MAX_INPUT_SIZE {
        return false;
    }
    parse_document(json).is_ok()
}

/// How deep below itself a parsed tree nests: nothing for a scalar or an empty
/// container, else one more than the deepest of its children.
pub open spec fn nesting(tree: Json) -> nat
    decreases tree, 0nat,
{
    match tree {
        Json::Array(nodes) => nodes_nesting(nodes, 0),
        Json::Object(fields) => fields_nesting(fields, 0),
        _ => 0,
    }
}

/// One more than the deepest nesting among `nodes[from..]`, or nothing where there
/// are none.
pub open spec fn nodes_nesting(nodes: Seq<Json>, from: nat) -> nat
    decreases nodes, nodes.len() - from,
{
    if from >= nodes.len() {
        0
    } else {
        let first = 1 + nesting(nodes[from as int]);
        let rest = nodes_nesting(nodes, from + 1);
        if first >= rest {
            first
        } else {
            rest
        }
    }
}

/// One more than the deepest nesting among the values of `fields[from..]`, or nothing
/// where there are none.
pub open spec fn fields_nesting(fields: Seq<(Seq<char>, Json)>, from: nat) -> nat
    decreases fields, fields.len() - from,
{
    if from >= fields.len() {
        0
    } else {
        let first = 1 + nesting(fields[from as int].1);
        let rest = fields_nesting(fields, from + 1);
        if first >= rest {
            first
        } else {
            rest
        }
    }
}

/// Whether every number in the tree reads as an integer or a double.
pub open spec fn readable(tree: Json) -> bool
    decreases tree,
{
    match tree {
        Json::Number(n) => n !is Unread,
        Json::Array(nodes) => forall|i: int| 0 <= i < nodes.len() ==> readable(#[trigger] nodes[i]),
        Json::Object(fields) => forall|i: int|
            0 <= i < fields.len() ==> readable((#[trigger] fields[i]).1),
        _ => true,
    }
}

/// The depth guard on parsed trees: hydration at `depth` succeeds only where the
/// tree nests no deeper than [`MAX_DEPTH`] allows from there. For a tree whose numbers
/// all read, it succeeds exactly there, and where it fails, it fails with the depth
/// failure.
pub proof fn lemma_depth_guard(tree: Json, depth: nat)
    ensures
        hydrated_tree(tree, depth) is Ok ==> depth + nesting(tree) <= MAX_DEPTH,
        readable(tree) ==> (hydrated_tree(tree, depth) is Ok <==> depth + nesting(tree)
            <= MAX_DEPTH),
        readable(tree) ==> (hydrated_tree(tree, depth) matches Err(e) ==> e == too_deep()),
        hydrated_tree(tree, depth) matches Err(e) ==> e == too_deep() || e == unknown_type(),
    decreases tree, 0nat,
{
    if depth <= MAX_DEPTH {
        match tree {
            Json::Array(nodes) => {
                assert(nodes.skip(0) =~= nodes);
                lemma_depth_guard_nodes(nodes, 0, depth + 1, Seq::empty());
            },
            Json::Object(fields) => {
                assert(fields.skip(0) =~= fields);
                lemma_depth_guard_fields(fields, 0, depth + 1, Seq::empty());
            },
            _ => {},
        }
    }
}

proof fn lemma_depth_guard_nodes(nodes: Seq<Json>, from: nat, depth: nat, done: Seq<HostView>)
    requires
        from <= nodes.len(),
        1 <= depth <= MAX_DEPTH + 1,
    ensures
        ({
            let r = hydrated_nodes(nodes.skip(from as int), depth, done);
            let fits = depth - 1 + nodes_nesting(nodes, from) <= MAX_DEPTH;
            let reads = forall|i: int| from <= i < nodes.len() ==> readable(#[trigger] nodes[i]);
            &&& r is Ok ==> fits
            &&& reads ==> (r is Ok <==> fits)
            &&& reads ==> (r matches Err(e) ==> e == too_deep())
            &&& r matches Err(e) ==> e == too_deep() || e == unknown_type()
        }),
    decreases nodes, nodes.len() - from,
{
    let rest = nodes.skip(from as int);
    if from < nodes.len() {
        assert(rest[0] == nodes[from as int]);
        assert(rest.skip(1) =~= nodes.skip(from as int + 1));
        lemma_depth_guard(nodes[from as int], depth);
        match hydrated_tree(nodes[from as int], depth) {
            Ok(v) => {
                lemma_depth_guard_nodes(nodes, from + 1, depth, done.push(v));
            },
            Err(_) => {},
        }
    }
}

proof fn lemma_depth_guard_fields(
    fields: Seq<(Seq<char>, Json)>,
    from: nat,
    depth: nat,
    done: Seq<(Seq<char>, HostView)>,
)
    requires
        from <= fields.len(),
        1 <= depth <= MAX_DEPTH + 1,
    ensures
        ({
            let r = hydrated_fields(fields.skip(from as int), depth, done);
            let fits = depth - 1 + fields_nesting(fields, from) <= MAX_DEPTH;
            let reads = forall|i: int|
                from <= i < fields.len() ==> readable((#[trigger] fields[i]).1);
            &&& r is Ok ==> fits
            &&& reads ==> (r is Ok <==> fits)
            &&& reads ==> (r matches Err(e) ==> e == too_deep())
            &&& r matches Err(e) ==> e == too_deep() || e == unknown_type()
        }),
    decreases fields, fields.len() - from,
{
    let rest = fields.skip(from as int);
    if from < fields.len() {
        assert(rest[0] == fields[from as int]);
        assert(rest.skip(1) =~= fields.skip(from as int + 1));
        lemma_depth_guard(fields[from as int].1, depth);
        match hydrated_tree(fields[from as int].1, depth) {
            Ok(v) => {
                lemma_depth_guard_fields(
                    fields,
                    from + 1,
                    depth,
                    put(done, fields[from as int].0, v),
                );
            },
            Err(_) => {},
        }
    }
}

/// Hydration beyond the depth limit fails with the depth failure, for a span and
/// for a tree alike.
pub proof fn lemma_too_deep(raw: Seq<char>, tree: Json, depth: nat)
    requires
        depth > MAX_DEPTH,
    ensures
        hydrated_span(raw, depth) == Err::<HostView, Failure>(too_deep()),
        hydrated_tree(tree, depth) == Err::<HostView, Failure>(too_deep()),
{
}

/// The size guard: a document over [`MAX_INPUT_SIZE`] bytes is refused by decode and
/// by extraction, whatever the pointer, with the size failure; it is not valid.
pub proof fn lemma_size_guard(json: Seq<char>, pointer: Seq<char>)
    requires
        byte_len(json) > MAX_INPUT_SIZE,
    ensures
        decoded(json) == Err::<HostView, Failure>(oversized(byte_len(json))),
        extracted(json, pointer) == Err::<HostView, Failure>(oversized(byte_len(json))),
        oversized(byte_len(json)).kind == ErrorKind::ParseError,
{
}

/// Extraction by the empty pointer is the full decode.
pub proof fn lemma_empty_pointer_extracts_all(json: Seq<char>)
    ensures
        extracted(json, Seq::empty()) == decoded(json),
{
}

/// Extraction that fails because the path leads nowhere says the same of every path
/// and every document: that the path was not found. Neither the key nor the value
/// that stood in the way is in the words.
pub proof fn lemma_not_found_is_silent(json: Seq<char>, pointer: Seq<char>)
    requires
        byte_len(json) <= MAX_INPUT_SIZE,
        parsed_pointer(pointer) matches Ok(steps) && steps.len() > 0,
        located(json, pointer_steps(pointer)) matches Err(why) && (why.not_found
            || why.unmatched_type),
    ensures
        extracted(json, pointer) == Err::<HostView, Failure>(not_found()),
        not_found().text == "Path not found"@,
{
}

/// Malformed JSON met on the way along a path is a parse failure, not a missing path.
pub proof fn lemma_malformed_under_path(json: Seq<char>, pointer: Seq<char>)
    requires
        byte_len(json) <= MAX_INPUT_SIZE,
        parsed_pointer(pointer) matches Ok(steps) && steps.len() > 0,
        located(json, pointer_steps(pointer)) matches Err(why) && !why.not_found
            && !why.unmatched_type,
    ensures
        extracted(json, pointer) matches Err(e) && e.kind == ErrorKind::ParseError,
{
}

/// A document that decodes is valid; a valid one fails to decode only on the depth
/// guard or on a number that does not read.
pub proof fn lemma_valid_and_decode(json: Seq<char>)
    ensures
        decoded(json) is Ok ==> byte_len(json) <= MAX_INPUT_SIZE && parsed_ok(json),
        byte_len(json) <= MAX_INPUT_SIZE && parsed_ok(json) ==> (decoded(json) matches Err(e)
            ==> e == too_deep() || e == unknown_type()),
{
    if let Ok(tree) = parsed(json) {
        lemma_depth_guard(tree, 0);
    }
}

/// Every host value hydrated from a parsed tree is well formed: no object in it
/// holds a name twice.
pub proof fn lemma_tree_well_formed(tree: Json, depth: nat)
    ensures
        hydrated_tree(tree, depth) matches Ok(v) ==> well_formed(v),
    decreases rank(depth), 0nat,
{
    if depth <= MAX_DEPTH {
        match tree {
            Json::Array(nodes) => {
                lemma_nodes_well_formed(nodes, depth + 1, Seq::empty());
            },
            Json::Object(fields) => {
                lemma_fields_well_formed(fields, depth + 1, Seq::empty());
            },
            _ => {},
        }
    }
}

proof fn lemma_nodes_well_formed(nodes: Seq<Json>, depth: nat, done: Seq<HostView>)
    requires
        forall|i: int| 0 <= i < done.len() ==> well_formed(#[trigger] done[i]),
    ensures
        hydrated_nodes(nodes, depth, done) matches Ok(items) ==> forall|i: int|
            0 <= i < items.len() ==> well_formed(#[trigger] items[i]),
    decreases rank(depth) + 1, nodes.len(),
{
    if nodes.len() > 0 {
        lemma_tree_well_formed(nodes[0], depth);
        match hydrated_tree(nodes[0], depth) {
            Ok(v) => {
                lemma_nodes_well_formed(nodes.skip(1), depth, done.push(v));
            },
            Err(_) => {},
        }
    }
}

proof fn lemma_fields_well_formed(
    fields: Seq<(Seq<char>, Json)>,
    depth: nat,
    done: Seq<(Seq<char>, HostView)>,
)
    requires
        distinct_keys(done),
        well_formed_values(done),
    ensures
        hydrated_fields(fields, depth, done) matches Ok(members) ==> distinct_keys(members)
            && well_formed_values(members),
    decreases rank(depth) + 1, fields.len(),
{
    if fields.len() > 0 {
        lemma_tree_well_formed(fields[0].1, depth);
        match hydrated_tree(fields[0].1, depth) {
            Ok(v) => {
                lemma_put_distinct(done, fields[0].0, v);
                lemma_put_well_formed(done, fields[0].0, v);
                lemma_fields_well_formed(fields.skip(1), depth, put(done, fields[0].0, v));
            },
            Err(_) => {},
        }
    }
}

/// Every host value hydrated from a raw span is well formed: no object in it holds a
/// name twice.
pub proof fn lemma_span_well_formed(raw: Seq<char>, depth: nat)
    ensures
        hydrated_span(raw, depth) matches Ok(v) ==> well_formed(v),
    decreases rank(depth), 0nat,
{
    if depth <= MAX_DEPTH {
        match span_type(raw) {
            JsonType::Array => {
                lemma_items_well_formed(array_items(raw), depth + 1, Seq::empty());
            },
            JsonType::Object => {
                lemma_members_well_formed(object_members(raw), depth + 1, Seq::empty());
            },
            _ => {},
        }
    }
}

proof fn lemma_items_well_formed(
    items: Seq<Result<Seq<char>, Seq<char>>>,
    depth: nat,
    done: Seq<HostView>,
)
    requires
        forall|i: int| 0 <= i < done.len() ==> well_formed(#[trigger] done[i]),
    ensures
        hydrated_items(items, depth, done) matches Ok(all) ==> forall|i: int|
            0 <= i < all.len() ==> well_formed(#[trigger] all[i]),
    decreases rank(depth) + 1, items.len(),
{
    if items.len() > 0 {
        if let Ok(raw) = items[0] {
            lemma_span_well_formed(raw, depth);
            match hydrated_span(raw, depth) {
                Ok(v) => {
                    lemma_items_well_formed(items.skip(1), depth, done.push(v));
                },
                Err(_) => {},
            }
        }
    }
}

proof fn lemma_members_well_formed(
    members: Seq<Result<(Seq<char>, Seq<char>), Seq<char>>>,
    depth: nat,
    done: Seq<(Seq<char>, HostView)>,
)
    requires
        distinct_keys(done),
        well_formed_values(done),
    ensures
        hydrated_members(members, depth, done) matches Ok(all) ==> distinct_keys(all)
            && well_formed_values(all),
    decreases rank(depth) + 1, members.len(),
{
    if members.len() > 0 {
        if let Ok(member) = members[0] {
            lemma_span_well_formed(member.1, depth);
            match hydrated_span(member.1, depth) {
                Ok(v) => {
                    lemma_put_distinct(done, member.0, v);
                    lemma_put_well_formed(done, member.0, v);
                    lemma_members_well_formed(members.skip(1), depth, put(done, member.0, v));
                },
                Err(_) => {},
            }
        }
    }
}

/// Whatever decode and extraction hand out is well formed.
pub proof fn lemma_outcomes_well_formed(json: Seq<char>, pointer: Seq<char>)
    ensures
        decoded(json) matches Ok(v) ==> well_formed(v),
        extracted(json, pointer) matches Ok(v) ==> well_formed(v),
{
    if let Ok(tree) = parsed(json) {
        lemma_tree_well_formed(tree, 0);
    }
    if let Ok(raw) = located(json, pointer_steps(pointer)) {
        lemma_span_well_formed(raw, 0);
    }
}

} // verus!

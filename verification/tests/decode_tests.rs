use sift::errors::{ErrorKind, SonicError};
use sift::host::HostValue;
use sift::parser::{
    decode, get_by_pointer, is_valid, not_found_error, unknown_type_error, value_to_zval,
};
use sift::{Sift, Sonic};

fn s(x: &str) -> String {
    x.to_string()
}

fn nested_arrays(levels: usize, inner: &str) -> String {
    let mut doc = "[".repeat(levels);
    doc.push_str(inner);
    doc.push_str(&"]".repeat(levels));
    doc
}

fn nested_objects(levels: usize, inner: &str) -> String {
    let mut doc = "{\"k\":".repeat(levels);
    doc.push_str(inner);
    doc.push_str(&"}".repeat(levels));
    doc
}

#[test]
fn decode_scalars() {
    assert_eq!(decode("null").unwrap(), HostValue::Null);
    assert_eq!(decode("true").unwrap(), HostValue::Bool(true));
    assert_eq!(decode("false").unwrap(), HostValue::Bool(false));
    assert_eq!(decode("42").unwrap(), HostValue::Int(42));
    assert_eq!(decode("-7").unwrap(), HostValue::Int(-7));
    assert_eq!(decode("-9223372036854775808").unwrap(), HostValue::Int(i64::MIN));
    assert_eq!(decode("9223372036854775807").unwrap(), HostValue::Int(i64::MAX));
    assert_eq!(decode("1.5").unwrap(), HostValue::Float(1.5f64.to_bits()));
    assert_eq!(decode("-2e3").unwrap(), HostValue::Float((-2000.0f64).to_bits()));
    assert_eq!(decode("\"hi\"").unwrap(), HostValue::Str(s("hi")));
    assert_eq!(decode("  7  ").unwrap(), HostValue::Int(7));
}

#[test]
fn decode_string_escapes() {
    assert_eq!(decode("\"a\\n\\\"b\\u00e9\"").unwrap(), HostValue::Str(s("a\n\"bé")));
}

#[test]
fn decode_containers_keep_order() {
    let v = decode("{\"b\":[1,\"x\",null,true,{\"c\":[]}],\"a\":{}}").unwrap();
    assert_eq!(
        v,
        HostValue::Object(vec![
            (
                s("b"),
                HostValue::Array(vec![
                    HostValue::Int(1),
                    HostValue::Str(s("x")),
                    HostValue::Null,
                    HostValue::Bool(true),
                    HostValue::Object(vec![(s("c"), HostValue::Array(vec![]))]),
                ])
            ),
            (s("a"), HostValue::Object(vec![])),
        ])
    );
}

#[test]
fn decode_duplicate_keys_last_write_wins() {
    assert_eq!(
        decode("{\"a\":1,\"b\":2,\"a\":3}").unwrap(),
        HostValue::Object(vec![(s("a"), HostValue::Int(3)), (s("b"), HostValue::Int(2))])
    );
}

#[test]
fn lazy_duplicate_keys_last_write_wins() {
    assert_eq!(
        get_by_pointer("{\"o\":{\"a\":1,\"b\":2,\"a\":3}}", "/o").unwrap(),
        HostValue::Object(vec![(s("a"), HostValue::Int(3)), (s("b"), HostValue::Int(2))])
    );
}

#[test]
fn max_unsigned_decodes_as_double() {
    let expected = HostValue::Float((u64::MAX as f64).to_bits());
    assert_eq!(decode("18446744073709551615").unwrap(), expected);
    assert_eq!(get_by_pointer("[18446744073709551615]", "/0").unwrap(), expected);
    assert_eq!(
        decode("9223372036854775808").unwrap(),
        HostValue::Float((9223372036854775808.0f64).to_bits())
    );
}

#[test]
fn decode_malformed_is_parse_error() {
    for doc in ["", "{", "[1,", "{\"a\"}", "tru", "1 x", "[1] x"] {
        let e = decode(doc).unwrap_err();
        assert_eq!(e.kind(), ErrorKind::ParseError, "doc = {:?}", doc);
        assert!(!e.message().is_empty());
    }
}

#[test]
fn value_to_zval_walks_a_parsed_tree() {
    let value: sonic_rs::Value = sonic_rs::from_str("{\"a\":[1,2.5,\"z\"]}").unwrap();
    assert_eq!(
        value_to_zval(&value).unwrap(),
        HostValue::Object(vec![(
            s("a"),
            HostValue::Array(vec![
                HostValue::Int(1),
                HostValue::Float(2.5f64.to_bits()),
                HostValue::Str(s("z")),
            ])
        )])
    );
}

#[test]
fn pointer_round_trips_scalars() {
    let doc = "{\"a\":{\"b\":42,\"s\":\"x\",\"f\":0.25,\"t\":true,\"n\":null}}";
    assert_eq!(get_by_pointer(doc, "/a/b").unwrap(), HostValue::Int(42));
    assert_eq!(get_by_pointer(doc, "/a/s").unwrap(), HostValue::Str(s("x")));
    assert_eq!(get_by_pointer(doc, "/a/f").unwrap(), HostValue::Float(0.25f64.to_bits()));
    assert_eq!(get_by_pointer(doc, "/a/t").unwrap(), HostValue::Bool(true));
    assert_eq!(get_by_pointer(doc, "/a/n").unwrap(), HostValue::Null);
}

#[test]
fn pointer_reaches_array_elements() {
    let doc = "{\"users\":[{\"email\":\"a@x\"},{\"email\":\"b@x\"}]}";
    assert_eq!(get_by_pointer(doc, "/users/1/email").unwrap(), HostValue::Str(s("b@x")));
    assert_eq!(
        get_by_pointer(doc, "/users/0").unwrap(),
        HostValue::Object(vec![(s("email"), HostValue::Str(s("a@x")))])
    );
}

#[test]
fn pointer_extracts_nested_containers_lazily() {
    let doc = "{\"a\":[1,\"x\",null,true,1.5,{\"k\":[[],{}]},-3]}";
    assert_eq!(
        get_by_pointer(doc, "/a").unwrap(),
        HostValue::Array(vec![
            HostValue::Int(1),
            HostValue::Str(s("x")),
            HostValue::Null,
            HostValue::Bool(true),
            HostValue::Float(1.5f64.to_bits()),
            HostValue::Object(vec![(
                s("k"),
                HostValue::Array(vec![HostValue::Array(vec![]), HostValue::Object(vec![])])
            )]),
            HostValue::Int(-3),
        ])
    );
}

#[test]
fn pointer_escaping_reaches_keys_with_slash_and_tilde() {
    let doc = "{\"a/b\":1,\"a~b\":2,\"~1\":3}";
    assert_eq!(get_by_pointer(doc, "/a~1b").unwrap(), HostValue::Int(1));
    assert_eq!(get_by_pointer(doc, "/a~0b").unwrap(), HostValue::Int(2));
    assert_eq!(get_by_pointer(doc, "/~01").unwrap(), HostValue::Int(3));
}

#[test]
fn pointer_numeric_looking_key_is_a_key() {
    let doc = "{\"007\":\"bond\",\"7\":\"seven\"}";
    assert_eq!(get_by_pointer(doc, "/007").unwrap(), HostValue::Str(s("bond")));
    assert_eq!(get_by_pointer("[10,11]", "/01").unwrap_err().kind(), ErrorKind::KeyNotFound);
    assert_eq!(get_by_pointer("[10,11]", "/1").unwrap(), HostValue::Int(11));
}

#[test]
fn empty_pointer_decodes_whole_document() {
    let doc = "{\"a\":[1,2]}";
    assert_eq!(get_by_pointer(doc, "").unwrap(), decode(doc).unwrap());
    assert_eq!(get_by_pointer("[1", "").unwrap_err().kind(), ErrorKind::ParseError);
}

#[test]
fn missing_path_is_not_found_without_echo() {
    let doc = "{\"a\":{\"b\":1},\"c\":[1]}";
    for ptr in ["/secret_field", "/a/secret_field", "/c/5", "/c/secret_field", "/a/0", "/a/b/x"] {
        match get_by_pointer(doc, ptr) {
            Err(SonicError::KeyNotFound(m)) => {
                assert_eq!(m, "Path not found");
                assert!(!m.contains("secret_field"));
            }
            other => panic!("unexpected for {}: {:?}", ptr, other),
        }
    }
    let e = get_by_pointer(doc, "/secret_field").unwrap_err();
    assert!(!e.to_string().contains("secret_field"));
    assert_eq!(e.to_string(), "Key not found: Path not found");
}

#[test]
fn malformed_document_under_a_path_is_parse_error() {
    for (doc, ptr) in [
        ("{", "/a"),
        ("{\"a\":", "/a"),
        ("{\"a\":tru}", "/a"),
        ("[1,2", "/5"),
        ("{\"a\" 1}", "/a"),
        ("", "/a"),
        ("{\"a\":[1,}", "/a"),
    ] {
        let e = get_by_pointer(doc, ptr).unwrap_err();
        assert_eq!(e.kind(), ErrorKind::ParseError, "doc {:?} pointer {:?}", doc, ptr);
        assert!(!e.message().is_empty());
    }
    let expected = sonic_rs::get("{", &["a"]).unwrap_err().to_string();
    assert_eq!(get_by_pointer("{", "/a").unwrap_err().message(), expected);
}

#[test]
fn number_that_does_not_read_has_unknown_type() {
    let mut de = sonic_rs::Deserializer::from_str("[1,1e999]").use_rawnumber();
    let value = <sonic_rs::Value as sonic_rs::Deserialize>::deserialize(&mut de).unwrap();
    let e = value_to_zval(&value).unwrap_err();
    assert_eq!(e.kind(), ErrorKind::TypeError);
    assert_eq!(e.message(), "Unknown JSON value type");
    let mut de = sonic_rs::Deserializer::from_str("[1,-2,2.5,18446744073709551615]").use_rawnumber();
    let value = <sonic_rs::Value as sonic_rs::Deserialize>::deserialize(&mut de).unwrap();
    assert_eq!(
        value_to_zval(&value).unwrap(),
        HostValue::Array(vec![
            HostValue::Int(1),
            HostValue::Int(-2),
            HostValue::Float(2.5f64.to_bits()),
            HostValue::Float((u64::MAX as f64).to_bits()),
        ])
    );
}

#[test]
fn pointer_shape_is_checked() {
    let e = get_by_pointer("{}", "a").unwrap_err();
    assert_eq!(e.kind(), ErrorKind::InvalidPointer);
    assert_eq!(e.message(), "Pointer must start with '/' or be empty");
    let e = get_by_pointer("{}", &"/a".repeat(257)).unwrap_err();
    assert_eq!(e.kind(), ErrorKind::InvalidPointer);
    assert_eq!(e.message(), "Pointer has too many segments (257, max 256)");
}

fn built_arrays(levels: usize) -> sonic_rs::Value {
    let mut v = sonic_rs::Value::from(1i64);
    for _ in 0..levels {
        let mut a = sonic_rs::Array::new();
        a.push(v);
        v = a.into_value();
    }
    v
}

fn built_objects(levels: usize) -> sonic_rs::Value {
    let mut v = sonic_rs::Value::from(true);
    for _ in 0..levels {
        let mut o = sonic_rs::Object::new();
        o.insert("k", v);
        v = o.into_value();
    }
    v
}

#[test]
fn depth_guard_on_parsed_tree() {
    assert!(value_to_zval(&built_arrays(512)).is_ok());
    let e = value_to_zval(&built_arrays(513)).unwrap_err();
    assert_eq!(e.kind(), ErrorKind::ParseError);
    assert_eq!(e.message(), "Maximum nesting depth (512) exceeded");
    assert!(value_to_zval(&built_objects(512)).is_ok());
    assert_eq!(
        value_to_zval(&built_objects(513)).unwrap_err().message(),
        "Maximum nesting depth (512) exceeded"
    );
}

#[test]
fn decode_nested_within_depth() {
    let mut expected = HostValue::Int(1);
    for _ in 0..20 {
        expected = HostValue::Array(vec![expected]);
    }
    assert_eq!(decode(&nested_arrays(20, "1")).unwrap(), expected);
    let mut expected = HostValue::Null;
    for _ in 0..20 {
        expected = HostValue::Object(vec![(s("k"), expected)]);
    }
    assert_eq!(decode(&nested_objects(20, "null")).unwrap(), expected);
}

#[test]
fn depth_guard_on_lazy_extraction() {
    let ok = format!("{{\"a\":{}}}", nested_arrays(512, "1"));
    assert!(get_by_pointer(&ok, "/a").is_ok());
    let deep = format!("{{\"a\":{}}}", nested_arrays(513, "1"));
    let e = get_by_pointer(&deep, "/a").unwrap_err();
    assert_eq!(e.kind(), ErrorKind::ParseError);
    assert_eq!(e.message(), "Maximum nesting depth (512) exceeded");
    let deep_objects = format!("[{}]", nested_objects(513, "0"));
    assert_eq!(
        get_by_pointer(&deep_objects, "/0").unwrap_err().message(),
        "Maximum nesting depth (512) exceeded"
    );
    assert!(get_by_pointer(&format!("[{}]", nested_objects(512, "0")), "/0").is_ok());
    assert!(get_by_pointer(&format!("[{}]", nested_arrays(513, "")), "/0").is_ok());
    assert!(get_by_pointer(&format!("[{}]", nested_arrays(514, "")), "/0").is_err());
}

#[test]
fn size_guard_on_decode_and_pointer() {
    let mut doc = String::with_capacity(64 * 1024 * 1024 + 1);
    doc.push('"');
    doc.push_str(&"a".repeat(64 * 1024 * 1024 - 1));
    doc.push('"');
    assert_eq!(doc.len(), 64 * 1024 * 1024 + 1);
    let e = decode(&doc).unwrap_err();
    assert_eq!(e.kind(), ErrorKind::ParseError);
    assert!(e.message().contains("exceeds maximum"));
    assert_eq!(
        e.message(),
        "Input size (67108865 bytes) exceeds maximum allowed (67108864 bytes)"
    );
    let e = get_by_pointer(&doc, "/a").unwrap_err();
    assert_eq!(e.kind(), ErrorKind::ParseError);
    assert!(e.message().contains("exceeds maximum"));
    assert!(get_by_pointer(&doc, "no-slash").unwrap_err().message().contains("exceeds maximum"));
    assert!(!is_valid(&doc));
    assert!(!Sift::is_valid(&doc));
}

#[test]
fn size_is_counted_in_bytes() {
    let mut doc = String::from("\"");
    doc.push_str(&"é".repeat(32 * 1024 * 1024));
    doc.push('"');
    assert!(doc.chars().count() < 64 * 1024 * 1024);
    assert!(doc.len() > 64 * 1024 * 1024);
    assert!(decode(&doc).unwrap_err().message().contains("exceeds maximum"));
}

#[test]
fn validity() {
    assert!(is_valid("{\"a\":[1,2,{\"b\":null}]}"));
    assert!(is_valid(" 1 "));
    assert!(!is_valid(""));
    assert!(!is_valid("{\"a\":}"));
    assert!(!is_valid("[1,2"));
    assert!(!is_valid("1 2"));
}

#[test]
fn fixed_errors() {
    assert_eq!(not_found_error().kind(), ErrorKind::KeyNotFound);
    assert_eq!(not_found_error().message(), "Path not found");
    assert_eq!(unknown_type_error().kind(), ErrorKind::TypeError);
    assert_eq!(unknown_type_error().message(), "Unknown JSON value type");
}

#[test]
fn facades_forward() {
    let doc = "{\"a\":{\"b\":42}}";
    assert_eq!(Sift::get(doc, "/a/b").unwrap(), HostValue::Int(42));
    assert_eq!(Sonic::get(doc, "/a/b").unwrap(), HostValue::Int(42));
    assert_eq!(Sift::decode("[1]").unwrap(), HostValue::Array(vec![HostValue::Int(1)]));
    assert_eq!(Sonic::decode("[1]").unwrap(), HostValue::Array(vec![HostValue::Int(1)]));
    assert!(Sift::is_valid("[]"));
    assert!(Sonic::is_valid("[]"));
    assert!(!Sonic::is_valid("["));
    assert_eq!(Sift::query(doc.to_string()).pointer("/a/b").unwrap().integer().unwrap(), 42);
}

#[test]
fn parse_error_carries_the_parser_rendering() {
    let doc = "[1,";
    let expected = sonic_rs::from_str::<sonic_rs::Value>(doc).unwrap_err().to_string();
    assert!(!expected.is_empty());
    assert_eq!(decode(doc).unwrap_err().message(), expected);
    assert_eq!(get_by_pointer(doc, "").unwrap_err().message(), expected);
}

#[test]
fn parsed_numbers_follow_the_integer_policy() {
    let value: sonic_rs::Value =
        sonic_rs::from_str("[0,-1,9223372036854775807,9223372036854775808,1e2,-0.5]").unwrap();
    assert_eq!(
        value_to_zval(&value).unwrap(),
        HostValue::Array(vec![
            HostValue::Int(0),
            HostValue::Int(-1),
            HostValue::Int(i64::MAX),
            HostValue::Float((9223372036854775808.0f64).to_bits()),
            HostValue::Float(100.0f64.to_bits()),
            HostValue::Float((-0.5f64).to_bits()),
        ])
    );
}

#[test]
fn numeric_looking_string_stays_a_string() {
    let doc = "{\"s\":\"12\",\"t\":\"true\",\"n\":\"null\"}";
    assert_eq!(get_by_pointer(doc, "/s").unwrap(), HostValue::Str(s("12")));
    assert_eq!(get_by_pointer(doc, "/t").unwrap(), HostValue::Str(s("true")));
    assert_eq!(get_by_pointer(doc, "/n").unwrap(), HostValue::Str(s("null")));
    assert_eq!(
        decode(doc).unwrap(),
        HostValue::Object(vec![
            (s("s"), HostValue::Str(s("12"))),
            (s("t"), HostValue::Str(s("true"))),
            (s("n"), HostValue::Str(s("null"))),
        ])
    );
}

#[test]
fn wide_object_hydrates_in_linear_time() {
    let n = 200_000;
    let mut doc = String::from("{");
    for i in 0..n {
        if i > 0 {
            doc.push(',');
        }
        doc.push_str(&format!("\"k{}\":{}", i, i));
    }
    doc.push_str(",\"k0\":-1}");
    let check = |v: HostValue| match v {
        HostValue::Object(members) => {
            assert_eq!(members.len(), n);
            assert_eq!(members[0], (s("k0"), HostValue::Int(-1)));
            assert_eq!(members[n - 1], (format!("k{}", n - 1), HostValue::Int(n as i64 - 1)));
        }
        other => panic!("unexpected: {:?}", other),
    };
    check(decode(&doc).unwrap());
    check(get_by_pointer(&format!("[{}]", doc), "/0").unwrap());
}

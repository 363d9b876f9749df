use sift::errors::{ErrorKind, SonicError};
use sift::pointer::{classify_segment, parse_index, parse_pointer, unescape_segment, PathSegment};

fn key(s: &str) -> PathSegment {
    PathSegment::Key(s.to_string())
}

fn same(a: &[PathSegment], b: &[PathSegment]) -> bool {
    a.len() == b.len()
        && a.iter().zip(b.iter()).all(|(x, y)| match (x, y) {
            (PathSegment::Key(p), PathSegment::Key(q)) => p == q,
            (PathSegment::Index(p), PathSegment::Index(q)) => p == q,
            _ => false,
        })
}

fn chars(s: &str) -> Vec<char> {
    s.chars().collect()
}

#[test]
fn empty_pointer_is_root() {
    assert!(parse_pointer("").unwrap().is_empty());
}

#[test]
fn single_slash_is_one_empty_key() {
    assert!(same(&parse_pointer("/").unwrap(), &[key("")]));
}

#[test]
fn keys_and_indices_in_order() {
    let path = parse_pointer("/users/5000/email").unwrap();
    assert!(same(&path, &[key("users"), PathSegment::Index(5000), key("email")]));
}

#[test]
fn escapes_are_undone() {
    assert!(same(&parse_pointer("/a~1b").unwrap(), &[key("a/b")]));
    assert!(same(&parse_pointer("/a~0b").unwrap(), &[key("a~b")]));
}

#[test]
fn escape_order_is_slash_then_tilde() {
    assert!(same(&parse_pointer("/~01").unwrap(), &[key("~1")]));
    assert!(same(&parse_pointer("/~10").unwrap(), &[key("/0")]));
    assert!(same(&parse_pointer("/~~1~").unwrap(), &[key("~/~")]));
    assert!(same(&parse_pointer("/~2").unwrap(), &[key("~2")]));
}

#[test]
fn unescape_segment_two_passes() {
    assert_eq!(unescape_segment(&chars("a~1b~0c")), chars("a/b~c"));
    assert_eq!(unescape_segment(&chars("~")), chars("~"));
    assert_eq!(unescape_segment(&chars("")), chars(""));
    assert_eq!(unescape_segment(&chars("~00")), chars("~0"));
}

#[test]
fn plain_numerals_are_indices() {
    assert_eq!(parse_index(&chars("0")), Some(0));
    assert_eq!(parse_index(&chars("12")), Some(12));
    assert_eq!(parse_index(&chars("18446744073709551615")), Some(u64::MAX));
}

#[test]
fn numeric_looking_keys_stay_keys() {
    assert_eq!(parse_index(&chars("")), None);
    assert_eq!(parse_index(&chars("007")), None);
    assert_eq!(parse_index(&chars("00")), None);
    assert_eq!(parse_index(&chars("+5")), None);
    assert_eq!(parse_index(&chars("-1")), None);
    assert_eq!(parse_index(&chars("1a")), None);
    assert_eq!(parse_index(&chars("1.0")), None);
    assert_eq!(parse_index(&chars("18446744073709551616")), None);
    assert_eq!(parse_index(&chars("99999999999999999999999")), None);
    assert!(same(&parse_pointer("/007/+5").unwrap(), &[key("007"), key("+5")]));
}

#[test]
fn classify_segment_picks_variant() {
    assert!(same(&[classify_segment(&chars("7"))], &[PathSegment::Index(7)]));
    assert!(same(&[classify_segment(&chars("x7"))], &[key("x7")]));
}

#[test]
fn pointer_must_start_with_slash() {
    match parse_pointer("a/b") {
        Err(SonicError::InvalidPointer(m)) => {
            assert_eq!(m, "Pointer must start with '/' or be empty")
        }
        other => panic!("unexpected: {:?}", other),
    }
}

#[test]
fn pointer_segment_limit() {
    let ok = "/a".repeat(256);
    assert_eq!(parse_pointer(&ok).unwrap().len(), 256);
    let too_many = "/a".repeat(257);
    let e = parse_pointer(&too_many).unwrap_err();
    assert_eq!(e.kind(), ErrorKind::InvalidPointer);
    assert_eq!(e.message(), "Pointer has too many segments (257, max 256)");
}

#[test]
fn segment_clone_keeps_value() {
    let a = key("k");
    let b = a.clone();
    assert!(same(&[a], &[b]));
}

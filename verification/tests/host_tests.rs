use sift::errors::{ErrorKind, SonicError};
use sift::host::{HostValue, ObjectBuilder};
use sift::limits::{
    check_input_size, depth_exceeded, path_limit_exceeded, MAX_DEPTH, MAX_INPUT_SIZE,
    MAX_PATH_SEGMENTS, MAX_POINTER_SEGMENTS,
};
use sift::number::unsigned_to_host;
use sift::text::{chars_of, push_decimal, push_signed_decimal, string_of};

#[test]
fn limits_have_documented_values() {
    assert_eq!(MAX_INPUT_SIZE, 64 * 1024 * 1024);
    assert_eq!(MAX_DEPTH, 512);
    assert_eq!(MAX_POINTER_SEGMENTS, 256);
    assert_eq!(MAX_PATH_SEGMENTS, 256);
}

#[test]
fn size_check_at_the_limit() {
    assert!(check_input_size(0).is_ok());
    assert!(check_input_size(MAX_INPUT_SIZE).is_ok());
    let e = check_input_size(MAX_INPUT_SIZE + 1).unwrap_err();
    assert_eq!(e.kind(), ErrorKind::ParseError);
    assert_eq!(
        e.message(),
        "Input size (67108865 bytes) exceeds maximum allowed (67108864 bytes)"
    );
}

#[test]
fn guard_errors_have_fixed_text() {
    assert_eq!(depth_exceeded().message(), "Maximum nesting depth (512) exceeded");
    assert_eq!(depth_exceeded().kind(), ErrorKind::ParseError);
    assert_eq!(path_limit_exceeded().message(), "Path has too many segments (max 256)");
    assert_eq!(path_limit_exceeded().kind(), ErrorKind::InvalidPointer);
}

#[test]
fn error_rendering_has_kind_prefix() {
    let m = || "m".to_string();
    assert_eq!(SonicError::ParseError(m()).to_string(), "JSON parse error: m");
    assert_eq!(SonicError::InvalidPointer(m()).to_string(), "Invalid JSON pointer: m");
    assert_eq!(SonicError::KeyNotFound(m()).to_string(), "Key not found: m");
    assert_eq!(SonicError::TypeError(m()).to_string(), "Type conversion error: m");
    assert_eq!(SonicError::IoError(m()).to_string(), "IO error: m");
    assert_eq!(SonicError::IoError(m()).kind(), ErrorKind::IoError);
    assert_eq!(SonicError::TypeError(m()).kind(), ErrorKind::TypeError);
    assert_eq!(SonicError::KeyNotFound(m()).kind(), ErrorKind::KeyNotFound);
    assert_eq!(SonicError::KeyNotFound(m()).message(), "m");
}

#[test]
fn decimal_numerals() {
    let mut s = String::new();
    push_decimal(&mut s, 0);
    assert_eq!(s, "0");
    let mut s = String::from("n=");
    push_decimal(&mut s, 1090);
    assert_eq!(s, "n=1090");
    let mut s = String::new();
    push_decimal(&mut s, u64::MAX);
    assert_eq!(s, "18446744073709551615");
}

#[test]
fn signed_decimal_numerals() {
    let mut s = String::new();
    push_signed_decimal(&mut s, -1);
    assert_eq!(s, "-1");
    let mut s = String::new();
    push_signed_decimal(&mut s, i64::MIN);
    assert_eq!(s, "-9223372036854775808");
    let mut s = String::new();
    push_signed_decimal(&mut s, i64::MAX);
    assert_eq!(s, "9223372036854775807");
}

#[test]
fn chars_and_back() {
    let v = chars_of("a/é~b");
    assert_eq!(v, vec!['a', '/', 'é', '~', 'b']);
    assert_eq!(string_of(&v, 1, 4), "/é~");
    assert_eq!(string_of(&v, 2, 2), "");
}

#[test]
fn unsigned_within_signed_range_stays_integer() {
    assert_eq!(unsigned_to_host(0), HostValue::Int(0));
    assert_eq!(unsigned_to_host(i64::MAX as u64), HostValue::Int(i64::MAX));
}

#[test]
fn unsigned_beyond_signed_range_becomes_double() {
    assert_eq!(
        unsigned_to_host(i64::MAX as u64 + 1),
        HostValue::Float((9223372036854775808.0f64).to_bits())
    );
    assert_eq!(unsigned_to_host(u64::MAX), HostValue::Float((u64::MAX as f64).to_bits()));
    assert_eq!(unsigned_to_host(u64::MAX), HostValue::Float(0x43F0_0000_0000_0000));
}

#[test]
fn double_bits_round_to_nearest_even() {
    let base: u64 = 1 << 63;
    let cases = [
        base,
        base + 1,
        base + 1023,
        base + 1024,
        base + 1025,
        base + 2047,
        base + 2048,
        base + 3072,
        base + 3073,
        base + 5120,
        0xFFFF_FFFF_FFFF_F7FF,
        0xFFFF_FFFF_FFFF_F800,
        0xFFFF_FFFF_FFFF_FBFF,
        0xFFFF_FFFF_FFFF_FC00,
        u64::MAX - 1,
        u64::MAX,
        12345678901234567890,
    ];
    for n in cases {
        assert_eq!(unsigned_to_host(n), HostValue::Float((n as f64).to_bits()), "n = {}", n);
    }
}

#[test]
fn builder_appends_new_names() {
    let members = ObjectBuilder::new()
        .insert("a".to_string(), HostValue::Int(1))
        .insert("b".to_string(), HostValue::Int(2))
        .finish();
    assert_eq!(
        members,
        vec![("a".to_string(), HostValue::Int(1)), ("b".to_string(), HostValue::Int(2))]
    );
    assert!(ObjectBuilder::new().finish().is_empty());
}

#[test]
fn builder_last_write_wins_in_place() {
    let members = ObjectBuilder::new()
        .insert("a".to_string(), HostValue::Int(1))
        .insert("b".to_string(), HostValue::Int(2))
        .insert("a".to_string(), HostValue::Null)
        .insert("c".to_string(), HostValue::Int(3))
        .insert("b".to_string(), HostValue::Bool(true))
        .finish();
    assert_eq!(
        members,
        vec![
            ("a".to_string(), HostValue::Null),
            ("b".to_string(), HostValue::Bool(true)),
            ("c".to_string(), HostValue::Int(3)),
        ]
    );
}

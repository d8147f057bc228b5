use multi_value_gen::sigparse::parse_signatures;
use multi_value_gen::types::{Error, ValueType};

#[test]
fn parses_two_entries() {
    let r = parse_signatures(b"foo:i32,i64;bar:f32").unwrap();
    assert_eq!(r.len(), 2);
    assert_eq!(r[0].0, b"foo".to_vec());
    assert_eq!(r[0].1, vec![ValueType::I32, ValueType::I64]);
    assert_eq!(r[1].0, b"bar".to_vec());
    assert_eq!(r[1].1, vec![ValueType::F32]);
}

#[test]
fn whitespace_is_ignored() {
    let r = parse_signatures(b" foo : i32 , f64 ").unwrap();
    assert_eq!(r.len(), 1);
    assert_eq!(r[0].0, b"foo".to_vec());
    assert_eq!(r[0].1, vec![ValueType::I32, ValueType::F64]);
}

#[test]
fn empty_type_list_is_allowed() {
    let r = parse_signatures(b"foo:").unwrap();
    assert_eq!(r.len(), 1);
    assert_eq!(r[0].0, b"foo".to_vec());
    assert!(r[0].1.is_empty());
}

#[test]
fn empty_segments_are_skipped() {
    let r = parse_signatures(b";foo:i32;;").unwrap();
    assert_eq!(r.len(), 1);
    assert_eq!(r[0].0, b"foo".to_vec());
}

#[test]
fn missing_colon_is_malformed() {
    assert_eq!(parse_signatures(b"foo"), Err(Error::MalformedSignature));
}

#[test]
fn two_colons_are_malformed() {
    assert_eq!(parse_signatures(b"foo:i32:i64"), Err(Error::MalformedSignature));
}

#[test]
fn empty_name_is_malformed() {
    assert_eq!(parse_signatures(b":i32"), Err(Error::MalformedSignature));
}

#[test]
fn unknown_type_is_unsupported() {
    assert_eq!(parse_signatures(b"foo:i128"), Err(Error::UnsupportedType));
}

#[test]
fn empty_string_has_no_functions() {
    assert_eq!(parse_signatures(b""), Err(Error::NoFunctionsRequested));
    assert_eq!(parse_signatures(b";;"), Err(Error::NoFunctionsRequested));
}

#[test]
fn repeated_name_keeps_last_types() {
    let r = parse_signatures(b"a:i32;a:f64").unwrap();
    assert_eq!(r.len(), 1);
    assert_eq!(r[0].0, b"a".to_vec());
    assert_eq!(r[0].1, vec![ValueType::F64]);
}

//! Tests of the message transcoder: call encoding, return decoding, and
//! the textual argument grammar.

use cargo_contract::descriptor::{EventSpec, InterfaceDescriptor, MethodSpec};
use cargo_contract::error::Error;
use cargo_contract::transcoder::MessageTranscoder;
use cargo_contract::types::{TypeSpec, Value};

fn method(name: &str, selector: [u8; 4], params: Vec<TypeSpec>, ret: Option<TypeSpec>) -> MethodSpec {
    MethodSpec {
        name: name.to_string(),
        selector: selector.to_vec(),
        params,
        return_type: ret,
    }
}

fn transcoder(methods: Vec<MethodSpec>) -> MessageTranscoder {
    MessageTranscoder::new(InterfaceDescriptor::new(methods, Vec::new()).unwrap())
}

#[test]
fn flip_encodes_to_bare_selector() {
    let t = transcoder(vec![method("flip", [0xAA, 0xBB, 0xCC, 0xDD], vec![], None)]);
    let buf = t.encode("flip", &vec![]).unwrap();
    assert_eq!(buf, vec![0xAA, 0xBB, 0xCC, 0xDD]);
}

#[test]
fn flip_with_argument_is_arity_mismatch() {
    let t = transcoder(vec![method("flip", [0xAA, 0xBB, 0xCC, 0xDD], vec![], None)]);
    let err = t.encode("flip", &vec!["1".to_string()]).unwrap_err();
    assert_eq!(err, Error::ArityMismatch { expected: 0, actual: 1 });
}

#[test]
fn arity_mismatch_reports_exact_counts() {
    let t = transcoder(vec![
        method("zero", [0, 0, 0, 1], vec![], None),
        method("one", [0, 0, 0, 2], vec![TypeSpec::U8], None),
        method("two", [0, 0, 0, 3], vec![TypeSpec::U8, TypeSpec::Bool], None),
    ]);
    let args3 = vec!["1".to_string(), "2".to_string(), "3".to_string()];
    assert_eq!(
        t.encode("zero", &vec!["1".to_string()]).unwrap_err(),
        Error::ArityMismatch { expected: 0, actual: 1 }
    );
    assert_eq!(
        t.encode("one", &vec![]).unwrap_err(),
        Error::ArityMismatch { expected: 1, actual: 0 }
    );
    assert_eq!(
        t.encode("two", &args3).unwrap_err(),
        Error::ArityMismatch { expected: 2, actual: 3 }
    );
}

#[test]
fn unknown_method_is_reported_verbatim() {
    let t = transcoder(vec![method("flip", [1, 2, 3, 4], vec![], None)]);
    let err = t.encode("Flip", &vec![]).unwrap_err();
    assert_eq!(err, Error::UnknownMethod { name: "Flip".to_string() });
}

#[test]
fn integers_encode_little_endian() {
    let t = transcoder(vec![method(
        "set",
        [1, 2, 3, 4],
        vec![TypeSpec::U8, TypeSpec::U16, TypeSpec::U32],
        None,
    )]);
    let buf = t
        .encode(
            "set",
            &vec!["7".to_string(), "513".to_string(), "66051".to_string()],
        )
        .unwrap();
    assert_eq!(
        buf,
        vec![1, 2, 3, 4, 7, 0x01, 0x02, 0x03, 0x02, 0x01, 0x00]
    );
}

#[test]
fn u128_values_beyond_64_bits_encode() {
    let t = transcoder(vec![method("pay", [9, 9, 9, 9], vec![TypeSpec::U128], None)]);
    let buf = t.encode("pay", &vec!["18446744073709551616".to_string()]).unwrap();
    let mut expected = vec![9, 9, 9, 9];
    expected.extend_from_slice(&[0, 0, 0, 0, 0, 0, 0, 0, 1, 0, 0, 0, 0, 0, 0, 0]);
    assert_eq!(buf, expected);
}

#[test]
fn overflowing_integer_argument_is_rejected() {
    let t = transcoder(vec![method("set", [1, 2, 3, 4], vec![TypeSpec::U8], None)]);
    let err = t.encode("set", &vec!["256".to_string()]).unwrap_err();
    assert_eq!(
        err,
        Error::ArgumentDecodeError {
            index: 0,
            expected_type: "u8".to_string(),
            raw_value: "256".to_string(),
        }
    );
}

#[test]
fn argument_error_names_first_failing_index() {
    let t = transcoder(vec![method(
        "set",
        [1, 2, 3, 4],
        vec![TypeSpec::U8, TypeSpec::Bool],
        None,
    )]);
    let err = t
        .encode("set", &vec!["1".to_string(), "yes".to_string()])
        .unwrap_err();
    assert_eq!(
        err,
        Error::ArgumentDecodeError {
            index: 1,
            expected_type: "bool".to_string(),
            raw_value: "yes".to_string(),
        }
    );
}

#[test]
fn bool_arguments_encode_one_byte() {
    let t = transcoder(vec![method(
        "set",
        [1, 2, 3, 4],
        vec![TypeSpec::Bool, TypeSpec::Bool],
        None,
    )]);
    let buf = t
        .encode("set", &vec!["true".to_string(), "false".to_string()])
        .unwrap();
    assert_eq!(buf, vec![1, 2, 3, 4, 1, 0]);
}

#[test]
fn bytes_arguments_take_a_compact_length_prefix() {
    let t = transcoder(vec![method("put", [1, 2, 3, 4], vec![TypeSpec::Bytes], None)]);
    let buf = t.encode("put", &vec!["0x0102ff".to_string()]).unwrap();
    assert_eq!(buf, vec![1, 2, 3, 4, 0x0C, 0x01, 0x02, 0xff]);
}

#[test]
fn sixty_four_bytes_use_the_two_byte_length_form() {
    let t = transcoder(vec![method("put", [1, 2, 3, 4], vec![TypeSpec::Bytes], None)]);
    let arg = format!("0x{}", "ab".repeat(64));
    let buf = t.encode("put", &vec![arg]).unwrap();
    assert_eq!(&buf[..6], &[1, 2, 3, 4, 0x01, 0x01]);
    assert_eq!(buf.len(), 4 + 2 + 64);
    assert!(buf[6..].iter().all(|b| *b == 0xab));
}

#[test]
fn account_arguments_need_exactly_64_hex_digits() {
    let t = transcoder(vec![method(
        "transfer",
        [1, 2, 3, 4],
        vec![TypeSpec::AccountId],
        None,
    )]);
    let arg = format!("0x{}", "01".repeat(32));
    let buf = t.encode("transfer", &vec![arg]).unwrap();
    let mut expected = vec![1u8, 2, 3, 4];
    expected.extend_from_slice(&[1u8; 32]);
    assert_eq!(buf, expected);
    let short = format!("0x{}", "01".repeat(31));
    assert!(t.encode("transfer", &vec![short]).is_err());
}

#[test]
fn composite_arguments_parse_parenthesised() {
    let t = transcoder(vec![method(
        "set",
        [1, 2, 3, 4],
        vec![TypeSpec::Composite(vec![TypeSpec::Bool, TypeSpec::U16])],
        None,
    )]);
    let buf = t.encode("set", &vec!["(true,512)".to_string()]).unwrap();
    assert_eq!(buf, vec![1, 2, 3, 4, 1, 0x00, 0x02]);
}

#[test]
fn nested_composite_arguments_encode_by_concatenation() {
    let inner = TypeSpec::Composite(vec![TypeSpec::Bool]);
    let t = transcoder(vec![method(
        "set",
        [1, 2, 3, 4],
        vec![TypeSpec::Composite(vec![TypeSpec::U8, inner])],
        None,
    )]);
    let buf = t.encode("set", &vec!["(7,(false))".to_string()]).unwrap();
    assert_eq!(buf, vec![1, 2, 3, 4, 7, 0]);
}

#[test]
fn trailing_text_after_an_argument_is_rejected() {
    let t = transcoder(vec![method("set", [1, 2, 3, 4], vec![TypeSpec::U8], None)]);
    assert!(t.encode("set", &vec!["1x".to_string()]).is_err());
}

#[test]
fn get_decodes_a_32_bit_return_value() {
    let t = transcoder(vec![method("get", [1, 2, 3, 4], vec![], Some(TypeSpec::U32))]);
    let v = t.decode_return("get", &vec![0x2A, 0x00, 0x00, 0x00]).unwrap();
    assert_eq!(v, Value::U32(42));
}

#[test]
fn unit_return_accepts_only_an_empty_buffer() {
    let t = transcoder(vec![method("reset", [1, 2, 3, 4], vec![], None)]);
    assert_eq!(t.decode_return("reset", &vec![]).unwrap(), Value::Unit);
    assert_eq!(
        t.decode_return("reset", &vec![0]).unwrap_err(),
        Error::DecodeError
    );
}

#[test]
fn trailing_return_bytes_are_their_own_error() {
    let t = transcoder(vec![method("get", [1, 2, 3, 4], vec![], Some(TypeSpec::U32))]);
    let err = t.decode_return("get", &vec![42, 0, 0, 0, 9]).unwrap_err();
    assert_eq!(err, Error::TrailingDataError);
}

#[test]
fn short_return_buffer_is_a_decode_error() {
    let t = transcoder(vec![method("get", [1, 2, 3, 4], vec![], Some(TypeSpec::U32))]);
    assert_eq!(t.decode_return("get", &vec![42, 0]).unwrap_err(), Error::DecodeError);
}

#[test]
fn decode_return_on_unknown_method_fails() {
    let t = transcoder(vec![method("get", [1, 2, 3, 4], vec![], Some(TypeSpec::U32))]);
    assert_eq!(
        t.decode_return("got", &vec![]).unwrap_err(),
        Error::UnknownMethod { name: "got".to_string() }
    );
}

#[test]
fn encode_then_decode_recovers_argument_values() {
    let t = transcoder(vec![
        method("roundtrip", [5, 6, 7, 8], vec![TypeSpec::U64, TypeSpec::Bool], None),
        method("peek", [5, 6, 7, 9], vec![], Some(TypeSpec::U64)),
    ]);
    let buf = t
        .encode("roundtrip", &vec!["300".to_string(), "true".to_string()])
        .unwrap();
    assert_eq!(&buf[..4], &[5, 6, 7, 8]);
    let value_bytes: Vec<u8> = buf[4..12].to_vec();
    let back = t.decode_return("peek", &value_bytes).unwrap();
    assert_eq!(back, Value::U64(300));
    assert_eq!(buf[12], 1);
}

#[test]
fn duplicate_selectors_are_a_load_time_error() {
    let m1 = method("a", [1, 2, 3, 4], vec![], None);
    let m2 = method("b", [1, 2, 3, 4], vec![], None);
    assert_eq!(
        InterfaceDescriptor::new(vec![m1, m2], Vec::new()).unwrap_err(),
        Error::InvalidDescriptor
    );
}

#[test]
fn duplicate_method_names_are_a_load_time_error() {
    let m1 = method("a", [1, 2, 3, 4], vec![], None);
    let m2 = method("a", [5, 6, 7, 8], vec![], None);
    assert!(InterfaceDescriptor::new(vec![m1, m2], Vec::new()).is_err());
}

#[test]
fn selectors_must_be_four_bytes() {
    let m = MethodSpec {
        name: "a".to_string(),
        selector: vec![1, 2, 3],
        params: vec![],
        return_type: None,
    };
    assert!(InterfaceDescriptor::new(vec![m], Vec::new()).is_err());
}

#[test]
fn event_signatures_must_be_four_bytes() {
    let e = EventSpec {
        name: "Emitted".to_string(),
        signature: vec![1, 2, 3, 4, 5],
        fields: vec![],
    };
    assert!(InterfaceDescriptor::new(Vec::new(), vec![e]).is_err());
}

#[test]
fn method_lookup_is_case_sensitive() {
    let t = transcoder(vec![method("get", [1, 2, 3, 4], vec![], Some(TypeSpec::U32))]);
    assert!(t.descriptor().lookup("get").is_ok());
    assert!(t.descriptor().lookup("GET").is_err());
}

#[test]
fn values_render_in_the_argument_grammar() {
    assert_eq!(Value::Bool(true).render(), "true");
    assert_eq!(Value::U32(42).render(), "42");
    assert_eq!(Value::U128(0).render(), "0");
    assert_eq!(Value::Bytes(vec![0x01, 0x02, 0xff]).render(), "0x0102ff");
    assert_eq!(
        Value::Composite(vec![Value::Bool(true), Value::U16(512)]).render(),
        "(true,512)"
    );
    assert_eq!(Value::Unit.render(), "()");
}

#[test]
fn decoded_return_values_render_back_to_their_textual_form() {
    let t = transcoder(vec![method("get", [1, 2, 3, 4], vec![], Some(TypeSpec::U32))]);
    let v = t.decode_return("get", &vec![0x2A, 0x00, 0x00, 0x00]).unwrap();
    assert_eq!(v.render(), "42");
}

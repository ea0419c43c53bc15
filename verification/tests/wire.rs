use chuk_tool_runtime::isolation::wire::{
    decode_body, decode_header, encode_message, WireError, MAX_FRAME_BYTES,
};
use chuk_tool_runtime::text::decimal_text;
use serde_json::Value;

fn object(pairs: &[(&str, Value)]) -> Value {
    let mut m = serde_json::Map::new();
    for (k, v) in pairs {
        m.insert(k.to_string(), v.clone());
    }
    Value::Object(m)
}

/// Split a frame into its declared length and its body, as a reader would.
fn read_frame(f: &[u8]) -> Result<Value, WireError> {
    let header = [f[0], f[1], f[2], f[3]];
    let len = decode_header(header)?;
    decode_body(&f[4..4 + len])
}

#[test]
fn round_trips_a_message() {
    let msg = object(&[
        ("method", Value::String("hello".to_string())),
        ("id", Value::from(1)),
    ]);
    let f = encode_message(&msg).unwrap();
    assert_eq!(read_frame(&f).unwrap(), msg);
}

#[test]
fn recv_rejects_an_oversized_declared_frame() {
    let header = ((MAX_FRAME_BYTES as u32) + 1).to_be_bytes();
    let err = decode_header(header).unwrap_err();
    assert_eq!(err, WireError::FrameTooLarge(MAX_FRAME_BYTES + 1));
    assert_eq!(err.message(), "declared frame length 8388609 exceeds cap");
}

#[test]
fn recv_rejects_a_non_object_message() {
    let err = decode_body(b"[1,2,3]").unwrap_err();
    assert_eq!(err, WireError::NotAnObject);
    assert!(err.message().contains("JSON object"));
}

#[test]
fn malformed_json_is_refused_with_the_parser_message() {
    let err = decode_body(b"{not json").unwrap_err();
    assert!(matches!(err, WireError::Malformed(_)));
    assert!(!err.message().is_empty());
}

#[test]
fn oversized_outgoing_message_is_refused() {
    let big = Value::String("x".repeat(MAX_FRAME_BYTES));
    let err = encode_message(&big).unwrap_err();
    // The JSON text adds two quote characters.
    assert_eq!(err, WireError::MessageTooLarge(MAX_FRAME_BYTES + 2));
    assert_eq!(err.message(), "message too large: 8388610");
}

#[test]
fn decimal_text_writes_digits() {
    assert_eq!(decimal_text(0), "0");
    assert_eq!(decimal_text(7), "7");
    assert_eq!(decimal_text(1024), "1024");
    assert_eq!(decimal_text(u64::MAX), "18446744073709551615");
}

#[test]
fn a_frame_carries_the_message_json_text() {
    let msg = object(&[("method", Value::String("list_tools".to_string())), ("id", Value::from(7))]);
    let f = encode_message(&msg).unwrap();
    let text = serde_json::to_vec(&msg).unwrap();
    assert_eq!(&f[4..], text.as_slice());
    assert_eq!(decode_header([f[0], f[1], f[2], f[3]]).unwrap(), text.len());
}

#[test]
fn a_body_cut_short_is_truncated() {
    let err = decode_body(b"{\"method\":").unwrap_err();
    assert!(matches!(err, WireError::Truncated(_)));
    assert!(!err.message().is_empty());
}

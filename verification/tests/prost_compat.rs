//! The wire format agrees with the protobuf encoding primitives of the
//! prost crate: varints, field keys, and length-delimited fields.

use miniserve::codec::{encode_client, encode_server};
use miniserve::messages::{ClientMessage, ServerMessage};
use miniserve::varint::{decode_varint, encode_varint};
use prost::encoding::{encode_key, encode_varint as prost_encode_varint, WireType};

fn lib_varint(n: u64) -> Vec<u8> {
    let mut out = Vec::new();
    encode_varint(n, &mut out);
    out
}

fn prost_varint(n: u64) -> Vec<u8> {
    let mut out = Vec::new();
    prost_encode_varint(n, &mut out);
    out
}

#[test]
fn varint_encoding_matches_prost() {
    let samples: Vec<u64> = vec![
        0,
        1,
        0x7F,
        0x80,
        0x81,
        300,
        0x3FFF,
        0x4000,
        123456789,
        u32::MAX as u64,
        (-1i32) as u32 as u64,
        (-1i64) as u64,
        u64::MAX / 2,
        u64::MAX,
    ];
    for &n in &samples {
        assert_eq!(lib_varint(n), prost_varint(n), "varint encodings differ for {n}");
    }
}

#[test]
fn varint_decoding_agrees_with_prost() {
    let samples: Vec<u64> = vec![0, 5, 0x7F, 0x80, 94624, u64::MAX];
    for &n in &samples {
        let bytes = prost_varint(n);
        let (value, end) = decode_varint(bytes.as_slice(), 0).expect("prost varint must decode");
        assert_eq!(value, n);
        assert_eq!(end, bytes.len());

        let lib_bytes = lib_varint(n);
        let mut cursor: &[u8] = lib_bytes.as_slice();
        let back = prost::encoding::decode_varint(&mut cursor).expect("prost must decode ours");
        assert_eq!(back, n);
        assert!(cursor.is_empty());
    }
}

#[test]
fn echo_envelope_matches_prost_field_layout() {
    // EchoMessage { content = field 1 } inside oneof field 1 of the envelope.
    let mut inner = Vec::new();
    encode_key(1, WireType::LengthDelimited, &mut inner);
    prost_encode_varint(2, &mut inner);
    inner.extend_from_slice(b"hi");

    let mut expected = Vec::new();
    encode_key(1, WireType::LengthDelimited, &mut expected);
    prost_encode_varint(inner.len() as u64, &mut expected);
    expected.extend_from_slice(&inner);

    let bytes = encode_client(&ClientMessage::Echo { content: b"hi".to_vec() });
    assert_eq!(bytes, expected);
}

#[test]
fn add_request_matches_prost_field_layout() {
    // AddRequest { a = field 1, b = field 2 } inside oneof field 2.
    let mut inner = Vec::new();
    prost::encoding::int32::encode(1, &-2, &mut inner);
    prost::encoding::int32::encode(2, &3, &mut inner);

    let mut expected = Vec::new();
    encode_key(2, WireType::LengthDelimited, &mut expected);
    prost_encode_varint(inner.len() as u64, &mut expected);
    expected.extend_from_slice(&inner);

    let bytes = encode_client(&ClientMessage::Add { a: -2, b: 3 });
    assert_eq!(bytes, expected);
}

#[test]
fn add_response_matches_prost_field_layout() {
    // AddResponse { result = field 1 } inside oneof field 2.
    let mut inner = Vec::new();
    prost::encoding::int32::encode(1, &-5, &mut inner);

    let mut expected = Vec::new();
    encode_key(2, WireType::LengthDelimited, &mut expected);
    prost_encode_varint(inner.len() as u64, &mut expected);
    expected.extend_from_slice(&inner);

    let bytes = encode_server(&ServerMessage::AddResult { result: -5 });
    assert_eq!(bytes, expected);
}

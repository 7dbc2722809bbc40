use miniserve::codec::{decode_client, decode_server, encode_client, encode_server};
use miniserve::messages::{ClientMessage, ServerMessage};

fn client_round_trips(m: &ClientMessage) -> ClientMessage {
    let bytes = encode_client(m);
    decode_client(bytes.as_slice()).expect("payload must decode")
}

fn server_round_trips(m: &ServerMessage) -> ServerMessage {
    let bytes = encode_server(m);
    decode_server(bytes.as_slice()).expect("payload must decode")
}

#[test]
fn echo_exact_bytes() {
    let m = ClientMessage::Echo { content: vec![b'h', b'i'] };
    let bytes = encode_client(&m);
    assert_eq!(bytes, vec![0x0A, 0x04, 0x0A, 0x02, b'h', b'i']);
}

#[test]
fn echo_empty_content_exact_bytes() {
    let m = ClientMessage::Echo { content: Vec::new() };
    let bytes = encode_client(&m);
    assert_eq!(bytes, vec![0x0A, 0x00]);
    let back = client_round_trips(&m);
    assert!(matches!(back, ClientMessage::Echo { content } if content.is_empty()));
}

#[test]
fn add_exact_bytes() {
    let m = ClientMessage::Add { a: 2, b: 3 };
    let bytes = encode_client(&m);
    assert_eq!(bytes, vec![0x12, 0x04, 0x08, 0x02, 0x10, 0x03]);
}

#[test]
fn add_zero_fields_are_omitted() {
    let bytes = encode_client(&ClientMessage::Add { a: 0, b: 5 });
    assert_eq!(bytes, vec![0x12, 0x02, 0x10, 0x05]);
    let bytes = encode_client(&ClientMessage::Add { a: 7, b: 0 });
    assert_eq!(bytes, vec![0x12, 0x02, 0x08, 0x07]);
    let bytes = encode_client(&ClientMessage::Add { a: 0, b: 0 });
    assert_eq!(bytes, vec![0x12, 0x00]);
}

#[test]
fn add_negative_sign_extends_to_ten_byte_varint() {
    let bytes = encode_client(&ClientMessage::Add { a: -1, b: 0 });
    let expected = vec![
        0x12, 0x0B, 0x08, 0xFF, 0xFF, 0xFF, 0xFF, 0xFF, 0xFF, 0xFF, 0xFF, 0xFF, 0x01,
    ];
    assert_eq!(bytes, expected);
}

#[test]
fn client_round_trip_all_variants() {
    let back = client_round_trips(&ClientMessage::Echo { content: b"abc".to_vec() });
    assert!(matches!(back, ClientMessage::Echo { content } if content == b"abc".to_vec()));

    let back = client_round_trips(&ClientMessage::Add { a: -12345, b: 67890 });
    assert!(matches!(back, ClientMessage::Add { a: -12345, b: 67890 }));

    let back = client_round_trips(&ClientMessage::Add { a: i32::MIN, b: i32::MAX });
    assert!(matches!(back, ClientMessage::Add { a: i32::MIN, b: i32::MAX }));

    let back = client_round_trips(&ClientMessage::Unset);
    assert!(matches!(back, ClientMessage::Unset));
}

#[test]
fn server_round_trip_all_variants() {
    let back = server_round_trips(&ServerMessage::Echo { content: b"reply".to_vec() });
    assert!(matches!(back, ServerMessage::Echo { content } if content == b"reply".to_vec()));

    let back = server_round_trips(&ServerMessage::AddResult { result: -7 });
    assert!(matches!(back, ServerMessage::AddResult { result: -7 }));

    let back = server_round_trips(&ServerMessage::AddResult { result: i32::MIN });
    assert!(matches!(back, ServerMessage::AddResult { result: i32::MIN }));

    let back = server_round_trips(&ServerMessage::Unset);
    assert!(matches!(back, ServerMessage::Unset));
}

#[test]
fn server_add_result_exact_bytes() {
    let bytes = encode_server(&ServerMessage::AddResult { result: 5 });
    assert_eq!(bytes, vec![0x12, 0x02, 0x08, 0x05]);
}

#[test]
fn empty_payload_is_unset() {
    assert!(matches!(decode_client(&[]), Ok(ClientMessage::Unset)));
    assert!(matches!(decode_server(&[]), Ok(ServerMessage::Unset)));
}

#[test]
fn truncated_payload_is_rejected() {
    assert!(decode_client(&[0x0A]).is_err());
    assert!(decode_client(&[0x0A, 0x80]).is_err());
    assert!(decode_client(&[0x0A, 0x05, 0x0A]).is_err());
}

#[test]
fn unknown_variant_key_is_rejected() {
    assert!(decode_client(&[0x1A, 0x00]).is_err());
    assert!(decode_server(&[0x2A, 0x01, 0x00]).is_err());
}

#[test]
fn trailing_bytes_are_rejected() {
    assert!(decode_client(&[0x12, 0x02, 0x08, 0x02, 0x00]).is_err());
}

#[test]
fn zero_valued_field_is_rejected_as_non_canonical() {
    assert!(decode_client(&[0x12, 0x02, 0x08, 0x00]).is_err());
}

#[test]
fn empty_inner_content_field_is_rejected_as_non_canonical() {
    assert!(decode_client(&[0x0A, 0x02, 0x0A, 0x00]).is_err());
}

#[test]
fn non_minimal_varint_is_rejected() {
    assert!(decode_client(&[0x12, 0x03, 0x08, 0x82, 0x00]).is_err());
}

#[test]
fn out_of_range_varint_is_rejected() {
    let mut payload = vec![0x12, 0x0B, 0x08];
    payload.extend_from_slice(&[0x80; 9]);
    payload.push(0x02);
    assert!(decode_client(&payload).is_err());
}

#[test]
fn misordered_add_fields_are_rejected() {
    assert!(decode_client(&[0x12, 0x04, 0x10, 0x03, 0x08, 0x02]).is_err());
}

use miniserve::codec::{decode_server, encode_client};
use miniserve::dispatch::{dispatch, process_message};
use miniserve::messages::{ClientMessage, ServerMessage};

#[test]
fn dispatch_echoes_content_verbatim() {
    let r = dispatch(ClientMessage::Echo { content: b"payload".to_vec() });
    assert!(matches!(r, Some(ServerMessage::Echo { content }) if content == b"payload".to_vec()));
}

#[test]
fn dispatch_adds_small_values() {
    let r = dispatch(ClientMessage::Add { a: 2, b: 3 });
    assert!(matches!(r, Some(ServerMessage::AddResult { result: 5 })));
}

#[test]
fn dispatch_add_wraps_at_max() {
    let r = dispatch(ClientMessage::Add { a: i32::MAX, b: 1 });
    assert!(matches!(r, Some(ServerMessage::AddResult { result: i32::MIN })));
}

#[test]
fn dispatch_add_wraps_at_min() {
    let r = dispatch(ClientMessage::Add { a: i32::MIN, b: -1 });
    assert!(matches!(r, Some(ServerMessage::AddResult { result: i32::MAX })));
}

#[test]
fn dispatch_add_boundary_sums() {
    let r = dispatch(ClientMessage::Add { a: i32::MAX, b: i32::MIN });
    assert!(matches!(r, Some(ServerMessage::AddResult { result: -1 })));
    let r = dispatch(ClientMessage::Add { a: i32::MIN, b: i32::MIN });
    assert!(matches!(r, Some(ServerMessage::AddResult { result: 0 })));
}

#[test]
fn dispatch_unset_yields_no_response() {
    assert!(dispatch(ClientMessage::Unset).is_none());
}

#[test]
fn process_answers_echo_with_identical_bytes() {
    let request = encode_client(&ClientMessage::Echo { content: b"hi".to_vec() });
    let response = process_message(request.as_slice()).expect("echo must be answered");
    let m = decode_server(response.as_slice()).expect("response must decode");
    assert!(matches!(m, ServerMessage::Echo { content } if content == b"hi".to_vec()));
    assert_eq!(response, vec![0x0A, 0x04, 0x0A, 0x02, b'h', b'i']);
}

#[test]
fn process_answers_add_with_sum() {
    let request = encode_client(&ClientMessage::Add { a: 2, b: 3 });
    let response = process_message(request.as_slice()).expect("add must be answered");
    let m = decode_server(response.as_slice()).expect("response must decode");
    assert!(matches!(m, ServerMessage::AddResult { result: 5 }));
}

#[test]
fn process_answers_overflowing_add_with_wrapped_sum() {
    let request = encode_client(&ClientMessage::Add { a: i32::MAX, b: 1 });
    let response = process_message(request.as_slice()).expect("add must be answered");
    let m = decode_server(response.as_slice()).expect("response must decode");
    assert!(matches!(m, ServerMessage::AddResult { result: i32::MIN }));
}

#[test]
fn process_is_silent_on_malformed_payload() {
    assert!(process_message(&[0xFF, 0x01, 0x02]).is_none());
    assert!(process_message(&[0x0A]).is_none());
}

#[test]
fn process_is_silent_on_unset_variant() {
    assert!(process_message(&[]).is_none());
}

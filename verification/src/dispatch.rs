//! The dispatch table: a pure mapping from a request variant to a
//! response variant.
//!
//! Echo content is returned verbatim. Addition uses wrapping 32-bit
//! arithmetic: the sum of `a` and `b` reduced modulo 2^32 into the range
//! of `i32`. An unset variant produces no response.

use vstd::prelude::*;
use crate::messages::{ClientMessage, ClientMsg, ServerMessage, ServerMsg};
use crate::codec::{
    dec_client, enc_client, enc_server, client_msg_wf, decode_client, encode_server,
    lemma_client_round_trip,
};

verus! {

/// What dispatch returns for each request variant.
pub open spec fn dispatch_spec(m: ClientMsg) -> Option<ServerMsg> {
    match m {
        ClientMsg::Unset => None,
        ClientMsg::Echo { content } => Some(ServerMsg::Echo { content }),
        ClientMsg::Add { a, b } => Some(
            ServerMsg::AddResult { result: vstd::wrapping::i32_specs::wrapping_add(a, b) },
        ),
    }
}

/// Map a decoded request to its response, if any.
///
/// An unset variant yields `None`: the caller sends nothing and keeps the
/// connection open.
pub fn dispatch(m: ClientMessage) -> (r: Option<ServerMessage>)
    ensures
        match r {
            Some(s) => dispatch_spec(m@) == Some(s@),
            None => dispatch_spec(m@) is None,
        },
{
    match m {
        ClientMessage::Unset => None,
        ClientMessage::Echo { content } => Some(ServerMessage::Echo { content }),
        ClientMessage::Add { a, b } => Some(
            ServerMessage::AddResult { result: a.wrapping_add(b) },
        ),
    }
}

/// Echo requests are answered by an echo response with the same content.
pub proof fn lemma_dispatch_echo_identity(content: Seq<u8>)
    ensures
        dispatch_spec(ClientMsg::Echo { content }) == Some(ServerMsg::Echo { content }),
{
}

/// Addition requests are answered by the wrapping 32-bit sum: the response
/// value is congruent to `a + b` modulo 2^32 and lies in `i32`'s range.
pub proof fn lemma_dispatch_add_wraps(a: i32, b: i32)
    ensures
        dispatch_spec(ClientMsg::Add { a, b }) matches Some(r)
            && r matches ServerMsg::AddResult { result }
            && i32::MIN <= result <= i32::MAX
            && (result - (a + b)) % 0x1_0000_0000 == 0,
{
    let result = vstd::wrapping::i32_specs::wrapping_add(a, b);
    assert((result - (a + b)) % 0x1_0000_0000 == 0) by (nonlinear_arith)
        requires
            result == vstd::wrapping::i32_specs::wrapping_add(a, b),
            i32::MIN <= a <= i32::MAX,
            i32::MIN <= b <= i32::MAX,
    ;
}

/// What one read's bytes produce on the wire: `None` for a decode failure
/// or an unset variant (nothing is written and the connection stays
/// open), otherwise the encoded response envelope.
pub open spec fn process_spec(b: Seq<u8>) -> Option<Seq<u8>> {
    match dec_client(b) {
        None => None,
        Some(m) => match dispatch_spec(m) {
            None => None,
            Some(resp) => Some(enc_server(resp)),
        },
    }
}

/// Decode one payload, dispatch it, and encode the response: the whole
/// message cycle of a worker between its read and its write.
pub fn process_message(buf: &[u8]) -> (r: Option<Vec<u8>>)
    ensures
        match r {
            Some(out) => process_spec(buf@) == Some(out@),
            None => process_spec(buf@) is None,
        },
{
    match decode_client(buf) {
        Err(_) => None,
        Ok(m) => match dispatch(m) {
            None => None,
            Some(resp) => Some(encode_server(&resp)),
        },
    }
}

/// A valid echo request is answered by the encoded echo response with the
/// identical content: round-trip identity over the wire.
pub proof fn lemma_echo_round_trip(content: Seq<u8>)
    requires
        client_msg_wf(ClientMsg::Echo { content }),
    ensures
        process_spec(enc_client(ClientMsg::Echo { content })) == Some(
            enc_server(ServerMsg::Echo { content }),
        ),
{
    lemma_client_round_trip(ClientMsg::Echo { content });
}

/// A valid addition request is answered by the encoded response holding
/// the wrapping 32-bit sum, for every pair of summands, boundary values
/// included.
pub proof fn lemma_add_round_trip(a: i32, b: i32)
    ensures
        process_spec(enc_client(ClientMsg::Add { a, b })) == Some(
            enc_server(
                ServerMsg::AddResult {
                    result: vstd::wrapping::i32_specs::wrapping_add(a, b),
                },
            ),
        ),
{
    lemma_client_round_trip(ClientMsg::Add { a, b });
}

/// A payload that decodes to no envelope produces no response bytes.
pub proof fn lemma_decode_failure_silent(b: Seq<u8>)
    requires
        dec_client(b) is None,
    ensures
        process_spec(b) is None,
{
}

/// An unset variant produces no response bytes either.
pub proof fn lemma_unset_silent()
    ensures
        process_spec(Seq::<u8>::empty()) == Option::<Seq<u8>>::None,
{
}

} // verus!

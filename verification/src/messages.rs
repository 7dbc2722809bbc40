//! The request and response envelopes exchanged over the wire.
//!
//! Each envelope is a tagged union with at most one populated variant.
//! Echo content is carried as raw bytes: the service returns it verbatim
//! and never inspects it.

use vstd::prelude::*;

verus! {

/// A decoded request envelope.
pub enum ClientMessage {
    /// No recognized variant was populated in the payload.
    Unset,
    /// Echo request: the content is to be returned verbatim.
    Echo { content: Vec<u8> },
    /// Addition request over 32-bit signed integers.
    Add { a: i32, b: i32 },
}

/// Mathematical model of a request envelope.
pub ghost enum ClientMsg {
    Unset,
    Echo { content: Seq<u8> },
    Add { a: i32, b: i32 },
}

impl View for ClientMessage {
    type V = ClientMsg;

    open spec fn view(&self) -> ClientMsg {
        match self {
            ClientMessage::Unset => ClientMsg::Unset,
            ClientMessage::Echo { content } => ClientMsg::Echo { content: content@ },
            ClientMessage::Add { a, b } => ClientMsg::Add { a: *a, b: *b },
        }
    }
}

/// A response envelope, mirroring the request variants.
pub enum ServerMessage {
    /// No variant populated; never produced by dispatch, but a decoder
    /// of an empty payload yields it.
    Unset,
    /// Echo response carrying the request content verbatim.
    Echo { content: Vec<u8> },
    /// Result of an addition request.
    AddResult { result: i32 },
}

/// Mathematical model of a response envelope.
pub ghost enum ServerMsg {
    Unset,
    Echo { content: Seq<u8> },
    AddResult { result: i32 },
}

impl View for ServerMessage {
    type V = ServerMsg;

    open spec fn view(&self) -> ServerMsg {
        match self {
            ServerMessage::Unset => ServerMsg::Unset,
            ServerMessage::Echo { content } => ServerMsg::Echo { content: content@ },
            ServerMessage::AddResult { result } => ServerMsg::AddResult { result: *result },
        }
    }
}

} // verus!

//! A minimal request/response message service, verified.
//!
//! A listener accepts stream connections; each connection is served by an
//! independent worker that reads one binary-encoded request envelope per
//! read, dispatches it to a handler (echo, 32-bit addition) and writes the
//! binary-encoded response back. This crate holds the verified core: the
//! wire codec, the dispatch table, the per-step decision logic of the
//! acceptor and the workers, and the registry of live connections. The
//! surrounding process supplies the transport and the threads.

pub mod messages;
pub mod dispatch;
pub mod varint;
pub mod codec;
pub mod registry;
pub mod lifecycle;

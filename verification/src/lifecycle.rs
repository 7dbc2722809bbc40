//! Lifecycle decisions of the acceptor and of the connection workers.
//!
//! The service is one-shot: its running flag is created false, flipped
//! true when the accept loop starts, and flipped false by a stop request;
//! it is never true again. The acceptor and every worker observe the flag
//! once per cycle and never block on it: an unavailable socket costs one
//! bounded backoff sleep, so a stop request is observed within one
//! interval of the current cycle's end. The decision of each cycle is a
//! pure function from the observed flag and the polled event to the next
//! action; the surrounding process performs the action (the read, the
//! write, the sleep, the thread) and feeds back the next event.

use vstd::prelude::*;
use crate::dispatch::{process_spec, process_message};

verus! {

/// The phase of the one-shot service.
#[derive(PartialEq, Eq, Structural, Clone, Copy, Debug)]
pub enum Phase {
    /// Constructed; the accept loop has not started: the flag is false.
    Created,
    /// The accept loop runs: the flag is true.
    Running,
    /// A stop was requested: the flag is false and stays false.
    Stopped,
}

/// The running flag with its one-shot discipline. The surrounding
/// process shares it between the acceptor and the workers and makes each
/// observation atomic; every method here is one such observation.
pub struct Lifecycle {
    phase: Phase,
}

impl View for Lifecycle {
    type V = Phase;

    closed spec fn view(&self) -> Phase {
        self.phase
    }
}

impl Lifecycle {
    /// A service not yet run.
    pub fn new() -> (r: Lifecycle)
        ensures
            r@ == Phase::Created,
    {
        Lifecycle { phase: Phase::Created }
    }

    /// The accept loop starts: the flag flips true, exactly once.
    pub fn start(&mut self)
        requires
            old(self)@ == Phase::Created,
        ensures
            final(self)@ == Phase::Running,
    {
        self.phase = Phase::Running;
    }

    /// A stop request: the flag flips false. Repeated calls are no-ops,
    /// and no transition leads out of `Stopped`, so the flag is never
    /// true again.
    pub fn stop(&mut self)
        ensures
            final(self)@ == Phase::Stopped,
    {
        self.phase = Phase::Stopped;
    }

    /// The current phase.
    pub fn phase(&self) -> (p: Phase)
        ensures
            p == self@,
    {
        self.phase
    }

    /// The flag as the acceptor and the workers observe it each cycle.
    pub fn is_running(&self) -> (b: bool)
        ensures
            b == (self@ == Phase::Running),
    {
        match self.phase {
            Phase::Running => true,
            _ => false,
        }
    }
}

/// What one non-blocking read on a worker's connection yielded.
pub enum ReadEvent {
    /// Zero bytes with a clean end-of-stream: the peer disconnected.
    Eof,
    /// One read's bytes, treated as exactly one message's payload.
    Data { bytes: Vec<u8> },
    /// No data available right now; the connection is still open.
    WouldBlock,
    /// Any other I/O failure on the read.
    Failed,
}

/// What a worker does after observing the flag and one read event.
pub enum WorkerAction {
    /// Write this payload back, flush, and continue the loop.
    Respond { payload: Vec<u8> },
    /// Continue the loop without writing: the message produced no
    /// response (decode failure or unset variant), the connection stays
    /// open.
    Continue,
    /// Sleep one bounded backoff interval, then continue the loop.
    Backoff,
    /// Terminate normally and deregister this connection.
    Finish,
    /// Terminate with failure and deregister this connection.
    Abort,
}

/// One cycle of a connection worker: the whole decision between two
/// reads. A stop observed at the top of the loop finishes the worker; a
/// peer disconnect finishes it normally; an unavailable read costs one
/// backoff; a read failure aborts it; read bytes are answered by exactly
/// the processed response, or by silence when processing yields none.
pub fn worker_step(running: bool, ev: ReadEvent) -> (act: WorkerAction)
    ensures
        !running ==> act is Finish,
        running && ev is Eof ==> act is Finish,
        running && ev is WouldBlock ==> act is Backoff,
        running && ev is Failed ==> act is Abort,
        running ==> match ev {
            ReadEvent::Data { bytes } => match act {
                WorkerAction::Respond { payload } => process_spec(bytes@) == Some(payload@),
                WorkerAction::Continue => process_spec(bytes@) is None,
                _ => false,
            },
            _ => true,
        },
{
    if !running {
        return WorkerAction::Finish;
    }
    match ev {
        ReadEvent::Eof => WorkerAction::Finish,
        ReadEvent::WouldBlock => WorkerAction::Backoff,
        ReadEvent::Failed => WorkerAction::Abort,
        ReadEvent::Data { bytes } => match process_message(bytes.as_slice()) {
            Some(payload) => WorkerAction::Respond { payload },
            None => WorkerAction::Continue,
        },
    }
}

/// What one non-blocking accept on the listener yielded.
pub enum AcceptEvent {
    /// A connection arrived; the process names it by this identity.
    Incoming { id: u64 },
    /// No pending connection right now.
    WouldBlock,
    /// The accept call failed; treated as transient.
    Failed,
}

/// What the acceptor does after observing the flag and one accept event.
pub enum AcceptorAction {
    /// Leave the loop and return: the service was stopped.
    Shutdown,
    /// Register this connection, hand it to a new worker, and poll on
    /// immediately.
    Register { id: u64 },
    /// Sleep one bounded backoff interval, then poll again.
    Backoff,
    /// Note the transient failure and poll again.
    Ignore,
}

/// One cycle of the acceptor. It shuts down exactly when the flag is
/// false, so no connection is accepted after a stop is observed; while
/// running, an arrived connection is registered under its identity, an
/// empty poll costs one backoff, and a transient failure is noted and
/// survived.
pub fn acceptor_step(running: bool, ev: AcceptEvent) -> (act: AcceptorAction)
    ensures
        act is Shutdown <==> !running,
        running ==> match ev {
            AcceptEvent::Incoming { id } => act == (AcceptorAction::Register { id }),
            AcceptEvent::WouldBlock => act is Backoff,
            AcceptEvent::Failed => act is Ignore,
        },
{
    if !running {
        return AcceptorAction::Shutdown;
    }
    match ev {
        AcceptEvent::Incoming { id } => AcceptorAction::Register { id },
        AcceptEvent::WouldBlock => AcceptorAction::Backoff,
        AcceptEvent::Failed => AcceptorAction::Ignore,
    }
}

} // verus!

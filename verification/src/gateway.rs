//! Connection-loop decisions: what the serving loop does with each frame
//! event, and how a connection moves between its phases.
//!
//! The surrounding loop owns the socket and the timers; it feeds raw
//! bytes to the assembler and hands every event here. Frame-local errors
//! drop only the current frame and keep the connection; transport errors
//! move the connection to its closing phase.

use vstd::prelude::*;
use vstd::string::StringSliceAdditionalSpecFns;

use crate::assembler::{SerialFrameAssembler, SerialFrameEvent};
use crate::dispatch::{dispatch_spec, prepare_dispatch, topic_bytes};
use crate::frame::SerialFrameError;

verus! {

/// What the serving loop must do after a frame event was handled.
#[derive(Debug)]
pub enum ServeAction {
    /// Nothing to do; keep reading.
    Idle,
    /// Forward this topic and payload to the messaging egress.
    Publish(heapless::String<64>, Vec<u8>),
    /// The frame was dropped for the given reason; keep the connection.
    FrameDropped(SerialFrameError),
    /// An oversized body was dropped; the assembler re-armed itself and
    /// the connection stays open.
    OverflowDropped,
}

/// Handles the event a `feed` call returned: on a completed frame, runs
/// the unstuff/parse/dispatch pipeline over the collected body and
/// resets the assembler; on overflow, just resets; on no event, does
/// nothing. Frame-local errors never ask the caller to close.
pub fn handle_frame_event(
    assembler: &mut SerialFrameAssembler,
    prefix: &str,
    event: Option<SerialFrameEvent>,
) -> (action: ServeAction)
    requires
        old(assembler).wf(),
    ensures
        final(assembler).wf(),
        final(assembler).cap() == old(assembler).cap(),
        event is None ==> {
            &&& action is Idle
            &&& final(assembler).body() == old(assembler).body()
            &&& final(assembler).is_collecting() == old(assembler).is_collecting()
        },
        event == Some(SerialFrameEvent::Overflow) ==> {
            &&& action is OverflowDropped
            &&& final(assembler).body() == Seq::<u8>::empty()
            &&& !final(assembler).is_collecting()
        },
        event == Some(SerialFrameEvent::Ready) ==> {
            &&& final(assembler).body() == Seq::<u8>::empty()
            &&& !final(assembler).is_collecting()
            &&& match dispatch_spec(old(assembler).body(), prefix.spec_bytes()) {
                Ok(p) => {
                    &&& action matches ServeAction::Publish(t, pl)
                    &&& topic_bytes(t) == p.0
                    &&& pl@ == p.1
                },
                Err(e) => action matches ServeAction::FrameDropped(f) && f == e,
            }
        },
{
    match event {
        None => ServeAction::Idle,
        Some(SerialFrameEvent::Overflow) => {
            assembler.reset();
            ServeAction::OverflowDropped
        },
        Some(SerialFrameEvent::Ready) => {
            let mut body = assembler.frame_to_vec();
            let outcome = prepare_dispatch(&mut body, prefix);
            assembler.reset();
            match outcome {
                Ok((topic, payload)) => ServeAction::Publish(topic, payload),
                Err(e) => ServeAction::FrameDropped(e),
            }
        },
    }
}

/// Where a connection stands in its accept/serve/close cycle.
#[derive(Clone, Copy, Debug, PartialEq, Eq, Structural)]
pub enum ConnectionPhase {
    /// Waiting in a blocking accept on the fixed port.
    Listening,
    /// A peer was accepted; the egress is being told of it.
    Accepted,
    /// Multiplexing inbound bytes, the outbound queue and the idle
    /// timeout.
    Serving,
    /// Closing the socket before the backoff and the next accept.
    Closing,
}

/// What the transport reported to the connection loop.
#[derive(Clone, Copy, Debug, PartialEq, Eq, Structural)]
pub enum ConnectionEvent {
    AcceptSucceeded,
    AcceptFailed,
    EgressNotified,
    ReadError,
    IdleTimeout,
    SocketClosed,
}

/// The connection phase after `event` is seen in `phase`: accepting
/// moves to `Accepted` and, once the egress was told, to `Serving`; a
/// read error or the idle timeout moves to `Closing`; a closed socket
/// returns to `Listening`. Any other pairing changes nothing.
pub open spec fn connection_step_spec(phase: ConnectionPhase, event: ConnectionEvent)
    -> ConnectionPhase {
    match (phase, event) {
        (ConnectionPhase::Listening, ConnectionEvent::AcceptSucceeded) => ConnectionPhase::Accepted,
        (ConnectionPhase::Accepted, ConnectionEvent::EgressNotified) => ConnectionPhase::Serving,
        (ConnectionPhase::Serving, ConnectionEvent::ReadError) => ConnectionPhase::Closing,
        (ConnectionPhase::Serving, ConnectionEvent::IdleTimeout) => ConnectionPhase::Closing,
        (ConnectionPhase::Closing, ConnectionEvent::SocketClosed) => ConnectionPhase::Listening,
        _ => phase,
    }
}

/// Advances the connection's phase on a transport event.
pub fn connection_step(phase: ConnectionPhase, event: ConnectionEvent) -> (next: ConnectionPhase)
    ensures
        next == connection_step_spec(phase, event),
{
    match (phase, event) {
        (ConnectionPhase::Listening, ConnectionEvent::AcceptSucceeded) => ConnectionPhase::Accepted,
        (ConnectionPhase::Accepted, ConnectionEvent::EgressNotified) => ConnectionPhase::Serving,
        (ConnectionPhase::Serving, ConnectionEvent::ReadError) => ConnectionPhase::Closing,
        (ConnectionPhase::Serving, ConnectionEvent::IdleTimeout) => ConnectionPhase::Closing,
        (ConnectionPhase::Closing, ConnectionEvent::SocketClosed) => ConnectionPhase::Listening,
        (p, _) => p,
    }
}

} // verus!

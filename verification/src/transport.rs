//! The socket transport's reconnect state machine.
//!
//! The transport owns the persistent daemon connection. It is either
//! connected, or disconnected and due for a connection attempt, or waiting
//! out the fixed backoff after a failure. The machine here decides the
//! transitions; the surrounding task performs the connecting, the waiting
//! and the frame I/O. On every transition out of the connected state the
//! in-flight correlation context is gone with the socket: nothing promises
//! delivery across a reconnect, and a reply to a request sent on a dead
//! socket is simply never matched.

use vstd::prelude::*;

verus! {

/// How long a failed connection waits before the next attempt.
pub const RECONNECT_BACKOFF_MS: u64 = 5000;

/// Where the transport stands.
#[derive(Debug, Clone, Copy, PartialEq, Eq, Structural)]
pub enum TransportState {
    /// No socket; a connection attempt is due now.
    Disconnected,
    /// The socket is up and carrying frames.
    Connected,
    /// The last attempt or session failed; the backoff is running.
    RetryWait,
}

/// What the surrounding task observed.
#[derive(Debug, Clone, Copy, PartialEq, Eq, Structural)]
pub enum TransportEvent {
    /// A connection attempt succeeded.
    ConnectSucceeded,
    /// A connection attempt failed.
    ConnectFailed,
    /// The socket died while connected: a read or write failed.
    IoError,
    /// The backoff wait has elapsed.
    BackoffElapsed,
}

/// What the surrounding task must do next.
#[derive(Debug, Clone, Copy, PartialEq, Eq, Structural)]
pub enum TransportAction {
    /// Try to connect now.
    AttemptConnect,
    /// Wait out the backoff, then report `BackoffElapsed`.
    Wait { ms: u64 },
    /// Carry frames until something happens.
    Run,
}

/// The next state after `event` arrives in `state`. An event that cannot
/// happen in a state changes nothing.
pub open spec fn transport_next_spec(state: TransportState, event: TransportEvent)
    -> TransportState {
    match (state, event) {
        (TransportState::Disconnected, TransportEvent::ConnectSucceeded) =>
            TransportState::Connected,
        (TransportState::Disconnected, TransportEvent::ConnectFailed) => TransportState::RetryWait,
        (TransportState::Connected, TransportEvent::IoError) => TransportState::RetryWait,
        (TransportState::RetryWait, TransportEvent::BackoffElapsed) =>
            TransportState::Disconnected,
        _ => state,
    }
}

/// What each state asks of the surrounding task.
pub open spec fn transport_action_spec(state: TransportState) -> TransportAction {
    match state {
        TransportState::Disconnected => TransportAction::AttemptConnect,
        TransportState::Connected => TransportAction::Run,
        TransportState::RetryWait => TransportAction::Wait { ms: RECONNECT_BACKOFF_MS },
    }
}

/// Steps the reconnect machine: the state after the event, and what to do
/// in it. Every failure path leads back to a connection attempt after one
/// fixed backoff, and nowhere else.
pub fn transport_step(state: TransportState, event: TransportEvent) -> (r: (
    TransportState,
    TransportAction,
))
    ensures
        r.0 == transport_next_spec(state, event),
        r.1 == transport_action_spec(r.0),
{
    let next = match (state, event) {
        (TransportState::Disconnected, TransportEvent::ConnectSucceeded) =>
            TransportState::Connected,
        (TransportState::Disconnected, TransportEvent::ConnectFailed) => TransportState::RetryWait,
        (TransportState::Connected, TransportEvent::IoError) => TransportState::RetryWait,
        (TransportState::RetryWait, TransportEvent::BackoffElapsed) =>
            TransportState::Disconnected,
        _ => state,
    };
    let action = match next {
        TransportState::Disconnected => TransportAction::AttemptConnect,
        TransportState::Connected => TransportAction::Run,
        TransportState::RetryWait => TransportAction::Wait { ms: RECONNECT_BACKOFF_MS },
    };
    (next, action)
}

/// A connection failure, wherever it strikes, is followed by exactly one
/// backoff wait and then a fresh attempt: the machine never waits twice
/// and never retries without waiting.
pub proof fn lemma_failure_leads_to_one_backoff()
    ensures
        transport_next_spec(TransportState::Connected, TransportEvent::IoError)
            == TransportState::RetryWait,
        transport_next_spec(TransportState::Disconnected, TransportEvent::ConnectFailed)
            == TransportState::RetryWait,
        transport_action_spec(TransportState::RetryWait) == (TransportAction::Wait {
            ms: RECONNECT_BACKOFF_MS,
        }),
        transport_next_spec(TransportState::RetryWait, TransportEvent::BackoffElapsed)
            == TransportState::Disconnected,
        transport_action_spec(TransportState::Disconnected) == TransportAction::AttemptConnect,
{
}

} // verus!

//! The serial session's decisions: the boot handshake, the liveness
//! watchdog, and the dispatch of inbound frames by register address.
//!
//! The session itself performs no reads or writes. The surrounding loop
//! reads the serial device on its short poll interval and hands each
//! observation in; the session decides what it means — keep waiting, tear
//! the link down, or act on a frame — and the loop performs it.

use vstd::prelude::*;

verus! {

use crate::buttons::{button_from_id_spec, movement_from_id_spec, Button, MovementButton};
use crate::frames::{construct_change_page, frame_is_ack, frame_is_read_response, page_frame_spec,
    parse_frame, read_response_addr, read_response_payload, InboundFrame};

/// How long the boot handshake waits for the panel's first acknowledgement.
pub const BOOT_TIMEOUT_MS: u64 = 1000;

/// How long the link may stay silent before the watchdog declares it lost.
pub const LIVENESS_TIMEOUT_MS: u64 = 2000;

/// How long a torn-down session waits before the next connection attempt.
pub const RETRY_TIMEOUT_MS: u64 = 5000;

/// The read loop's poll interval.
pub const READ_POLL_INTERVAL_MS: u64 = 10;

/// What one boot-handshake poll decides.
#[derive(Debug, Clone, Copy, PartialEq, Eq, Structural)]
pub enum BootVerdict {
    /// The panel acknowledged the page change: the session may start.
    Ready,
    /// Nothing yet; poll again.
    Waiting,
    /// The boot timeout passed without an acknowledgement: reset the panel
    /// to page zero, best effort, and fail the session start.
    Failed,
}

/// One poll of the boot handshake: `elapsed_ms` since the page-change
/// probe was written, `data` the bytes this poll read. Fails exactly when
/// the timeout has passed; is ready exactly when an acknowledgement
/// arrived in time.
pub fn boot_poll(elapsed_ms: u64, data: &[u8]) -> (v: BootVerdict)
    ensures
        v == BootVerdict::Failed <==> elapsed_ms > BOOT_TIMEOUT_MS,
        v == BootVerdict::Ready <==> (elapsed_ms <= BOOT_TIMEOUT_MS && frame_is_ack(data@)),
        v == BootVerdict::Waiting <==> (elapsed_ms <= BOOT_TIMEOUT_MS && !frame_is_ack(data@)),
{
    if elapsed_ms > BOOT_TIMEOUT_MS {
        BootVerdict::Failed
    } else {
        match parse_frame(data) {
            InboundFrame::WriteAck => BootVerdict::Ready,
            _ => BootVerdict::Waiting,
        }
    }
}

/// What an inbound frame asks the loop to do.
pub enum DispatchAction {
    /// A write acknowledgement; nothing to do.
    Ack,
    /// The panel reported page zero: it rebooted, so navigate it back to
    /// the main page.
    ResetToMainPage,
    /// The panel reported some other page.
    PageReport { page: u16 },
    /// A button press on the main pages.
    ButtonPress { button: Button },
    /// A button press on the movement pad.
    MovementPress { button: MovementButton },
    /// A register outside the dispatch map; carries what it sent, for the
    /// log.
    Unhandled { address: u16, payload: Vec<u8> },
    /// Not a frame this protocol knows, or shorter than it claims.
    Malformed,
}

/// The big-endian 16-bit value at the head of a payload.
pub open spec fn payload_word(p: Seq<u8>) -> u16 {
    ((p[0] as int) * 256 + (p[1] as int)) as u16
}

/// Classifies one inbound frame by its register address: the page
/// register's unsolicited reports, the two button registers, and
/// everything else.
pub fn dispatch_frame(data: &[u8]) -> (a: DispatchAction)
    ensures
        a is Ack <==> frame_is_ack(data@),
        !frame_is_ack(data@) && !frame_is_read_response(data@) ==> a is Malformed,
        frame_is_read_response(data@) && !frame_is_ack(data@) ==> {
            let addr = read_response_addr(data@);
            let payload = read_response_payload(data@);
            if payload.len() < 2 {
                a is Malformed
            } else if addr == 0x14 {
                if payload_word(payload) == 0 {
                    a is ResetToMainPage
                } else {
                    a matches DispatchAction::PageReport { page } && page == payload_word(payload)
                }
            } else if addr == 0x1000 {
                a matches DispatchAction::ButtonPress { button } && button == button_from_id_spec(
                    payload_word(payload),
                )
            } else if addr == 0x1001 {
                a matches DispatchAction::MovementPress { button } && button
                    == movement_from_id_spec(payload_word(payload))
            } else {
                a matches DispatchAction::Unhandled { address, payload: pl } && address == addr
                    && pl@ == payload
            }
        },
{
    match parse_frame(data) {
        InboundFrame::WriteAck => DispatchAction::Ack,
        InboundFrame::Malformed => DispatchAction::Malformed,
        InboundFrame::ReadResponse { address, payload } => {
            if payload.len() < 2 {
                return DispatchAction::Malformed;
            }
            let word = (payload[0] as u16) * 256 + (payload[1] as u16);
            if address == 0x14 {
                if word == 0 {
                    DispatchAction::ResetToMainPage
                } else {
                    DispatchAction::PageReport { page: word }
                }
            } else if address == 0x1000 {
                DispatchAction::ButtonPress { button: Button::from_id(word) }
            } else if address == 0x1001 {
                DispatchAction::MovementPress { button: MovementButton::from_id(word) }
            } else {
                DispatchAction::Unhandled { address, payload }
            }
        }
    }
}

/// The frame that sends a rebooted panel back to the main page.
pub fn session_reset_frame() -> (r: Vec<u8>)
    ensures
        r@ == page_frame_spec(1),
{
    construct_change_page(1)
}

/// The watchdog state of one serial session: when the link last showed
/// life, and whether it has been declared lost.
#[derive(Debug, Clone, Copy, PartialEq, Eq, Structural)]
pub struct SerialSession {
    pub last_alive_ms: u64,
    pub lost: bool,
}

/// What one steady-state poll decides.
#[derive(Debug, Clone, Copy, PartialEq, Eq, Structural)]
pub enum PollKind {
    /// The watchdog fired this poll: tear the session down. Reported only
    /// once per session.
    Lost,
    /// The session was already lost; nothing further happens on it.
    Dead,
    /// No data this poll; keep waiting.
    Idle,
    /// Data arrived: the link is alive, dispatch the frame.
    Dispatch,
}

/// True when the link has been silent longer than the watchdog allows.
pub open spec fn watchdog_fires(s: SerialSession, now_ms: u64) -> bool {
    now_ms - s.last_alive_ms > LIVENESS_TIMEOUT_MS
}

/// The session after one poll at `now_ms` that read `has_data`.
pub open spec fn session_step_state(s: SerialSession, now_ms: u64, has_data: bool)
    -> SerialSession {
    if s.lost {
        s
    } else if watchdog_fires(s, now_ms) {
        SerialSession { lost: true, ..s }
    } else if has_data {
        SerialSession { last_alive_ms: now_ms, ..s }
    } else {
        s
    }
}

/// What one poll at `now_ms` that read `has_data` reports.
pub open spec fn session_step_kind(s: SerialSession, now_ms: u64, has_data: bool) -> PollKind {
    if s.lost {
        PollKind::Dead
    } else if watchdog_fires(s, now_ms) {
        PollKind::Lost
    } else if has_data {
        PollKind::Dispatch
    } else {
        PollKind::Idle
    }
}

impl SerialSession {
    /// A fresh session, alive as of `now_ms`.
    pub fn start(now_ms: u64) -> (s: SerialSession)
        ensures
            s == (SerialSession { last_alive_ms: now_ms, lost: false }),
    {
        SerialSession { last_alive_ms: now_ms, lost: false }
    }

    /// One steady-state poll: first the watchdog, then the data. On a
    /// dead session nothing happens and nothing is dispatched; the
    /// watchdog reports the loss the one time it fires; data in time
    /// resets the liveness clock and is dispatched.
    pub fn poll(&mut self, now_ms: u64, data: &[u8]) -> (v: (PollKind, DispatchAction))
        requires
            now_ms >= old(self).last_alive_ms,
        ensures
            *final(self) == session_step_state(*old(self), now_ms, data@.len() > 0),
            v.0 == session_step_kind(*old(self), now_ms, data@.len() > 0),
            v.0 == PollKind::Dispatch ==> (v.1 is Ack <==> frame_is_ack(data@)),
            v.0 != PollKind::Dispatch ==> v.1 is Ack,
            v.0 == PollKind::Dispatch ==> call_ensures(dispatch_frame, (data,), v.1),
    {
        if self.lost {
            return (PollKind::Dead, DispatchAction::Ack);
        }
        if now_ms - self.last_alive_ms > LIVENESS_TIMEOUT_MS {
            self.lost = true;
            return (PollKind::Lost, DispatchAction::Ack);
        }
        if data.len() > 0 {
            self.last_alive_ms = now_ms;
            let action = dispatch_frame(data);
            return (PollKind::Dispatch, action);
        }
        (PollKind::Idle, DispatchAction::Ack)
    }
}

/// The watchdog reports a lost link exactly once: the poll on which it
/// fires reports `Lost` and marks the session; every later poll of that
/// session, whatever the time and whatever it reads, reports `Dead`,
/// changes nothing, and dispatches nothing.
pub proof fn lemma_session_lost_once(s: SerialSession, now_ms: u64, has_data: bool)
    requires
        !s.lost,
        now_ms >= s.last_alive_ms,
        watchdog_fires(s, now_ms),
    ensures
        session_step_kind(s, now_ms, has_data) == PollKind::Lost,
        session_step_state(s, now_ms, has_data).lost,
        forall|t: u64, d: bool|
            session_step_kind(session_step_state(s, now_ms, has_data), t, d) == PollKind::Dead,
        forall|t: u64, d: bool|
            session_step_state(session_step_state(s, now_ms, has_data), t, d)
                == session_step_state(s, now_ms, has_data),
{
}

} // verus!

//! The streaming-session lifecycle as an explicit state machine.
//!
//! A session owns one connection and two concurrent activities: a send loop
//! and a receive loop.  The runtime around the library performs the I/O and
//! feeds every outcome back as an event; the machine decides the next state
//! and what the activities must do.  Nothing may be sent outside the
//! `Streaming` state, and any stop condition tears both activities down.

use vstd::prelude::*;

verus! {

/// The lifecycle states of one session.
#[derive(Clone, Copy, PartialEq, Eq, Structural, Debug)]
pub enum SessionState {
    /// Transport handshake (protocol upgrade) in progress.
    Connecting,
    /// Send and receive activities are live.
    Streaming,
    /// A stop condition was seen; both activities are being stopped.
    Closing,
    /// Terminal; resources released.
    Closed,
}

/// Everything the two activities can report.
#[derive(Clone, Copy, PartialEq, Eq, Structural, Debug)]
pub enum SessionEvent {
    /// The protocol upgrade completed.
    HandshakeOk,
    /// The protocol upgrade failed; no session is created.
    HandshakeFailed,
    /// One frame was written on the interval tick.
    WriteOk,
    /// A write on the connection failed.
    WriteFailed,
    /// An inbound frame arrived whose payload is ignored.
    RecvData,
    /// The peer asked to close.
    RecvClose,
    /// Reading from the connection failed.
    RecvError,
    /// Both activities have confirmed they stopped.
    ActivitiesStopped,
}

/// What the runtime must do after an event.
#[derive(Clone, Copy, PartialEq, Eq, Structural, Debug)]
pub enum SessionAction {
    /// Keep both activities running.
    Proceed,
    /// Signal both activities to stop and close the connection.
    StopBoth,
    /// Release the session's resources.
    Release,
}

/// Frames may be written in this state and no other.
pub open spec fn may_send(st: SessionState) -> bool {
    st is Streaming
}

/// The transition function: next state and required action.
pub open spec fn spec_step(st: SessionState, e: SessionEvent) -> (SessionState, SessionAction) {
    match st {
        SessionState::Connecting => match e {
            SessionEvent::HandshakeOk => (SessionState::Streaming, SessionAction::Proceed),
            SessionEvent::HandshakeFailed => (SessionState::Closed, SessionAction::Release),
            _ => (SessionState::Connecting, SessionAction::Proceed),
        },
        SessionState::Streaming => match e {
            SessionEvent::WriteOk => (SessionState::Streaming, SessionAction::Proceed),
            SessionEvent::RecvData => (SessionState::Streaming, SessionAction::Proceed),
            SessionEvent::WriteFailed => (SessionState::Closing, SessionAction::StopBoth),
            SessionEvent::RecvClose => (SessionState::Closing, SessionAction::StopBoth),
            SessionEvent::RecvError => (SessionState::Closing, SessionAction::StopBoth),
            _ => (SessionState::Streaming, SessionAction::Proceed),
        },
        SessionState::Closing => match e {
            SessionEvent::ActivitiesStopped => (SessionState::Closed, SessionAction::Release),
            _ => (SessionState::Closing, SessionAction::Proceed),
        },
        SessionState::Closed => (SessionState::Closed, SessionAction::Proceed),
    }
}

/// One streaming session: its state and its send interval.
pub struct Session {
    pub state: SessionState,
    /// Milliseconds between two frames of the send activity.
    pub interval_ms: u64,
}

impl Session {
    /// A fresh session for one accepted connection, handshake pending.
    pub fn new(interval_ms: u64) -> (r: Session)
        ensures
            r.state is Connecting,
            r.interval_ms == interval_ms,
    {
        Session { state: SessionState::Connecting, interval_ms }
    }

    /// Feed one event; the state advances by the transition function and
    /// the returned action tells the runtime what to do.
    pub fn on_event(&mut self, e: SessionEvent) -> (r: SessionAction)
        ensures
            final(self).state == spec_step(old(self).state, e).0,
            r == spec_step(old(self).state, e).1,
            final(self).interval_ms == old(self).interval_ms,
    {
        let (next, act): (SessionState, SessionAction) = match self.state {
            SessionState::Connecting => match e {
                SessionEvent::HandshakeOk => (SessionState::Streaming, SessionAction::Proceed),
                SessionEvent::HandshakeFailed => (SessionState::Closed, SessionAction::Release),
                _ => (SessionState::Connecting, SessionAction::Proceed),
            },
            SessionState::Streaming => match e {
                SessionEvent::WriteOk => (SessionState::Streaming, SessionAction::Proceed),
                SessionEvent::RecvData => (SessionState::Streaming, SessionAction::Proceed),
                SessionEvent::WriteFailed => (SessionState::Closing, SessionAction::StopBoth),
                SessionEvent::RecvClose => (SessionState::Closing, SessionAction::StopBoth),
                SessionEvent::RecvError => (SessionState::Closing, SessionAction::StopBoth),
                _ => (SessionState::Streaming, SessionAction::Proceed),
            },
            SessionState::Closing => match e {
                SessionEvent::ActivitiesStopped => (
                    SessionState::Closed,
                    SessionAction::Release,
                ),
                _ => (SessionState::Closing, SessionAction::Proceed),
            },
            SessionState::Closed => (SessionState::Closed, SessionAction::Proceed),
        };
        self.state = next;
        act
    }

    /// Whether the send activity may write a frame right now.
    pub fn can_send(&self) -> (r: bool)
        ensures
            r == may_send(self.state),
    {
        match self.state {
            SessionState::Streaming => true,
            _ => false,
        }
    }
}

/// A close signal seen while streaming stops the session: the state leaves
/// `Streaming` at once, the runtime is told to stop both activities, and no
/// frame may be sent from the new state — so no frame is sent after the
/// current interval tick.
pub proof fn lemma_close_stops_sending()
    ensures
        spec_step(SessionState::Streaming, SessionEvent::RecvClose).0 is Closing,
        spec_step(SessionState::Streaming, SessionEvent::RecvClose).1 is StopBoth,
        !may_send(spec_step(SessionState::Streaming, SessionEvent::RecvClose).0),
{
}

/// A write failure on the send activity stops the receive activity too: the
/// runtime is told to stop both, so no activity is left orphaned.
pub proof fn lemma_write_failure_stops_both()
    ensures
        spec_step(SessionState::Streaming, SessionEvent::WriteFailed).0 is Closing,
        spec_step(SessionState::Streaming, SessionEvent::WriteFailed).1 is StopBoth,
        !may_send(spec_step(SessionState::Streaming, SessionEvent::WriteFailed).0),
{
}

/// Once a session has left `Streaming` for good — it is `Closing` or
/// `Closed` — no later event can ever make it send again.
pub proof fn lemma_no_send_after_stop(st: SessionState, e: SessionEvent)
    requires
        st is Closing || st is Closed,
    ensures
        !may_send(spec_step(st, e).0),
        spec_step(st, e).0 is Closing || spec_step(st, e).0 is Closed,
{
}

} // verus!

use vstd::prelude::*;
use crate::clip::Clip;
use crate::codec::{spec_clip_json, clip_json, spec_parse_clip, parse_clip};
use crate::retry::{Retry, spec_delay};

verus! {

/// Why a connect attempt or a live session ended.
#[derive(Debug)]
pub enum SessionFailure {
    /// The TCP/TLS/WebSocket handshake failed; carries the error text.
    ConnectFailed(String),
    /// The auth request frame could not be written; carries the error text.
    AuthSendFailed(String),
    /// The auth reply was missing, was not a text frame, or did not parse.
    AuthReplyInvalid(String),
    /// The server answered the auth request with success = false.
    AuthRejected,
    /// The transport reported an error on the live stream.
    StreamFailed(String),
    /// The server ended the stream.
    StreamClosed,
}

/// The states of the reconnecting session.
#[derive(Debug)]
pub enum SessionState {
    ReadyToConnect,
    Connecting,
    SendingAuth,
    WaitingForAuthReply,
    Connected,
    Sleeping { delay_secs: u64 },
    Disconnected { failure: SessionFailure },
}

/// A websocket frame as the session sees it, handed in as plain values.
#[derive(Debug)]
pub enum WireFrame {
    Ping,
    Pong,
    Text(String),
    Binary,
}

/// What the outside world hands back to the state machine: the outcome of
/// the I/O that the current state asked for.
#[derive(Debug)]
pub enum SessionInput {
    /// Drives the one state that needs no I/O outcome: scheduling a connect.
    Schedule,
    /// The outcome of the connect handshake, expected in `Connecting`.
    ConnectFinished(Result<(), String>),
    /// The outcome of writing the auth request frame, expected in `SendingAuth`.
    AuthSent(Result<(), String>),
    /// The auth reply: `Ok(success)` once a text frame parsed as the auth
    /// reply, `Err` for anything else; expected in `WaitingForAuthReply`.
    AuthReply(Result<bool, String>),
    /// The next frame of a live session (`None` = stream end), expected in
    /// `Connected`.
    Frame(Option<Result<WireFrame, String>>),
    /// The backoff timer may start, expected in `Disconnected`.
    SleepTimer,
    /// The backoff sleep elapsed, expected in `Sleeping`.
    SleepElapsed,
}

/// A message-level problem that does not by itself end the session: the
/// protocol tolerates stray frames, only the transport's own failures and
/// the stream end tear the session down.
#[derive(Debug)]
pub enum MessageIssue {
    /// A text frame did not parse as a clip; carries the frame.
    UnparseableText(String),
    /// A binary frame arrived; the protocol uses text frames only.
    UnexpectedBinary,
}

/// What one advance of the state machine reports.
#[derive(Debug)]
pub enum SessionEvent {
    StartedConnecting,
    Connected,
    Disconnected,
    AuthFailed,
    StartedSleeping(u64, SessionFailure),
    FinishedSleeping,
    ReceivedPing,
    ReceivedPong,
    ReceivedClip(Clip),
    MessageError(MessageIssue),
}

/// The reconnecting session: the state machine that turns a fallible
/// one-shot transport into an endless stream of session events with
/// exponential backoff. One clip may sit in `pending` while the session is
/// not connected; it is flushed after the next successful connect.
pub struct Session {
    pub state: SessionState,
    pub retry: Retry,
    pub pending: Option<Clip>,
}

impl Session {
    /// A session after `reset_connection`: ready to connect at once, with a
    /// fresh backoff counter; a pending clip survives.
    pub open spec fn spec_reset(self) -> Session {
        Session {
            state: SessionState::ReadyToConnect,
            retry: Retry { attempts_count: 0 },
            pending: self.pending,
        }
    }

    /// The transition relation of the state machine: `post` and `ev` are
    /// what `advance` leaves and reports when it runs on `pre` and `input`.
    /// One advance makes one transition; an input that does not belong to
    /// the current state changes nothing and reports nothing.
    pub open spec fn spec_transition(
        pre: Session,
        input: SessionInput,
        post: Session,
        ev: Option<SessionEvent>,
    ) -> bool {
        match (pre.state, input) {
            (SessionState::ReadyToConnect, SessionInput::Schedule) => {
                &&& post.state is Connecting
                &&& post.retry.attempts_count == if pre.retry.attempts_count < u64::MAX {
                    pre.retry.attempts_count + 1
                } else {
                    pre.retry.attempts_count as int
                }
                &&& post.pending == pre.pending
                &&& ev == Some(SessionEvent::StartedConnecting)
            },
            (SessionState::Connecting, SessionInput::ConnectFinished(res)) => {
                &&& post.retry == pre.retry
                &&& post.pending == pre.pending
                &&& match res {
                    Ok(_) => post.state is SendingAuth && ev is None,
                    Err(e) => post.state == (SessionState::Disconnected {
                        failure: SessionFailure::ConnectFailed(e),
                    }) && ev == Some(SessionEvent::Disconnected),
                }
            },
            (SessionState::SendingAuth, SessionInput::AuthSent(res)) => {
                &&& post.retry == pre.retry
                &&& post.pending == pre.pending
                &&& match res {
                    Ok(_) => post.state is WaitingForAuthReply && ev is None,
                    Err(e) => post.state == (SessionState::Disconnected {
                        failure: SessionFailure::AuthSendFailed(e),
                    }) && ev == Some(SessionEvent::Disconnected),
                }
            },
            (SessionState::WaitingForAuthReply, SessionInput::AuthReply(res)) => {
                &&& post.pending == pre.pending
                &&& match res {
                    Ok(success) => if success {
                        &&& post.state is Connected
                        &&& post.retry.attempts_count == 0
                        &&& ev == Some(SessionEvent::Connected)
                    } else {
                        &&& post.state == (SessionState::Disconnected {
                            failure: SessionFailure::AuthRejected,
                        })
                        &&& post.retry == pre.retry
                        &&& ev == Some(SessionEvent::AuthFailed)
                    },
                    Err(e) => {
                        &&& post.state == (SessionState::Disconnected {
                            failure: SessionFailure::AuthReplyInvalid(e),
                        })
                        &&& post.retry == pre.retry
                        &&& ev == Some(SessionEvent::Disconnected)
                    },
                }
            },
            (SessionState::Connected, SessionInput::Frame(frame)) => {
                &&& post.retry == pre.retry
                &&& post.pending == pre.pending
                &&& match frame {
                    None => post.state == (SessionState::Disconnected {
                        failure: SessionFailure::StreamClosed,
                    }) && ev == Some(SessionEvent::Disconnected),
                    Some(Err(e)) => post.state == (SessionState::Disconnected {
                        failure: SessionFailure::StreamFailed(e),
                    }) && ev == Some(SessionEvent::Disconnected),
                    Some(Ok(WireFrame::Ping)) => post.state is Connected && ev == Some(
                        SessionEvent::ReceivedPing,
                    ),
                    Some(Ok(WireFrame::Pong)) => post.state is Connected && ev == Some(
                        SessionEvent::ReceivedPong,
                    ),
                    Some(Ok(WireFrame::Binary)) => post.state is Connected && ev == Some(
                        SessionEvent::MessageError(MessageIssue::UnexpectedBinary),
                    ),
                    Some(Ok(WireFrame::Text(s))) => post.state is Connected
                        && match spec_parse_clip(s@) {
                        Some((t, v)) => ev matches Some(SessionEvent::ReceivedClip(c))
                            && c.text@ == t && c.timestamp == v,
                        None => ev == Some(SessionEvent::MessageError(
                            MessageIssue::UnparseableText(s),
                        )),
                    },
                }
            },
            (SessionState::Disconnected { failure }, SessionInput::SleepTimer) => {
                &&& post.retry == pre.retry
                &&& post.pending == pre.pending
                &&& ev matches Some(SessionEvent::StartedSleeping(d, f)) && f == failure
                    && d as int == spec_delay(pre.retry.attempts_count) && post.state
                    == (SessionState::Sleeping { delay_secs: d })
            },
            (SessionState::Sleeping { delay_secs }, SessionInput::SleepElapsed) => {
                &&& post.state is ReadyToConnect
                &&& post.retry == pre.retry
                &&& post.pending == pre.pending
                &&& ev == Some(SessionEvent::FinishedSleeping)
            },
            _ => post == pre && ev is None,
        }
    }

    /// A session that has never connected: ready to connect, fresh backoff,
    /// nothing pending.
    pub fn new() -> (r: Session)
        ensures
            r.state is ReadyToConnect,
            r.retry.attempts_count == 0,
            r.pending is None,
    {
        Session { state: SessionState::ReadyToConnect, retry: Retry::starting(), pending: None }
    }

    /// One step of the state machine, fed with the outcome of whatever I/O
    /// the current state asked for.
    pub fn advance(&mut self, input: SessionInput) -> (ev: Option<SessionEvent>)
        ensures
            Session::spec_transition(*old(self), input, *final(self), ev),
    {
        let mut st = SessionState::ReadyToConnect;
        core::mem::swap(&mut st, &mut self.state);
        match (st, input) {
            (SessionState::ReadyToConnect, SessionInput::Schedule) => {
                self.state = SessionState::Connecting;
                self.retry.track();
                Some(SessionEvent::StartedConnecting)
            },
            (SessionState::Connecting, SessionInput::ConnectFinished(res)) => {
                match res {
                    Ok(_) => {
                        self.state = SessionState::SendingAuth;
                        None
                    },
                    Err(e) => {
                        self.state = SessionState::Disconnected {
                            failure: SessionFailure::ConnectFailed(e),
                        };
                        Some(SessionEvent::Disconnected)
                    },
                }
            },
            (SessionState::SendingAuth, SessionInput::AuthSent(res)) => {
                match res {
                    Ok(_) => {
                        self.state = SessionState::WaitingForAuthReply;
                        None
                    },
                    Err(e) => {
                        self.state = SessionState::Disconnected {
                            failure: SessionFailure::AuthSendFailed(e),
                        };
                        Some(SessionEvent::Disconnected)
                    },
                }
            },
            (SessionState::WaitingForAuthReply, SessionInput::AuthReply(res)) => {
                match res {
                    Ok(true) => {
                        self.state = SessionState::Connected;
                        self.retry = Retry::starting();
                        Some(SessionEvent::Connected)
                    },
                    Ok(false) => {
                        self.state = SessionState::Disconnected {
                            failure: SessionFailure::AuthRejected,
                        };
                        Some(SessionEvent::AuthFailed)
                    },
                    Err(e) => {
                        self.state = SessionState::Disconnected {
                            failure: SessionFailure::AuthReplyInvalid(e),
                        };
                        Some(SessionEvent::Disconnected)
                    },
                }
            },
            (SessionState::Connected, SessionInput::Frame(frame)) => {
                match frame {
                    None => {
                        self.state = SessionState::Disconnected {
                            failure: SessionFailure::StreamClosed,
                        };
                        Some(SessionEvent::Disconnected)
                    },
                    Some(Err(e)) => {
                        self.state = SessionState::Disconnected {
                            failure: SessionFailure::StreamFailed(e),
                        };
                        Some(SessionEvent::Disconnected)
                    },
                    Some(Ok(WireFrame::Ping)) => {
                        self.state = SessionState::Connected;
                        Some(SessionEvent::ReceivedPing)
                    },
                    Some(Ok(WireFrame::Pong)) => {
                        self.state = SessionState::Connected;
                        Some(SessionEvent::ReceivedPong)
                    },
                    Some(Ok(WireFrame::Binary)) => {
                        self.state = SessionState::Connected;
                        Some(SessionEvent::MessageError(MessageIssue::UnexpectedBinary))
                    },
                    Some(Ok(WireFrame::Text(s))) => {
                        self.state = SessionState::Connected;
                        match parse_clip(s.as_str()) {
                            Some(clip) => Some(SessionEvent::ReceivedClip(clip)),
                            None => Some(SessionEvent::MessageError(
                                MessageIssue::UnparseableText(s),
                            )),
                        }
                    },
                }
            },
            (SessionState::Disconnected { failure }, SessionInput::SleepTimer) => {
                let d = self.retry.delay();
                self.state = SessionState::Sleeping { delay_secs: d };
                Some(SessionEvent::StartedSleeping(d, failure))
            },
            (SessionState::Sleeping { delay_secs: _ }, SessionInput::SleepElapsed) => {
                self.state = SessionState::ReadyToConnect;
                Some(SessionEvent::FinishedSleeping)
            },
            (prev, _) => {
                self.state = prev;
                None
            },
        }
    }

    /// Hands back the frame to put on the wire for a host clip: the clip's
    /// JSON rendering when connected. In any other state nothing goes on
    /// the wire; the clip is remembered as the pending clip instead, to be
    /// flushed after the next successful connect.
    pub fn send_clip(&mut self, clip: Clip) -> (frame: Option<String>)
        ensures
            final(self).state == old(self).state,
            final(self).retry == old(self).retry,
            old(self).state is Connected ==> (frame matches Some(f) && f@ == spec_clip_json(
                clip.text@,
                clip.timestamp,
            ) && final(self).pending == old(self).pending),
            !(old(self).state is Connected) ==> frame is None && final(self).pending == Some(
                clip,
            ),
    {
        match self.state {
            SessionState::Connected => Some(clip_json(&clip)),
            _ => {
                self.pending = Some(clip);
                None
            },
        }
    }

    /// Whether a keepalive ping may go on the wire: only when connected.
    pub fn send_ping(&self) -> (r: bool)
        ensures
            r == (self.state is Connected),
    {
        match self.state {
            SessionState::Connected => true,
            _ => false,
        }
    }

    /// The frame for the pending clip, if one is waiting and the session is
    /// connected; the pending slot is left as it is until the caller
    /// confirms the send with `mark_pending_sent`.
    pub fn pending_frame(&self) -> (frame: Option<String>)
        ensures
            match (self.state, self.pending) {
                (SessionState::Connected, Some(c)) => frame matches Some(f) && f@
                    == spec_clip_json(c.text@, c.timestamp),
                _ => frame is None,
            },
    {
        match (&self.state, &self.pending) {
            (SessionState::Connected, Some(clip)) => Some(clip_json(clip)),
            _ => None,
        }
    }

    /// Clears the pending clip once its frame went out.
    pub fn mark_pending_sent(&mut self)
        ensures
            final(self).pending is None,
            final(self).state == old(self).state,
            final(self).retry == old(self).retry,
    {
        self.pending = None;
    }

    /// Forces an immediate transition to `ReadyToConnect` with a fresh
    /// backoff counter. The driver drops the live transport, if any.
    pub fn reset_connection(&mut self)
        ensures
            *final(self) == old(self).spec_reset(),
    {
        self.state = SessionState::ReadyToConnect;
        self.retry = Retry::starting();
    }
}

/// Resetting the connection is idempotent: a second `reset_connection`
/// leaves exactly the state the first one left.
pub proof fn lemma_reset_idempotent(s: Session)
    ensures
        s.spec_reset().spec_reset() == s.spec_reset(),
{
}

/// The backoff counter resets to zero exactly on the `Connected` event: an
/// advance that reports `Connected` leaves it at zero, and an advance that
/// reports anything else leaves it alone or increments it by one.
pub proof fn lemma_retry_resets_only_on_connected(
    pre: Session,
    input: SessionInput,
    post: Session,
    ev: Option<SessionEvent>,
)
    requires
        Session::spec_transition(pre, input, post, ev),
    ensures
        ev == Some(SessionEvent::Connected) ==> post.retry.attempts_count == 0,
        ev != Some(SessionEvent::Connected) ==> post.retry.attempts_count
            == pre.retry.attempts_count || post.retry.attempts_count == pre.retry.attempts_count
            + 1,
{
}

} // verus!

//! The session state machine: the handshake (Identify) and reconnect
//! (Resume) discipline, sequence tracking, and the routing of decoded
//! events to the caller. The machine owns the session identity; the
//! transport driver feeds it one decoded event at a time and performs the
//! actions it prescribes. Illegal transitions are unrepresentable: every
//! step is a total function of the current state and the event.

use vstd::prelude::*;

use crate::discordmessage::{DiscordMessage, DiscordMessageView, spec_seq_of};

verus! {

/// Where the session stands.
#[derive(Debug, Clone, Copy, PartialEq, Eq, Structural)]
pub enum SessionState {
    /// The transport handshake has not completed yet.
    Connecting,
    /// Waiting for the mandatory first `Hello` frame.
    AwaitingHello,
    /// An Identify control frame has been sent; `Ready` is expected.
    Identifying,
    /// A Resume control frame has been sent; events are replayed until
    /// `Resumed` arrives.
    Resuming,
    /// The session is established; every event is forwarded.
    Ready,
    /// A fatal condition ended the session; only a new client can recover.
    Terminated,
}

/// What the driver must do with the event it just fed in.
#[derive(Debug, Clone, Copy, PartialEq, Eq, Structural)]
pub enum SessionAction {
    /// Hand the event to the caller.
    Forward,
    /// The machine consumed the event internally.
    Absorbed,
    /// Send a fresh Identify control frame: the server rejected the
    /// session, and Resume must not be retried.
    SendIdentify,
}

/// A fatal condition: the machine is `Terminated` and the caller decides
/// whether to build a new client and Resume or Identify afresh.
#[derive(Debug, Clone, Copy, PartialEq, Eq, Structural)]
pub enum FatalError {
    /// A specific frame was contractually required and something else
    /// arrived: the mandatory first `Hello` was not first.
    UnexpectedFrame,
    /// The connection ended while the session was live.
    TransportClosed,
}

/// A control frame to be serialized and sent by the transport.
#[derive(Debug)]
pub enum ControlFrame {
    Identify { token: String },
    Resume { token: String, session_id: String, last_sequence: Option<u64> },
}

/// Mathematical shape of [`ControlFrame`].
pub enum ControlFrameView {
    Identify { token: Seq<char> },
    Resume { token: Seq<char>, session_id: Seq<char>, last_sequence: Option<u64> },
}

impl View for ControlFrame {
    type V = ControlFrameView;

    open spec fn view(&self) -> ControlFrameView {
        match self {
            ControlFrame::Identify { token } => ControlFrameView::Identify { token: token@ },
            ControlFrame::Resume { token, session_id, last_sequence } => ControlFrameView::Resume {
                token: token@,
                session_id: session_id@,
                last_sequence: *last_sequence,
            },
        }
    }
}

/// The session identity and state. `raw_token` is immutable for the
/// machine's lifetime; `session_id` and `client_user_id` are assigned by
/// the server on a successful handshake; `last_sequence` only ever moves
/// forward.
#[derive(Debug)]
pub struct Session {
    pub state: SessionState,
    pub raw_token: String,
    pub session_id: Option<String>,
    pub client_user_id: Option<String>,
    pub last_sequence: Option<u64>,
    pub heartbeat_interval: Option<u64>,
}

/// Mathematical shape of [`Session`].
pub struct SessionView {
    pub state: SessionState,
    pub raw_token: Seq<char>,
    pub session_id: Option<Seq<char>>,
    pub client_user_id: Option<Seq<char>>,
    pub last_sequence: Option<u64>,
    pub heartbeat_interval: Option<u64>,
}

impl View for Session {
    type V = SessionView;

    open spec fn view(&self) -> SessionView {
        SessionView {
            state: self.state,
            raw_token: self.raw_token@,
            session_id: match self.session_id {
                Some(ref s) => Some(s@),
                None => None,
            },
            client_user_id: match self.client_user_id {
                Some(ref s) => Some(s@),
                None => None,
            },
            last_sequence: self.last_sequence,
            heartbeat_interval: self.heartbeat_interval,
        }
    }
}

/// The sequence counter after an event: it takes the event's number only
/// where that moves it forward, so it never decreases.
pub open spec fn spec_seq_upd(cur: Option<u64>, s: Option<u64>) -> Option<u64> {
    match s {
        None => cur,
        Some(n) => match cur {
            None => Some(n),
            Some(c) => if n > c {
                Some(n)
            } else {
                Some(c)
            },
        },
    }
}

/// `a` is no later than `b` in sequence order; an absent counter precedes
/// everything.
pub open spec fn spec_seq_le(a: Option<u64>, b: Option<u64>) -> bool {
    match a {
        None => true,
        Some(x) => b matches Some(y) && x <= y,
    }
}

/// One step of the machine on a decoded event: the next session value and
/// what the driver must do. Total over the states that can receive.
pub open spec fn spec_step(s: SessionView, m: DiscordMessageView) -> (SessionView, Result<
    SessionAction,
    FatalError,
>) {
    let bumped = SessionView { last_sequence: spec_seq_upd(s.last_sequence, spec_seq_of(m)), ..s };
    match s.state {
        SessionState::AwaitingHello => match m {
            DiscordMessageView::Hello { d } => (
                SessionView { heartbeat_interval: Some(d), ..s },
                Ok(SessionAction::Absorbed),
            ),
            _ => (
                SessionView { state: SessionState::Terminated, ..s },
                Err(FatalError::UnexpectedFrame),
            ),
        },
        SessionState::Identifying => match m {
            DiscordMessageView::Ready { s: _, d } => (
                SessionView {
                    state: SessionState::Ready,
                    session_id: Some(d.session_id),
                    client_user_id: Some(d.user.id),
                    ..bumped
                },
                Ok(SessionAction::Absorbed),
            ),
            DiscordMessageView::InvalidSession {} => (s, Ok(SessionAction::SendIdentify)),
            _ => (bumped, Ok(SessionAction::Forward)),
        },
        SessionState::Resuming => match m {
            DiscordMessageView::Resumed { s: _, d } => (
                SessionView {
                    state: SessionState::Ready,
                    session_id: Some(d.session_id),
                    ..bumped
                },
                Ok(SessionAction::Absorbed),
            ),
            DiscordMessageView::InvalidSession {} => (
                SessionView { state: SessionState::Identifying, ..s },
                Ok(SessionAction::SendIdentify),
            ),
            _ => (bumped, Ok(SessionAction::Forward)),
        },
        SessionState::Ready => (bumped, Ok(SessionAction::Forward)),
        _ => (s, Ok(SessionAction::Absorbed)),
    }
}

/// Which states may be fed an event.
pub open spec fn spec_can_receive(s: SessionState) -> bool {
    s != SessionState::Connecting && s != SessionState::Terminated
}

impl Session {
    /// A fresh machine holding the caller's token, not yet connected.
    pub fn new(token: String) -> (r: Session)
        ensures
            r@.state == SessionState::Connecting,
            r@.raw_token == token@,
            r@.session_id is None,
            r@.client_user_id is None,
            r@.last_sequence is None,
            r@.heartbeat_interval is None,
    {
        Session {
            state: SessionState::Connecting,
            raw_token: token,
            session_id: None,
            client_user_id: None,
            last_sequence: None,
            heartbeat_interval: None,
        }
    }

    /// The transport handshake completed; the mandatory `Hello` is next.
    pub fn handshake_complete(&mut self)
        requires
            old(self)@.state == SessionState::Connecting,
        ensures
            final(self)@ == (SessionView { state: SessionState::AwaitingHello, ..old(self)@ }),
    {
        self.state = SessionState::AwaitingHello;
    }

    /// Starts a fresh handshake: the machine enters `Identifying` and hands
    /// back the Identify control frame carrying the raw token, to be sent.
    pub fn begin_identify(&mut self) -> (c: ControlFrame)
        requires
            old(self)@.state == SessionState::AwaitingHello || old(self)@.state
                == SessionState::Identifying,
            old(self)@.heartbeat_interval is Some,
        ensures
            final(self)@ == (SessionView { state: SessionState::Identifying, ..old(self)@ }),
            c@ == (ControlFrameView::Identify { token: old(self)@.raw_token }),
    {
        self.state = SessionState::Identifying;
        ControlFrame::Identify { token: clone_string(&self.raw_token) }
    }

    /// Starts a reconnect: the machine takes the captured identity, enters
    /// `Resuming`, and hands back the Resume control frame carrying exactly
    /// the token, the prior session id, and the sequence held at
    /// disconnect time.
    pub fn begin_resume(&mut self, session_id: String, last_sequence: Option<u64>) -> (c:
        ControlFrame)
        requires
            old(self)@.state == SessionState::AwaitingHello,
            old(self)@.heartbeat_interval is Some,
        ensures
            final(self)@ == (SessionView {
                state: SessionState::Resuming,
                session_id: Some(session_id@),
                last_sequence,
                ..old(self)@
            }),
            c@ == (ControlFrameView::Resume {
                token: old(self)@.raw_token,
                session_id: session_id@,
                last_sequence,
            }),
    {
        self.state = SessionState::Resuming;
        let sid = clone_string(&session_id);
        self.session_id = Some(session_id);
        self.last_sequence = last_sequence;
        ControlFrame::Resume {
            token: clone_string(&self.raw_token),
            session_id: sid,
            last_sequence: self.last_sequence,
        }
    }

    /// Feeds one decoded event through the machine.
    pub fn on_event(&mut self, m: &DiscordMessage) -> (r: Result<SessionAction, FatalError>)
        requires
            spec_can_receive(old(self)@.state),
        ensures
            (final(self)@, r) == spec_step(old(self)@, m@),
    {
        let bump = self.next_sequence(m);
        match self.state {
            SessionState::AwaitingHello => match m {
                DiscordMessage::Hello { d } => {
                    self.heartbeat_interval = Some(d.heartbeat_interval);
                    Ok(SessionAction::Absorbed)
                },
                _ => {
                    self.state = SessionState::Terminated;
                    Err(FatalError::UnexpectedFrame)
                },
            },
            SessionState::Identifying => match m {
                DiscordMessage::Ready { s: _, d } => {
                    self.state = SessionState::Ready;
                    self.session_id = Some(clone_string(&d.session_id));
                    self.client_user_id = Some(clone_string(&d.user.id));
                    self.last_sequence = bump;
                    Ok(SessionAction::Absorbed)
                },
                DiscordMessage::InvalidSession {} => Ok(SessionAction::SendIdentify),
                _ => {
                    self.last_sequence = bump;
                    Ok(SessionAction::Forward)
                },
            },
            SessionState::Resuming => match m {
                DiscordMessage::Resumed { s: _, d } => {
                    self.state = SessionState::Ready;
                    self.session_id = Some(clone_string(&d.session_id));
                    self.last_sequence = bump;
                    Ok(SessionAction::Absorbed)
                },
                DiscordMessage::InvalidSession {} => {
                    self.state = SessionState::Identifying;
                    Ok(SessionAction::SendIdentify)
                },
                _ => {
                    self.last_sequence = bump;
                    Ok(SessionAction::Forward)
                },
            },
            SessionState::Ready => {
                self.last_sequence = bump;
                Ok(SessionAction::Forward)
            },
            _ => Ok(SessionAction::Absorbed),
        }
    }

    /// The connection ended while the session was live: fatal.
    pub fn on_transport_closed(&mut self) -> (r: FatalError)
        ensures
            final(self)@ == (SessionView { state: SessionState::Terminated, ..old(self)@ }),
            r == FatalError::TransportClosed,
    {
        self.state = SessionState::Terminated;
        FatalError::TransportClosed
    }

    /// The sequence counter as the event would leave it.
    fn next_sequence(&self, m: &DiscordMessage) -> (r: Option<u64>)
        ensures
            r == spec_seq_upd(self@.last_sequence, spec_seq_of(m@)),
    {
        match m.seq() {
            None => self.last_sequence,
            Some(n) => match self.last_sequence {
                None => Some(n),
                Some(c) => if n > c {
                    Some(n)
                } else {
                    Some(c)
                },
            },
        }
    }
}

/// An owned copy of a string, character for character.
fn clone_string(s: &String) -> (r: String)
    ensures
        r@ == s@,
{
    s.clone()
}

/// The machine run over a whole sequence of decoded events.
pub open spec fn spec_run(s: SessionView, ms: Seq<DiscordMessageView>) -> SessionView
    decreases ms.len(),
{
    if ms.len() == 0 {
        s
    } else {
        spec_run(spec_step(s, ms[0]).0, ms.drop_first())
    }
}

/// Sequence monotonicity: one step never moves `last_sequence` backwards.
pub proof fn lemma_step_sequence_monotonic(s: SessionView, m: DiscordMessageView)
    ensures
        spec_seq_le(s.last_sequence, spec_step(s, m).0.last_sequence),
{
}

/// Sequence monotonicity over any run: however many events are fed
/// through the machine, `last_sequence` observed after each one is
/// non-decreasing, so the value after the whole run is no smaller than at
/// the start.
pub proof fn lemma_run_sequence_monotonic(s: SessionView, ms: Seq<DiscordMessageView>)
    ensures
        spec_seq_le(s.last_sequence, spec_run(s, ms).last_sequence),
    decreases ms.len(),
{
    if ms.len() > 0 {
        lemma_step_sequence_monotonic(s, ms[0]);
        lemma_run_sequence_monotonic(spec_step(s, ms[0]).0, ms.drop_first());
    }
}

/// Resume round-trip: a machine that issued Resume with a captured
/// `(session_id, last_sequence)` carries exactly that pair, and after any
/// further events its `last_sequence` never resets below the captured
/// value.
pub proof fn lemma_resume_round_trip(
    s: SessionView,
    sid: Seq<char>,
    n: u64,
    ms: Seq<DiscordMessageView>,
)
    requires
        s.state == SessionState::Resuming,
        s.session_id == Some(sid),
        s.last_sequence == Some(n),
    ensures
        spec_run(s, ms).last_sequence matches Some(k) && k >= n,
{
    lemma_run_sequence_monotonic(s, ms);
}

/// `InvalidSession` while `Resuming` moves the machine to `Identifying`
/// and prescribes a fresh Identify, never a Resume.
pub proof fn lemma_invalid_session_while_resuming(s: SessionView)
    requires
        s.state == SessionState::Resuming,
    ensures
        spec_step(s, DiscordMessageView::InvalidSession {}).0.state == SessionState::Identifying,
        spec_step(s, DiscordMessageView::InvalidSession {}).1 == Ok::<SessionAction, FatalError>(
            SessionAction::SendIdentify,
        ),
{
}

/// The machine never re-enters `Resuming` by itself: no step leads there,
/// so once `InvalidSession` has forced `Identifying`, Resume is never
/// re-sent with the old session id.
pub proof fn lemma_no_step_resumes(s: SessionView, m: DiscordMessageView)
    requires
        s.state != SessionState::Resuming,
    ensures
        spec_step(s, m).0.state != SessionState::Resuming,
{
}

} // verus!

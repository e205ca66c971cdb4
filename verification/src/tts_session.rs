//! A session that speaks one utterance after another over a connection of the pool.
//!
//! The session decides; its driver takes connections from the pool, sends frames and reads them,
//! and tells the session how that went.

use vstd::prelude::*;

use crate::error::{ClientError, ErrorView};
use crate::events::TtsEvent;
use crate::text::views;
use crate::tts_ws::{
    control_json, control_message, input_text, input_text_json, Lease, LeaseView, ServerMessage,
    ServerView,
};

verus! {

/// What the session is asked to do.
#[derive(Debug)]
pub enum Op {
    /// Add text to the utterance.
    Text(String),
    /// End the utterance.
    Flush,
}

pub ghost enum OpView {
    Text(Seq<char>),
    Flush,
}

impl View for Op {
    type V = OpView;

    open spec fn view(&self) -> OpView {
        match *self {
            Op::Text(t) => OpView::Text(t@),
            Op::Flush => OpView::Flush,
        }
    }
}

/// What the session waits for.
#[derive(Debug)]
pub enum Stage {
    /// Nothing.
    Rest,
    /// A connection, to send these frames.
    Acquiring { op: Op, frames: Vec<String>, retry: bool },
    /// The frame at `next` to be sent.
    Sending { op: Op, frames: Vec<String>, next: usize, retry: bool },
}

pub ghost enum StageView {
    Rest,
    Acquiring { op: OpView, frames: Seq<Seq<char>>, retry: bool },
    Sending { op: OpView, frames: Seq<Seq<char>>, next: int, retry: bool },
}

impl View for Stage {
    type V = StageView;

    open spec fn view(&self) -> StageView {
        match *self {
            Stage::Rest => StageView::Rest,
            Stage::Acquiring { op, frames, retry } => StageView::Acquiring {
                op: op@,
                frames: views(frames@),
                retry,
            },
            Stage::Sending { op, frames, next, retry } => StageView::Sending {
                op: op@,
                frames: views(frames@),
                next: next as int,
                retry,
            },
        }
    }
}

/// What the driver does next.
#[derive(Debug)]
pub enum SessionRequest {
    /// Give up a connection, where one is named, and take one from the pool; then send
    /// `session.config` where asked.
    Acquire { give_up: Option<u64>, send_config: bool },
    /// Send a frame on a connection.
    Send { connection: u64, frame: String },
    /// Nothing; this is how it ended.
    Done(Result<(), ClientError>),
}

pub ghost enum RequestView {
    Acquire { give_up: Option<u64>, send_config: bool },
    Send { connection: u64, frame: Seq<char> },
    Done(Option<ErrorView>),
}

impl View for SessionRequest {
    type V = RequestView;

    open spec fn view(&self) -> RequestView {
        match *self {
            SessionRequest::Acquire { give_up, send_config } => RequestView::Acquire {
                give_up,
                send_config,
            },
            SessionRequest::Send { connection, frame } => RequestView::Send {
                connection,
                frame: frame@,
            },
            SessionRequest::Done(Ok(())) => RequestView::Done(None),
            SessionRequest::Done(Err(e)) => RequestView::Done(Some(e@)),
        }
    }
}

/// The state of a session.
pub ghost struct SessionState {
    pub lease: Option<LeaseView>,
    /// The connection was configured for this session.
    pub config_sent: bool,
    /// The utterance so far.
    pub text: Seq<char>,
    /// The utterance has ended and is being spoken.
    pub waiting: bool,
    /// When it ended, in milliseconds.
    pub started_at: Option<u64>,
    pub closed: bool,
    /// Number of the last event.
    pub seq: u32,
    pub stage: StageView,
}

pub open spec fn refuse(s: SessionState, m: Seq<char>) -> (SessionState, RequestView) {
    (s, RequestView::Done(Some(ErrorView::Ws(m))))
}

/// Starts to send frames: on the connection of the session, or on one that has to be acquired.
pub open spec fn begin_spec(s: SessionState, op: OpView, frames: Seq<Seq<char>>) -> (
    SessionState,
    RequestView,
) {
    match s.lease {
        Some(l) => (
            SessionState { stage: StageView::Sending { op, frames, next: 0, retry: false }, ..s },
            RequestView::Send { connection: l.id, frame: frames[0] },
        ),
        None => (
            SessionState { stage: StageView::Acquiring { op, frames, retry: false }, ..s },
            RequestView::Acquire { give_up: None, send_config: !s.config_sent },
        ),
    }
}

/// Text is to be added to the utterance.
pub open spec fn send_text_spec(s: SessionState, text: Seq<char>) -> (SessionState, RequestView) {
    if s.closed {
        refuse(s, "TTS input session closed"@)
    } else if s.waiting {
        refuse(s, "cannot send text before previous utterance session.done"@)
    } else {
        begin_spec(s, OpView::Text(text), seq![input_text_json(text)])
    }
}

/// The utterance is to end.
pub open spec fn flush_spec(s: SessionState) -> (SessionState, RequestView) {
    if s.closed {
        refuse(s, "TTS input session closed"@)
    } else if s.lease is None {
        refuse(s, "flush called before send_text"@)
    } else {
        begin_spec(s, OpView::Flush, seq![control_json("input.done"@)])
    }
}

/// A connection was acquired, or could not be.
pub open spec fn acquired_spec(s: SessionState, result: Result<LeaseView, ErrorView>) -> (
    SessionState,
    RequestView,
) {
    match s.stage {
        StageView::Acquiring { op, frames, retry } => match result {
            Ok(l) => (
                SessionState {
                    lease: Some(l),
                    config_sent: true,
                    stage: StageView::Sending { op, frames, next: 0, retry },
                    ..s
                },
                RequestView::Send { connection: l.id, frame: frames[0] },
            ),
            Err(e) => (
                SessionState { stage: StageView::Rest, ..s },
                RequestView::Done(Some(e)),
            ),
        },
        _ => (s, RequestView::Done(None)),
    }
}

/// The frames of the second try: of an utterance that was ending, its text first.
pub open spec fn retry_frames(s: SessionState, op: OpView, frames: Seq<Seq<char>>) -> Seq<Seq<char>> {
    match op {
        OpView::Text(_) => frames,
        OpView::Flush => if s.text.len() > 0 {
            seq![input_text_json(s.text), control_json("input.done"@)]
        } else {
            seq![control_json("input.done"@)]
        },
    }
}

/// All frames were sent.
pub open spec fn complete_spec(s: SessionState, op: OpView, now: u64) -> SessionState {
    match op {
        OpView::Text(t) => SessionState { text: s.text + t, stage: StageView::Rest, ..s },
        OpView::Flush => SessionState {
            started_at: Some(now),
            waiting: true,
            stage: StageView::Rest,
            ..s
        },
    }
}

/// A frame was sent, or could not be. The first failure is answered with another connection, the
/// second ends the attempt.
pub open spec fn sent_spec(s: SessionState, failure: Option<ErrorView>, now: u64) -> (
    SessionState,
    RequestView,
) {
    match s.stage {
        StageView::Sending { op, frames, next, retry } => match failure {
            None => if next + 1 < frames.len() {
                (
                    SessionState {
                        stage: StageView::Sending { op, frames, next: next + 1, retry },
                        ..s
                    },
                    RequestView::Send {
                        connection: s.lease->0.id,
                        frame: frames[next + 1],
                    },
                )
            } else {
                (complete_spec(s, op, now), RequestView::Done(None))
            },
            Some(e) => if retry {
                (SessionState { stage: StageView::Rest, ..s }, RequestView::Done(Some(e)))
            } else {
                (
                    SessionState {
                        lease: None,
                        config_sent: false,
                        stage: StageView::Acquiring {
                            op,
                            frames: retry_frames(s, op, frames),
                            retry: true,
                        },
                        ..s
                    },
                    RequestView::Acquire { give_up: Some(s.lease->0.id), send_config: true },
                )
            },
        },
        _ => (s, RequestView::Done(None)),
    }
}

/// What holds of every session.
pub open spec fn session_ok(s: SessionState) -> bool {
    &&& !s.closed ==> s.config_sent == (s.lease is Some)
    &&& match s.stage {
        StageView::Rest => true,
        StageView::Acquiring { op, frames, retry } => s.lease is None && frames.len() > 0 && !s.closed,
        StageView::Sending { op, frames, next, retry } => s.lease is Some && 0 <= next < frames.len()
            && !s.closed,
    }
}

/// What the session waits for next from the service.
#[derive(Debug, PartialEq, Eq, Clone, Copy, Structural)]
pub enum NextWait {
    /// Nothing: there is no connection.
    Ended,
    /// The utterance has taken too long.
    TimedOut,
    /// A message, for so many milliseconds.
    Wait(u64),
}

/// How long to wait for the service.
pub open spec fn wait_spec(s: SessionState, now: u64, timeout_ms: u64) -> NextWait {
    let used = match s.started_at {
        Some(t) => if now >= t {
            now - t
        } else {
            0
        },
        None => 0,
    };
    if s.lease is None {
        NextWait::Ended
    } else if used >= timeout_ms {
        NextWait::TimedOut
    } else {
        NextWait::Wait((timeout_ms - used) as u64)
    }
}

/// What a message of the service comes to.
#[derive(Debug)]
pub enum SessionEvent {
    /// Nothing yet; wait for the next message.
    Continue,
    Event(TtsEvent),
    /// The connection has to be given up.
    Failed { give_up: u64, error: ClientError },
}

pub ghost enum EventView {
    Continue,
    Event { seq: u32, data: Seq<u8>, is_last: bool },
    Failed { give_up: u64, error: ErrorView },
}

impl View for SessionEvent {
    type V = EventView;

    open spec fn view(&self) -> EventView {
        match *self {
            SessionEvent::Continue => EventView::Continue,
            SessionEvent::Event(e) => EventView::Event {
                seq: e.seq,
                data: e.data@,
                is_last: e.is_last,
            },
            SessionEvent::Failed { give_up, error } => EventView::Failed { give_up, error: error@ },
        }
    }
}

pub open spec fn next_seq(seq: u32) -> u32 {
    if seq == u32::MAX {
        seq
    } else {
        (seq + 1) as u32
    }
}

/// The connection is given up.
pub open spec fn failed_spec(s: SessionState, error: ErrorView) -> (SessionState, EventView) {
    (
        SessionState { lease: None, config_sent: false, started_at: None, ..s },
        EventView::Failed { give_up: s.lease->0.id, error },
    )
}

/// The service sends a message, or reading it fails.
pub open spec fn message_spec(s: SessionState, m: Result<ServerView, ErrorView>) -> (
    SessionState,
    EventView,
) {
    match m {
        Ok(ServerView::Audio(b)) => (
            SessionState { seq: next_seq(s.seq), ..s },
            EventView::Event { seq: next_seq(s.seq), data: b, is_last: false },
        ),
        Ok(ServerView::AudioStart) => (s, EventView::Continue),
        Ok(ServerView::AudioDone { error }) => if error {
            failed_spec(s, ErrorView::Ws("TTS audio generation failed"@))
        } else {
            (s, EventView::Continue)
        },
        Ok(ServerView::SessionDone) => (
            SessionState {
                text: Seq::empty(),
                waiting: false,
                started_at: None,
                seq: next_seq(s.seq),
                ..s
            },
            EventView::Event { seq: next_seq(s.seq), data: Seq::empty(), is_last: true },
        ),
        Ok(ServerView::Error(_)) => failed_spec(s, ErrorView::Ws("TTS WebSocket provider error"@)),
        Err(e) => failed_spec(s, e),
    }
}

/// A session that speaks one utterance after another.
pub struct TtsWsInputSession {
    lease: Option<Lease>,
    config_sent: bool,
    utterance_text: String,
    waiting: bool,
    started_at: Option<u64>,
    closed: bool,
    seq: u32,
    stage: Stage,
}

pub open spec fn lease_opt(l: Option<Lease>) -> Option<LeaseView> {
    match l {
        Some(l) => Some(l@),
        None => None,
    }
}

impl View for TtsWsInputSession {
    type V = SessionState;

    closed spec fn view(&self) -> SessionState {
        SessionState {
            lease: lease_opt(self.lease),
            config_sent: self.config_sent,
            text: self.utterance_text@,
            waiting: self.waiting,
            started_at: self.started_at,
            closed: self.closed,
            seq: self.seq,
            stage: self.stage@,
        }
    }
}

fn refused(m: &str) -> (r: SessionRequest)
    ensures
        r@ == RequestView::Done(Some(ErrorView::Ws(m@))),
{
    SessionRequest::Done(Err(ClientError::Ws(m.to_string())))
}

impl TtsWsInputSession {
    /// A session without a connection.
    pub fn new() -> (r: Self)
        ensures
            session_ok(r@),
            r@ == (SessionState {
                lease: None,
                config_sent: false,
                text: Seq::empty(),
                waiting: false,
                started_at: None,
                closed: false,
                seq: 0,
                stage: StageView::Rest,
            }),
    {
        TtsWsInputSession {
            lease: None,
            config_sent: false,
            utterance_text: String::new(),
            waiting: false,
            started_at: None,
            closed: false,
            seq: 0,
            stage: Stage::Rest,
        }
    }

    /// The connection of the session.
    pub fn lease(&self) -> (r: &Option<Lease>)
        ensures
            lease_opt(*r) == self@.lease,
    {
        &self.lease
    }

    fn begin(&mut self, op: Op, frames: Vec<String>) -> (r: SessionRequest)
        requires
            session_ok(old(self)@),
            old(self)@.stage is Rest,
            !old(self)@.closed,
            frames@.len() > 0,
        ensures
            (final(self)@, r@) == begin_spec(old(self)@, op@, views(frames@)),
            session_ok(final(self)@),
    {
        match &self.lease {
            Some(l) => {
                let connection: u64 = l.id;
                let frame = frames[0].clone();
                self.stage = Stage::Sending { op, frames, next: 0, retry: false };
                SessionRequest::Send { connection, frame }
            },
            None => {
                let send_config = !self.config_sent;
                self.stage = Stage::Acquiring { op, frames, retry: false };
                SessionRequest::Acquire { give_up: None, send_config }
            },
        }
    }

    /// Adds text to the utterance.
    pub fn send_text(&mut self, text: &str) -> (r: SessionRequest)
        requires
            session_ok(old(self)@),
            old(self)@.stage is Rest,
        ensures
            (final(self)@, r@) == send_text_spec(old(self)@, text@),
            session_ok(final(self)@),
    {
        if self.closed {
            return refused("TTS input session closed");
        }
        if self.waiting {
            return refused("cannot send text before previous utterance session.done");
        }
        let frames: Vec<String> = vec![input_text(text)];
        assert(views(frames@) =~= seq![input_text_json(text@)]);
        self.begin(Op::Text(text.to_string()), frames)
    }

    /// Ends the utterance.
    pub fn flush(&mut self) -> (r: SessionRequest)
        requires
            session_ok(old(self)@),
            old(self)@.stage is Rest,
        ensures
            (final(self)@, r@) == flush_spec(old(self)@),
            session_ok(final(self)@),
    {
        if self.closed {
            return refused("TTS input session closed");
        }
        if self.lease.is_none() {
            return refused("flush called before send_text");
        }
        let frames: Vec<String> = vec![control_message("input.done")];
        assert(views(frames@) =~= seq![control_json("input.done"@)]);
        self.begin(Op::Flush, frames)
    }

    /// A connection was acquired, or could not be.
    pub fn acquired(&mut self, result: Result<Lease, ClientError>) -> (r: SessionRequest)
        requires
            session_ok(old(self)@),
            old(self)@.stage is Acquiring,
        ensures
            (final(self)@, r@) == acquired_spec(
                old(self)@,
                match result {
                    Ok(l) => Ok(l@),
                    Err(e) => Err(e@),
                },
            ),
            session_ok(final(self)@),
    {
        let mut stage = Stage::Rest;
        core::mem::swap(&mut self.stage, &mut stage);
        match stage {
            Stage::Acquiring { op, frames, retry } => {
                match result {
                    Ok(l) => {
                        let connection: u64 = l.id;
                        let frame = frames[0].clone();
                        self.lease = Some(l);
                        self.config_sent = true;
                        self.stage = Stage::Sending { op, frames, next: 0, retry };
                        SessionRequest::Send { connection, frame }
                    },
                    Err(e) => SessionRequest::Done(Err(e)),
                }
            },
            other => {
                self.stage = other;
                SessionRequest::Done(Ok(()))
            },
        }
    }

    /// A frame was sent, or could not be.
    pub fn sent(&mut self, result: Result<(), ClientError>, now: u64) -> (r: SessionRequest)
        requires
            session_ok(old(self)@),
            old(self)@.stage is Sending,
        ensures
            (final(self)@, r@) == sent_spec(
                old(self)@,
                match result {
                    Ok(_) => None,
                    Err(e) => Some(e@),
                },
                now,
            ),
            session_ok(final(self)@),
    {
        let ghost before = self@;
        let mut stage = Stage::Rest;
        core::mem::swap(&mut self.stage, &mut stage);
        let connection: u64 = match &self.lease {
            Some(l) => l.id,
            None => 0,
        };
        match stage {
            Stage::Sending { op, frames, next, retry } => {
                match result {
                    Ok(()) => {
                        assert(next < views(frames@).len());
                        if frames.len() - next > 1 {
                            let frame = frames[next + 1].clone();
                            self.stage = Stage::Sending { op, frames, next: next + 1, retry };
                            SessionRequest::Send { connection, frame }
                        } else {
                            match op {
                                Op::Text(t) => {
                                    self.utterance_text.append(t.as_str());
                                },
                                Op::Flush => {
                                    self.started_at = Some(now);
                                    self.waiting = true;
                                },
                            }
                            SessionRequest::Done(Ok(()))
                        }
                    },
                    Err(e) => {
                        if retry {
                            SessionRequest::Done(Err(e))
                        } else {
                            let again: Vec<String> = match &op {
                                Op::Text(_) => frames,
                                Op::Flush => {
                                    if self.utterance_text.as_str().is_empty() {
                                        let v: Vec<String> = vec![control_message("input.done")];
                                        assert(views(v@) =~= seq![control_json("input.done"@)]);
                                        v
                                    } else {
                                        let v: Vec<String> = vec![
                                            input_text(self.utterance_text.as_str()),
                                            control_message("input.done"),
                                        ];
                                        assert(views(v@) =~= seq![
                                            input_text_json(before.text),
                                            control_json("input.done"@),
                                        ]);
                                        v
                                    }
                                },
                            };
                            assert(views(again@).len() == again@.len());
                            self.lease = None;
                            self.config_sent = false;
                            self.stage = Stage::Acquiring { op, frames: again, retry: true };
                            SessionRequest::Acquire { give_up: Some(connection), send_config: true }
                        }
                    },
                }
            },
            other => {
                self.stage = other;
                SessionRequest::Done(Ok(()))
            },
        }
    }

    /// How long to wait for the service.
    pub fn next_wait(&self, now: u64, timeout_ms: u64) -> (r: NextWait)
        ensures
            r == wait_spec(self@, now, timeout_ms),
    {
        if self.lease.is_none() {
            return NextWait::Ended;
        }
        let used: u64 = match self.started_at {
            Some(t) => {
                if now >= t {
                    now - t
                } else {
                    0
                }
            },
            None => 0,
        };
        if used >= timeout_ms {
            NextWait::TimedOut
        } else {
            NextWait::Wait(timeout_ms - used)
        }
    }

    fn fail(&mut self, error: ClientError) -> (r: SessionEvent)
        requires
            session_ok(old(self)@),
            old(self)@.lease is Some,
            old(self)@.stage is Rest,
        ensures
            (final(self)@, r@) == failed_spec(old(self)@, error@),
            session_ok(final(self)@),
    {
        let give_up: u64 = match &self.lease {
            Some(l) => l.id,
            None => 0,
        };
        self.lease = None;
        self.config_sent = false;
        self.started_at = None;
        SessionEvent::Failed { give_up, error }
    }

    /// The service took too long.
    pub fn timed_out(&mut self) -> (r: SessionEvent)
        requires
            session_ok(old(self)@),
            old(self)@.lease is Some,
            old(self)@.stage is Rest,
        ensures
            (final(self)@, r@) == failed_spec(
                old(self)@,
                ErrorView::Ws("TTS WebSocket request timed out"@),
            ),
            session_ok(final(self)@),
    {
        self.fail(ClientError::Ws("TTS WebSocket request timed out".to_string()))
    }

    /// The service sent a message, or reading it failed.
    pub fn next_event(&mut self, message: Result<ServerMessage, ClientError>) -> (r: SessionEvent)
        requires
            session_ok(old(self)@),
            old(self)@.lease is Some,
            old(self)@.stage is Rest,
        ensures
            (final(self)@, r@) == message_spec(
                old(self)@,
                match message {
                    Ok(m) => Ok(m@),
                    Err(e) => Err(e@),
                },
            ),
            session_ok(final(self)@),
    {
        match message {
            Ok(ServerMessage::Audio(data)) => {
                self.seq = if self.seq == u32::MAX { self.seq } else { self.seq + 1 };
                SessionEvent::Event(TtsEvent { seq: self.seq, data, is_last: false })
            },
            Ok(ServerMessage::AudioStart) => SessionEvent::Continue,
            Ok(ServerMessage::AudioDone { error }) => {
                if error {
                    self.fail(ClientError::Ws("TTS audio generation failed".to_string()))
                } else {
                    SessionEvent::Continue
                }
            },
            Ok(ServerMessage::SessionDone) => {
                self.utterance_text = String::new();
                self.waiting = false;
                self.started_at = None;
                self.seq = if self.seq == u32::MAX { self.seq } else { self.seq + 1 };
                SessionEvent::Event(TtsEvent { seq: self.seq, data: Vec::new(), is_last: true })
            },
            Ok(ServerMessage::Error(_)) => self.fail(
                ClientError::Ws("TTS WebSocket provider error".to_string()),
            ),
            Err(e) => self.fail(e),
        }
    }

    fn take_lease(&mut self) -> (r: Option<Lease>)
        requires
            old(self)@.stage is Rest,
        ensures
            final(self)@ == (SessionState { closed: true, lease: None, ..old(self)@ }),
            lease_opt(r) == old(self)@.lease,
            session_ok(final(self)@),
    {
        self.closed = true;
        let mut lease: Option<Lease> = None;
        core::mem::swap(&mut self.lease, &mut lease);
        lease
    }

    /// Closes the session. The connection that is returned is told `session.close` and given up.
    pub fn close(&mut self) -> (r: Option<Lease>)
        requires
            old(self)@.stage is Rest,
        ensures
            final(self)@ == (SessionState { closed: true, lease: None, ..old(self)@ }),
            lease_opt(r) == old(self)@.lease,
            session_ok(final(self)@),
    {
        self.take_lease()
    }

    /// Ends the session. The connection that is returned goes back to the pool.
    pub fn finish(&mut self) -> (r: Option<Lease>)
        requires
            old(self)@.stage is Rest,
        ensures
            final(self)@ == (SessionState { closed: true, lease: None, ..old(self)@ }),
            lease_opt(r) == old(self)@.lease,
            session_ok(final(self)@),
    {
        self.take_lease()
    }
}

/// Whenever a session takes a connection, the connection is configured for it first.
pub proof fn law_each_connection_is_configured(s: SessionState, text: Seq<char>, failure: ErrorView, now: u64)
    requires
        session_ok(s),
    ensures
        send_text_spec(s, text).1 matches RequestView::Acquire { send_config, .. } ==> send_config,
        flush_spec(s).1 matches RequestView::Acquire { send_config, .. } ==> send_config,
        sent_spec(s, Some(failure), now).1 matches RequestView::Acquire { send_config, .. }
            ==> send_config,
{
}

/// Text that arrives while an utterance is being spoken is refused until the service is done with
/// it, and accepted again from then on.
pub proof fn law_one_utterance_at_a_time(s: SessionState, text: Seq<char>)
    requires
        session_ok(s),
        !s.closed,
        s.waiting,
        s.lease is Some,
        s.stage is Rest,
    ensures
        send_text_spec(s, text).1 == RequestView::Done(
            Some(ErrorView::Ws("cannot send text before previous utterance session.done"@)),
        ),
        ({
            let (t, _event) = message_spec(s, Ok(ServerView::SessionDone));
            !t.waiting && t.text.len() == 0 && send_text_spec(t, text).1 is Send
        }),
{
}

/// A connection that breaks when an utterance is being ended costs none of its text: on the next
/// connection the whole text is sent again before the end.
pub proof fn law_broken_flush_resends_the_text(s: SessionState, lease: LeaseView, e: ErrorView, now: u64)
    requires
        session_ok(s),
        !s.closed,
        s.lease is Some,
        s.stage is Rest,
        s.text.len() > 0,
    ensures
        ({
            let s1 = flush_spec(s).0;
            let s2 = sent_spec(s1, Some(e), now).0;
            let (s3, first) = acquired_spec(s2, Ok(lease));
            let (s4, second) = sent_spec(s3, None, now);
            let (s5, third) = sent_spec(s4, None, now);
            &&& first == (RequestView::Send { connection: lease.id, frame: input_text_json(s.text) })
            &&& second == (RequestView::Send {
                connection: lease.id,
                frame: control_json("input.done"@),
            })
            &&& third == RequestView::Done(None)
            &&& s5.waiting
        }),
{
}

/// A frame that cannot be sent is tried on one other connection, and then no more.
pub proof fn law_retries_once(s: SessionState, text: Seq<char>, lease: LeaseView, e: ErrorView, f: ErrorView, now: u64)
    requires
        session_ok(s),
        !s.closed,
        !s.waiting,
        s.lease is Some,
        s.stage is Rest,
    ensures
        ({
            let s1 = send_text_spec(s, text).0;
            let (s2, again) = sent_spec(s1, Some(e), now);
            let s3 = acquired_spec(s2, Ok(lease)).0;
            let (s4, end) = sent_spec(s3, Some(f), now);
            &&& again == (RequestView::Acquire {
                give_up: Some(s.lease->0.id),
                send_config: true,
            })
            &&& end == RequestView::Done(Some(f))
            &&& s4.text == s.text
        }),
{
}

/// Text goes to the service as it is, on the connection of the session, and belongs to the
/// utterance once it was sent; nothing else changes.
pub proof fn law_text_is_sent_as_it_is(s: SessionState, text: Seq<char>, now: u64)
    requires
        session_ok(s),
        !s.closed,
        !s.waiting,
        s.lease is Some,
        s.stage is Rest,
    ensures
        ({
            let (a, request) = send_text_spec(s, text);
            let (b, end) = sent_spec(a, None, now);
            &&& request == (RequestView::Send {
                connection: s.lease->0.id,
                frame: input_text_json(text),
            })
            &&& end == RequestView::Done(None)
            &&& b == (SessionState { text: s.text + text, ..s })
        }),
{
}

/// The end of an utterance is told to the service once all of its text was sent, and from then on
/// the session waits for its speech.
pub proof fn law_end_is_told_behind_the_text(s: SessionState, now: u64)
    requires
        session_ok(s),
        !s.closed,
        s.lease is Some,
        s.stage is Rest,
    ensures
        ({
            let (a, request) = flush_spec(s);
            let (b, end) = sent_spec(a, None, now);
            &&& request == (RequestView::Send {
                connection: s.lease->0.id,
                frame: control_json("input.done"@),
            })
            &&& end == RequestView::Done(None)
            &&& b == (SessionState { waiting: true, started_at: Some(now), ..s })
        }),
{
}

/// A session without a connection takes one and sends on it what it was asked to send; where it
/// gets none, the failure is the answer.
pub proof fn law_session_takes_a_connection(
    s: SessionState,
    text: Seq<char>,
    lease: LeaseView,
    e: ErrorView,
    now: u64,
)
    requires
        session_ok(s),
        !s.closed,
        !s.waiting,
        s.lease is None,
        s.stage is Rest,
    ensures
        ({
            let (a, request) = send_text_spec(s, text);
            let (b, first) = acquired_spec(a, Ok(lease));
            let (c, end) = sent_spec(b, None, now);
            let (d, failure) = acquired_spec(a, Err(e));
            &&& request == (RequestView::Acquire { give_up: None, send_config: true })
            &&& first == (RequestView::Send { connection: lease.id, frame: input_text_json(text) })
            &&& end == RequestView::Done(None)
            &&& c.lease == Some(lease) && c.text == s.text + text
            &&& failure == RequestView::Done(Some(e))
            &&& d.stage is Rest && d.text == s.text
        }),
{
}

/// Audio of the service is handed on as it is, numbered through; when the service is done, the end
/// is handed on, and the session is ready for the next utterance on the same connection.
pub proof fn law_audio_is_handed_on(s: SessionState, audio: Seq<u8>)
    requires
        s.seq < u32::MAX,
    ensures
        ({
            let (a, event) = message_spec(s, Ok(ServerView::Audio(audio)));
            let (b, last) = message_spec(s, Ok(ServerView::SessionDone));
            &&& event == (EventView::Event { seq: (s.seq + 1) as u32, data: audio, is_last: false })
            &&& a == (SessionState { seq: (s.seq + 1) as u32, ..s })
            &&& last matches EventView::Event { seq, data, is_last } && seq == s.seq + 1 && data.len()
                == 0 && is_last
            &&& b.lease == s.lease && b.config_sent == s.config_sent && !b.waiting && b.text.len() == 0
                && b.started_at is None
            &&& message_spec(s, Ok(ServerView::AudioStart)) == (s, EventView::Continue)
            &&& message_spec(s, Ok(ServerView::AudioDone { error: false })) == (s, EventView::Continue)
        }),
{
}

/// A connection that fails is given up, whatever the failure, and the session is without one.
pub proof fn law_failed_connection_is_given_up(
    s: SessionState,
    m: Result<ServerView, ErrorView>,
    e: ErrorView,
)
    requires
        s.lease is Some,
        m is Err || m->Ok_0 is Error || m == Ok::<ServerView, ErrorView>(
            ServerView::AudioDone { error: true },
        ),
    ensures
        ({
            let (t, event) = message_spec(s, m);
            &&& event matches EventView::Failed { give_up, error } && give_up == s.lease->0.id && (m
                == Err::<ServerView, ErrorView>(e) ==> error == e)
            &&& t.lease is None && !t.config_sent && t.started_at is None
        }),
{
}

/// The time that an utterance may take runs from its end: what was used and what is left are the
/// limit, and it has run out when nothing is left.
pub proof fn law_time_runs_from_the_end(s: SessionState, now: u64, timeout_ms: u64)
    requires
        s.lease is Some,
    ensures
        s.started_at matches Some(t) ==> now >= t ==> match wait_spec(s, now, timeout_ms) {
            NextWait::Wait(left) => left > 0 && (now - t) + left == timeout_ms,
            NextWait::TimedOut => now - t >= timeout_ms,
            NextWait::Ended => false,
        },
        s.started_at is None && timeout_ms > 0 ==> wait_spec(s, now, timeout_ms) == NextWait::Wait(
            timeout_ms,
        ),
{
}

} // verus!

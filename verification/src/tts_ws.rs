//! Client of a speech synthesis service over WebSocket: the frames, the pool of connections and
//! the session that speaks one utterance after another.
//!
//! A connection is opened with `session.config`; each utterance is some `input.text` and one
//! `input.done`; after `session.done` the connection can be used by the next owner.

use vstd::prelude::*;

use crate::error::{ClientError, ErrorView};
use crate::handshake::{
    handshake_with_key, has_scheme, keyed_failure, keyed_headers, HandshakeRequest,
};
use crate::json::{
    object_text, opt_bool_member, opt_number_member, opt_raw_member, opt_text_member, rejection,
    rejection_text, text_member, Member, ObjectWriter,
};
use crate::record::{
    default_bool, field_default_bool, field_optional_text, field_required_text, optional_text,
    read_record, record_fields, required_text, str_views,
};
use crate::text::{concat, copy_opt, opt_str_view, opt_view, same};

verus! {

/// Seconds after which an idle connection is closed.
pub const IDLE_LIMIT_SECS: u64 = 20;

/// How the service is connected and what it is asked for.
#[derive(Debug)]
pub struct TtsWsConfig {
    pub endpoint: String,
    /// A token; `Bearer ` is put in front of it where it is missing.
    pub api_key: Option<String>,
    pub voice: Option<String>,
    pub task_type: Option<String>,
    pub language: Option<String>,
    pub instructions: Option<String>,
    pub response_format: String,
    /// None leaves it to the service.
    pub sample_rate: Option<u32>,
    pub channels: u8,
    /// Written as a JSON number.
    pub speed: Option<String>,
    pub ref_audio: Option<String>,
    pub ref_text: Option<String>,
    pub max_new_tokens: Option<u32>,
    /// Whether a sentence comes in several frames.
    pub stream_audio: bool,
    pub extra_headers: Vec<(String, String)>,
    pub timeout_ms: u64,
    pub max_connections: usize,
}

impl TtsWsConfig {
    pub open spec fn is_default(&self) -> bool {
        &&& self.endpoint@ == Seq::<char>::empty()
        &&& self.api_key is None
        &&& self.voice is None
        &&& self.task_type is None
        &&& self.language is None
        &&& self.instructions is None
        &&& self.response_format@ == "pcm"@
        &&& self.sample_rate is None
        &&& self.channels == 1
        &&& self.speed is None
        &&& self.ref_audio is None
        &&& self.ref_text is None
        &&& self.max_new_tokens is None
        &&& !self.stream_audio
        &&& self.extra_headers@ == Seq::<(String, String)>::empty()
        &&& self.timeout_ms == 300000
        &&& self.max_connections == 4
    }
}

impl Default for TtsWsConfig {
    fn default() -> (r: Self)
        ensures
            r.is_default(),
    {
        TtsWsConfig {
            endpoint: String::new(),
            api_key: None,
            voice: None,
            task_type: None,
            language: None,
            instructions: None,
            response_format: "pcm".to_string(),
            sample_rate: None,
            channels: 1,
            speed: None,
            ref_audio: None,
            ref_text: None,
            max_new_tokens: None,
            stream_audio: false,
            extra_headers: Vec::new(),
            timeout_ms: 300000,
            max_connections: 4,
        }
    }
}

/// `own`, or `other` where there is none.
pub open spec fn or_else<A>(own: Option<A>, other: Option<A>) -> Option<A> {
    match own {
        Some(a) => Some(a),
        None => other,
    }
}

impl TtsWsConfig {
    /// The members of `session.config`; what the caller overrides wins, and what is not given is
    /// left out.
    pub open spec fn session_members(&self, voice: Option<Seq<char>>, sample_rate: Option<u32>) -> Seq<
        Member,
    > {
        text_member("type"@, "session.config"@) + opt_text_member(
            "voice"@,
            or_else(voice, opt_view(self.voice)),
        ) + opt_text_member("task_type"@, opt_view(self.task_type)) + opt_text_member(
            "language"@,
            opt_view(self.language),
        ) + opt_text_member("instructions"@, opt_view(self.instructions)) + text_member(
            "response_format"@,
            self.response_format@,
        ) + opt_raw_member("speed"@, opt_view(self.speed)) + opt_text_member(
            "ref_audio"@,
            opt_view(self.ref_audio),
        ) + opt_text_member("ref_text"@, opt_view(self.ref_text)) + opt_number_member(
            "max_new_tokens"@,
            self.max_new_tokens,
        ) + opt_bool_member("stream_audio"@, if self.stream_audio { Some(true) } else { None })
            + opt_number_member("sample_rate"@, or_else(sample_rate, self.sample_rate))
    }

    /// The frame that configures a connection.
    pub fn session_config_with(&self, voice: Option<&str>, sample_rate_override: Option<u32>) -> (r:
        String)
        ensures
            r@ == object_text(self.session_members(opt_str_view(voice), sample_rate_override)),
    {
        let voice_text: Option<String> = match voice {
            Some(v) => Some(v.to_string()),
            None => copy_opt(&self.voice),
        };
        let sample_rate: Option<u32> = match sample_rate_override {
            Some(r) => Some(r),
            None => self.sample_rate,
        };
        let mut w = ObjectWriter::new();
        w.text("type", "session.config");
        w.opt_text("voice", &voice_text);
        w.opt_text("task_type", &self.task_type);
        w.opt_text("language", &self.language);
        w.opt_text("instructions", &self.instructions);
        w.text("response_format", self.response_format.as_str());
        w.opt_raw("speed", &self.speed);
        w.opt_text("ref_audio", &self.ref_audio);
        w.opt_text("ref_text", &self.ref_text);
        w.opt_number("max_new_tokens", self.max_new_tokens);
        w.opt_boolean("stream_audio", if self.stream_audio { Some(true) } else { None });
        w.opt_number("sample_rate", sample_rate);
        assert(w@ =~= self.session_members(opt_str_view(voice), sample_rate_override));
        w.finish()
    }

    /// The handshake of a new connection.
    pub fn connect(&self) -> (r: Result<HandshakeRequest, ClientError>)
        ensures
            match keyed_failure(self.endpoint@, opt_view(self.api_key), self.extra_headers@) {
                Some(f) => r matches Err(e) && e@ == f,
                None => r matches Ok(h) && h.url@ == self.endpoint@ && has_scheme(
                    self.endpoint@,
                    h.scheme@,
                ) && h.headers@ == keyed_headers(
                    opt_view(self.api_key),
                    self.extra_headers@,
                ),
            },
    {
        handshake_with_key(self.endpoint.as_str(), &self.api_key, &self.extra_headers)
    }

    /// Sample rate and channels of the output as they are configured.
    pub fn output_format(&self) -> (r: (Option<u32>, u8))
        ensures
            r == (self.sample_rate, self.channels),
    {
        (self.sample_rate, self.channels)
    }

    /// The name of the default voice.
    pub fn default_voice_short(&self) -> (r: &str)
        ensures
            r@ == (match self.voice {
                Some(v) => v@,
                None => "vivian"@,
            }),
    {
        match &self.voice {
            Some(v) => v.as_str(),
            None => "vivian",
        }
    }
}

/// A frame that carries text to speak.
pub open spec fn input_text_json(text: Seq<char>) -> Seq<char> {
    object_text(text_member("type"@, "input.text"@) + text_member("text"@, text))
}

/// A frame that only has a type.
pub open spec fn control_json(kind: Seq<char>) -> Seq<char> {
    object_text(text_member("type"@, kind))
}

/// A frame that carries text to speak.
pub fn input_text(text: &str) -> (r: String)
    ensures
        r@ == input_text_json(text@),
{
    let mut w = ObjectWriter::new();
    w.text("type", "input.text");
    w.text("text", text);
    assert(w@ =~= text_member("type"@, "input.text"@) + text_member("text"@, text@));
    w.finish()
}

/// A frame that only has a type.
pub fn control_message(kind: &str) -> (r: String)
    ensures
        r@ == control_json(kind@),
{
    let mut w = ObjectWriter::new();
    w.text("type", kind);
    assert(w@ =~= text_member("type"@, kind@));
    w.finish()
}

/// What the service says.
#[derive(Debug)]
pub enum ServerMessage {
    AudioStart,
    Audio(Vec<u8>),
    AudioDone { error: bool },
    SessionDone,
    Error(String),
}

/// What the service says.
pub ghost enum ServerView {
    AudioStart,
    Audio(Seq<u8>),
    AudioDone { error: bool },
    SessionDone,
    Error(Seq<char>),
}

impl View for ServerMessage {
    type V = ServerView;

    open spec fn view(&self) -> ServerView {
        match *self {
            ServerMessage::AudioStart => ServerView::AudioStart,
            ServerMessage::Audio(b) => ServerView::Audio(b@),
            ServerMessage::AudioDone { error } => ServerView::AudioDone { error },
            ServerMessage::SessionDone => ServerView::SessionDone,
            ServerMessage::Error(m) => ServerView::Error(m@),
        }
    }
}

/// What a type of frame says, or the message of the error.
pub open spec fn control_spec(kind: Seq<char>, error: bool, message: Option<Seq<char>>) -> Result<
    ServerView,
    Seq<char>,
> {
    if kind == "audio.start"@ {
        Ok(ServerView::AudioStart)
    } else if kind == "audio.done"@ {
        Ok(ServerView::AudioDone { error })
    } else if kind == "session.done"@ {
        Ok(ServerView::SessionDone)
    } else if kind == "error"@ {
        Ok(
            ServerView::Error(
                match message {
                    Some(m) => m,
                    None => "TTS WebSocket error"@,
                },
            ),
        )
    } else {
        Err("unknown TTS WebSocket message type: "@ + kind)
    }
}

/// The names of the fields of a text frame, in their order.
pub open spec fn control_names() -> Seq<Seq<char>> {
    seq!["type"@, "error"@, "message"@]
}

/// Type, flag and message of a text frame; nothing where it has not the expected shape.
pub open spec fn control_parts(d: Seq<u8>) -> Option<(Seq<char>, bool, Option<Seq<char>>)> {
    match record_fields(d, control_names(), 1) {
        Some(f) => match (required_text(f[0]), default_bool(f[1]), optional_text(f[2])) {
            (Some(kind), Some(error), Some(message)) => Some((kind, error, message)),
            _ => None,
        },
        None => None,
    }
}

/// What a text frame says, or the message of the error.
pub open spec fn control_frame_spec(text: Seq<char>) -> Result<ServerView, Seq<char>> {
    let d = vstd::utf8::encode_utf8(text);
    match control_parts(d) {
        Some((kind, error, message)) => control_spec(kind, error, message),
        None => Err("invalid TTS WebSocket message: "@ + rejection(d)),
    }
}

/// What a type of frame says.
pub fn control_from(kind: &str, error: bool, message: Option<String>) -> (r: Result<
    ServerMessage,
    ClientError,
>)
    ensures
        match control_spec(kind@, error, opt_view(message)) {
            Ok(v) => r matches Ok(m) && m@ == v,
            Err(t) => r matches Err(e) && e@ == ErrorView::Decode(t),
        },
{
    if same(kind, "audio.start") {
        Ok(ServerMessage::AudioStart)
    } else if same(kind, "audio.done") {
        Ok(ServerMessage::AudioDone { error })
    } else if same(kind, "session.done") {
        Ok(ServerMessage::SessionDone)
    } else if same(kind, "error") {
        Ok(
            ServerMessage::Error(
                match message {
                    Some(m) => m,
                    None => "TTS WebSocket error".to_string(),
                },
            ),
        )
    } else {
        Err(ClientError::Decode(concat("unknown TTS WebSocket message type: ", kind)))
    }
}

/// Reads a text frame.
pub fn parse_control_message(value: &str) -> (r: Result<ServerMessage, ClientError>)
    ensures
        match control_frame_spec(value@) {
            Ok(v) => r matches Ok(m) && m@ == v,
            Err(t) => r matches Err(e) && e@ == ErrorView::Decode(t),
        },
{
    let bytes = value.as_bytes();
    let names: [&str; 3] = ["type", "error", "message"];
    assert(str_views(names@) =~= control_names());
    if let Some(f) = read_record(bytes, &names, 1) {
        if let (Some(kind), Some(error), Some(message)) = (
            field_required_text(&f[0]),
            field_default_bool(&f[1]),
            field_optional_text(&f[2]),
        ) {
            return control_from(kind.as_str(), error, message);
        }
    }
    Err(
        ClientError::Decode(
            concat("invalid TTS WebSocket message: ", rejection_text(bytes).as_str()),
        ),
    )
}

/// What a read of a connection gives.
pub enum WsRead {
    Binary(Vec<u8>),
    Text(String),
    /// To be answered with a pong.
    Ping,
    Close,
    Other,
    Failed(String),
    Ended,
}

/// What is made of a read: a message or an error for the session, or another read.
pub fn on_read(read: WsRead) -> (r: Option<Result<ServerMessage, ClientError>>)
    ensures
        match read {
            WsRead::Binary(b) => r matches Some(Ok(m)) && m@ == ServerView::Audio(b@),
            WsRead::Text(t) => match control_frame_spec(t@) {
                Ok(v) => r matches Some(Ok(m)) && m@ == v,
                Err(x) => r matches Some(Err(e)) && e@ == ErrorView::Decode(x),
            },
            WsRead::Ping => r is None,
            WsRead::Other => r is None,
            WsRead::Close => r matches Some(Err(e)) && e@ == ErrorView::Ws("TTS WebSocket closed"@),
            WsRead::Failed(m) => r matches Some(Err(e)) && e@ == ErrorView::Ws(
                "receive TTS WebSocket frame: "@ + m@,
            ),
            WsRead::Ended => r matches Some(Err(e)) && e@ == ErrorView::Ws(
                "TTS WebSocket stream ended"@,
            ),
        },
{
    match read {
        WsRead::Binary(b) => Some(Ok(ServerMessage::Audio(b))),
        WsRead::Text(t) => Some(parse_control_message(t.as_str())),
        WsRead::Ping => None,
        WsRead::Other => None,
        WsRead::Close => Some(Err(ClientError::Ws("TTS WebSocket closed".to_string()))),
        WsRead::Failed(m) => Some(
            Err(ClientError::Ws(concat("receive TTS WebSocket frame: ", m.as_str()))),
        ),
        WsRead::Ended => Some(Err(ClientError::Ws("TTS WebSocket stream ended".to_string()))),
    }
}

// ---- the pool ----

/// What a connection is doing.
#[derive(Debug, Clone, Copy, PartialEq, Eq, Structural)]
pub enum ConnectionState {
    Connecting,
    Idle,
    InUse,
}

/// A connection of the pool.
#[derive(Debug)]
pub struct Connection {
    pub id: u64,
    pub state: ConnectionState,
    /// Changes whenever the connection gets a new owner.
    pub lease_id: u64,
    pub owner: Option<String>,
    /// Since when it is idle, in milliseconds.
    pub idle_since: Option<u64>,
}

/// A connection of the pool.
pub ghost struct ConnView {
    pub id: u64,
    pub state: ConnectionState,
    pub lease_id: u64,
    pub owner: Option<Seq<char>>,
    pub idle_since: Option<u64>,
}

impl View for Connection {
    type V = ConnView;

    open spec fn view(&self) -> ConnView {
        ConnView {
            id: self.id,
            state: self.state,
            lease_id: self.lease_id,
            owner: opt_view(self.owner),
            idle_since: self.idle_since,
        }
    }
}

pub open spec fn conn_views(v: Seq<Connection>) -> Seq<ConnView> {
    Seq::new(v.len(), |i: int| v[i]@)
}

/// The right to use a connection.
#[derive(Debug)]
pub struct Lease {
    pub id: u64,
    pub lease_id: u64,
    pub session_id: String,
}

/// The right to use a connection.
pub ghost struct LeaseView {
    pub id: u64,
    pub lease_id: u64,
    pub session_id: Seq<char>,
}

impl View for Lease {
    type V = LeaseView;

    open spec fn view(&self) -> LeaseView {
        LeaseView { id: self.id, lease_id: self.lease_id, session_id: self.session_id@ }
    }
}

/// The pool.
pub ghost struct PoolState {
    pub conns: Seq<ConnView>,
    pub max: usize,
    pub next_id: u64,
}

/// What asking the pool for a connection gives.
pub enum Acquired {
    /// An idle connection, now in use.
    Reuse(Lease),
    /// Room for a connection that has to be made.
    Connect(Lease),
    /// Nothing; wait until a connection is given back or closed.
    Wait,
}

pub ghost enum AcquiredView {
    Reuse(LeaseView),
    Connect(LeaseView),
    Wait,
}

impl View for Acquired {
    type V = AcquiredView;

    open spec fn view(&self) -> AcquiredView {
        match *self {
            Acquired::Reuse(l) => AcquiredView::Reuse(l@),
            Acquired::Connect(l) => AcquiredView::Connect(l@),
            Acquired::Wait => AcquiredView::Wait,
        }
    }
}

/// The number of a lease after another: never the same, never 0.
pub open spec fn next_lease(lease_id: u64) -> u64 {
    if lease_id == u64::MAX {
        1
    } else {
        (lease_id + 1) as u64
    }
}

/// The first idle connection at or after `from`.
pub open spec fn idle_from(conns: Seq<ConnView>, from: int) -> Option<int>
    decreases conns.len() - from,
{
    if from < 0 || from >= conns.len() {
        None
    } else if conns[from].state == ConnectionState::Idle {
        Some(from)
    } else {
        idle_from(conns, from + 1)
    }
}

/// The place of a connection at or after `from`.
pub open spec fn place_from(conns: Seq<ConnView>, id: u64, from: int) -> Option<int>
    decreases conns.len() - from,
{
    if from < 0 || from >= conns.len() {
        None
    } else if conns[from].id == id {
        Some(from)
    } else {
        place_from(conns, id, from + 1)
    }
}

pub open spec fn acquire_spec(p: PoolState, session: Seq<char>) -> (PoolState, AcquiredView) {
    match idle_from(p.conns, 0) {
        Some(i) => {
            let lease_id = next_lease(p.conns[i].lease_id);
            (
                PoolState {
                    conns: p.conns.update(
                        i,
                        ConnView {
                            id: p.conns[i].id,
                            state: ConnectionState::InUse,
                            lease_id,
                            owner: Some(session),
                            idle_since: None,
                        },
                    ),
                    ..p
                },
                AcquiredView::Reuse(
                    LeaseView { id: p.conns[i].id, lease_id, session_id: session },
                ),
            )
        },
        None => if p.conns.len() < p.max {
            (
                PoolState {
                    conns: p.conns.push(
                        ConnView {
                            id: p.next_id,
                            state: ConnectionState::Connecting,
                            lease_id: 1,
                            owner: Some(session),
                            idle_since: None,
                        },
                    ),
                    next_id: (p.next_id + 1) as u64,
                    ..p
                },
                AcquiredView::Connect(
                    LeaseView { id: p.next_id, lease_id: 1, session_id: session },
                ),
            )
        } else {
            (p, AcquiredView::Wait)
        },
    }
}

/// A lease holds: its connection is in use, by its owner, under its number.
pub open spec fn holds(p: PoolState, l: LeaseView) -> bool {
    exists|i: int|
        0 <= i < p.conns.len() && (#[trigger] p.conns[i]).id == l.id && p.conns[i].state
            == ConnectionState::InUse && p.conns[i].lease_id == l.lease_id && p.conns[i].owner
            == Some(l.session_id)
}

/// What every operation keeps: no more connections than allowed, each with its own identifier,
/// idle exactly where it has no owner.
pub open spec fn pool_ok(p: PoolState) -> bool {
    &&& 1 <= p.max
    &&& p.conns.len() <= p.max
    &&& forall|i: int| 0 <= i < p.conns.len() ==> (#[trigger] p.conns[i]).id < p.next_id
    &&& forall|i: int, j: int|
        0 <= i < j < p.conns.len() ==> (#[trigger] p.conns[i]).id != (#[trigger] p.conns[j]).id
    &&& forall|i: int|
        0 <= i < p.conns.len() ==> ((#[trigger] p.conns[i]).state == ConnectionState::Idle
            <==> p.conns[i].owner is None)
    &&& forall|i: int|
        0 <= i < p.conns.len() ==> ((#[trigger] p.conns[i]).state == ConnectionState::Idle
            <==> p.conns[i].idle_since is Some)
    &&& forall|i: int| 0 <= i < p.conns.len() ==> (#[trigger] p.conns[i]).lease_id >= 1
}

/// A connection that was made goes into use.
pub open spec fn connected_spec(p: PoolState, l: LeaseView) -> PoolState {
    match place_from(p.conns, l.id, 0) {
        Some(i) => if p.conns[i].state == ConnectionState::Connecting {
            PoolState {
                conns: p.conns.update(
                    i,
                    ConnView { state: ConnectionState::InUse, ..p.conns[i] },
                ),
                ..p
            }
        } else {
            p
        },
        None => p,
    }
}

/// A connection leaves the pool.
pub open spec fn remove_spec(p: PoolState, id: u64) -> PoolState {
    match place_from(p.conns, id, 0) {
        Some(i) => PoolState { conns: p.conns.remove(i), ..p },
        None => p,
    }
}

/// A lease is given back. Only one that still is the latest of its connection counts.
pub open spec fn release_spec(p: PoolState, l: LeaseView, now: u64) -> (PoolState, bool) {
    match place_from(p.conns, l.id, 0) {
        Some(i) => if p.conns[i].state == ConnectionState::InUse && p.conns[i].lease_id == l.lease_id {
            (
                PoolState {
                    conns: p.conns.update(
                        i,
                        ConnView {
                            state: ConnectionState::Idle,
                            owner: None,
                            idle_since: Some(now),
                            ..p.conns[i]
                        },
                    ),
                    ..p
                },
                true,
            )
        } else {
            (p, false)
        },
        None => (p, false),
    }
}

/// A connection has been idle under a lease number for the limit.
pub open spec fn overdue(c: ConnView, lease_id: u64, now: u64) -> bool {
    &&& c.state == ConnectionState::Idle
    &&& c.lease_id == lease_id
    &&& c.idle_since is Some
    &&& now >= c.idle_since->0
    &&& now - c.idle_since->0 >= IDLE_LIMIT_SECS * 1000
}

/// The look at a connection some time after it was given back under a lease number: it goes where
/// it has been idle ever since.
pub open spec fn reap_spec(p: PoolState, id: u64, lease_id: u64, now: u64) -> (PoolState, bool) {
    match place_from(p.conns, id, 0) {
        Some(i) => if overdue(p.conns[i], lease_id, now) {
            (PoolState { conns: p.conns.remove(i), ..p }, true)
        } else {
            (p, false)
        },
        None => (p, false),
    }
}

/// The connections to the service, no more of them than allowed.
pub struct TtsWsPool {
    conns: Vec<Connection>,
    max_connections: usize,
    next_id: u64,
}

impl View for TtsWsPool {
    type V = PoolState;

    closed spec fn view(&self) -> PoolState {
        PoolState { conns: conn_views(self.conns@), max: self.max_connections, next_id: self.next_id }
    }
}

proof fn lemma_idle_from(conns: Seq<ConnView>, from: int)
    requires
        0 <= from,
    ensures
        match idle_from(conns, from) {
            Some(i) => from <= i < conns.len() && conns[i].state == ConnectionState::Idle,
            None => forall|k: int|
                from <= k < conns.len() ==> (#[trigger] conns[k]).state != ConnectionState::Idle,
        },
    decreases conns.len() - from,
{
    if from < conns.len() && conns[from].state != ConnectionState::Idle {
        lemma_idle_from(conns, from + 1);
    }
}

proof fn lemma_idle_skip(conns: Seq<ConnView>, from: int, to: int)
    requires
        0 <= from <= to <= conns.len(),
        forall|k: int| from <= k < to ==> (#[trigger] conns[k]).state != ConnectionState::Idle,
    ensures
        idle_from(conns, from) == idle_from(conns, to),
    decreases to - from,
{
    if from < to {
        assert(conns[from].state != ConnectionState::Idle);
        lemma_idle_skip(conns, from + 1, to);
    }
}

proof fn lemma_place_from(conns: Seq<ConnView>, id: u64, from: int)
    requires
        0 <= from,
    ensures
        match place_from(conns, id, from) {
            Some(i) => from <= i < conns.len() && conns[i].id == id,
            None => forall|k: int| from <= k < conns.len() ==> (#[trigger] conns[k]).id != id,
        },
    decreases conns.len() - from,
{
    if from < conns.len() && conns[from].id != id {
        lemma_place_from(conns, id, from + 1);
    }
}

proof fn lemma_place_skip(conns: Seq<ConnView>, id: u64, from: int, to: int)
    requires
        0 <= from <= to <= conns.len(),
        forall|k: int| from <= k < to ==> (#[trigger] conns[k]).id != id,
    ensures
        place_from(conns, id, from) == place_from(conns, id, to),
    decreases to - from,
{
    if from < to {
        assert(conns[from].id != id);
        lemma_place_skip(conns, id, from + 1, to);
    }
}

impl TtsWsPool {
    /// An empty pool. A limit of 0 counts as 1.
    pub fn new(max_connections: usize) -> (r: Self)
        ensures
            pool_ok(r@),
            r@.conns == Seq::<ConnView>::empty(),
            r@.max == (if max_connections == 0 { 1 } else { max_connections }),
            r@.next_id == 1,
    {
        let max: usize = if max_connections == 0 { 1 } else { max_connections };
        let p = TtsWsPool { conns: Vec::new(), max_connections: max, next_id: 1 };
        assert(p@.conns =~= Seq::<ConnView>::empty());
        p
    }

    /// The number of the next connection.
    pub fn next_id(&self) -> (r: u64)
        ensures
            r == self@.next_id,
    {
        self.next_id
    }

    /// How many connections are allowed.
    pub fn max_connections(&self) -> (r: usize)
        ensures
            r == self@.max,
    {
        self.max_connections
    }

    /// How many connections there are.
    pub fn len(&self) -> (r: usize)
        ensures
            r == self@.conns.len(),
    {
        self.conns.len()
    }

    /// The identifiers of the connections.
    pub fn ids(&self) -> (r: Vec<u64>)
        ensures
            r@ == Seq::new(self@.conns.len(), |i: int| self@.conns[i].id),
    {
        let mut out: Vec<u64> = Vec::new();
        for i in 0..self.conns.len()
            invariant
                out@.len() == i,
                forall|k: int| 0 <= k < i ==> out@[k] == self@.conns[k].id,
        {
            out.push(self.conns[i].id);
        }
        assert(out@ =~= Seq::new(self@.conns.len(), |i: int| self@.conns[i].id));
        out
    }

    fn place(&self, id: u64) -> (r: Option<usize>)
        ensures
            match place_from(self@.conns, id, 0) {
                Some(i) => r == Some(i as usize) && 0 <= i < self@.conns.len()
                    && self@.conns[i].id == id,
                None => r is None,
            },
    {
        let mut i: usize = 0;
        while i < self.conns.len()
            invariant
                i <= self.conns@.len(),
                forall|k: int| 0 <= k < i ==> (#[trigger] self@.conns[k]).id != id,
            decreases self.conns@.len() - i,
        {
            assert(self@.conns[i as int] == self.conns@[i as int]@);
            if self.conns[i].id == id {
                proof {
                    lemma_place_skip(self@.conns, id, 0, i as int);
                }
                return Some(i);
            }
            i += 1;
        }
        proof {
            lemma_place_skip(self@.conns, id, 0, i as int);
        }
        None
    }

    /// Asks for a connection: an idle one, room for a new one, or neither.
    pub fn acquire(&mut self, session_id: &str) -> (r: Acquired)
        requires
            pool_ok(old(self)@),
            old(self)@.next_id < u64::MAX,
        ensures
            (final(self)@, r@) == acquire_spec(old(self)@, session_id@),
            pool_ok(final(self)@),
    {
        let ghost before = self@;
        let mut i: usize = 0;
        while i < self.conns.len()
            invariant
                i <= self.conns@.len(),
                self@ == before,
                before == old(self)@,
                pool_ok(before),
                forall|k: int|
                    0 <= k < i ==> (#[trigger] self@.conns[k]).state != ConnectionState::Idle,
            decreases self.conns@.len() - i,
        {
            assert(self@.conns[i as int] == self.conns@[i as int]@);
            let idle = match self.conns[i].state {
                ConnectionState::Idle => true,
                _ => false,
            };
            if idle {
                proof {
                    lemma_idle_skip(self@.conns, 0, i as int);
                }
                let id: u64 = self.conns[i].id;
                let last: u64 = self.conns[i].lease_id;
                let lease_id: u64 = if last == u64::MAX { 1 } else { last + 1 };
                let ghost place = i as int;
                self.conns[i] = Connection {
                    id,
                    state: ConnectionState::InUse,
                    lease_id,
                    owner: Some(session_id.to_string()),
                    idle_since: None,
                };
                let lease = Lease { id, lease_id, session_id: session_id.to_string() };
                assert(self@.conns =~= acquire_spec(before, session_id@).0.conns);
                return Acquired::Reuse(lease);
            }
            i += 1;
        }
        proof {
            lemma_idle_skip(self@.conns, 0, i as int);
        }
        if self.conns.len() < self.max_connections {
            let id: u64 = self.next_id;
            self.conns.push(
                Connection {
                    id,
                    state: ConnectionState::Connecting,
                    lease_id: 1,
                    owner: Some(session_id.to_string()),
                    idle_since: None,
                },
            );
            self.next_id = id + 1;
            assert(self@.conns =~= acquire_spec(before, session_id@).0.conns);
            Acquired::Connect(Lease { id, lease_id: 1, session_id: session_id.to_string() })
        } else {
            Acquired::Wait
        }
    }

    /// The connection of a lease was made.
    pub fn connected(&mut self, lease: &Lease)
        requires
            pool_ok(old(self)@),
        ensures
            final(self)@ == connected_spec(old(self)@, lease@),
            pool_ok(final(self)@),
    {
        let ghost before = self@;
        if let Some(i) = self.place(lease.id) {
            assert(self@.conns[i as int] == self.conns@[i as int]@);
            let connecting = match self.conns[i].state {
                ConnectionState::Connecting => true,
                _ => false,
            };
            if connecting {
                let owner = copy_opt(&self.conns[i].owner);
                let id: u64 = self.conns[i].id;
                let lease_id: u64 = self.conns[i].lease_id;
                let idle_since = self.conns[i].idle_since;
                self.conns[i] = Connection {
                    id,
                    state: ConnectionState::InUse,
                    lease_id,
                    owner,
                    idle_since,
                };
                assert(self@.conns =~= connected_spec(before, lease@).conns);
            }
        }
    }

    fn take_out(&mut self, i: usize)
        requires
            pool_ok(old(self)@),
            i < old(self)@.conns.len(),
        ensures
            final(self)@ == (PoolState { conns: old(self)@.conns.remove(i as int), ..old(self)@ }),
            pool_ok(final(self)@),
    {
        let ghost before = self@;
        self.conns.remove(i);
        assert(self@.conns =~= before.conns.remove(i as int));
        proof {
            let after = self@.conns;
            assert forall|k: int| 0 <= k < after.len() implies (#[trigger] after[k]) == before.conns[
                if k < i {
                    k
                } else {
                    k + 1
                }
            ] by {
            }
        }
    }

    /// A connection broke, could not be made or is given up.
    pub fn invalidate(&mut self, id: u64)
        requires
            pool_ok(old(self)@),
        ensures
            final(self)@ == remove_spec(old(self)@, id),
            pool_ok(final(self)@),
    {
        if let Some(i) = self.place(id) {
            self.take_out(i);
        }
    }

    /// Whether a lease still holds.
    pub fn check_owner(&self, lease: &Lease) -> (r: Result<(), ClientError>)
        requires
            pool_ok(self@),
        ensures
            r is Ok <==> holds(self@, lease@),
            r is Err ==> r->Err_0@ == ErrorView::Ws("TTS WebSocket lease is no longer owned"@),
    {
        proof {
            lemma_place_from(self@.conns, lease.id, 0);
        }
        let mut good = false;
        if let Some(i) = self.place(lease.id) {
            assert(self@.conns[i as int] == self.conns@[i as int]@);
            let c = &self.conns[i];
            let in_use = match c.state {
                ConnectionState::InUse => true,
                _ => false,
            };
            let mine = match &c.owner {
                Some(o) => same(o.as_str(), lease.session_id.as_str()),
                None => false,
            };
            good = in_use && c.lease_id == lease.lease_id && mine;
            proof {
                if holds(self@, lease@) {
                    let j = choose|j: int|
                        0 <= j < self@.conns.len() && (#[trigger] self@.conns[j]).id == lease.id
                            && self@.conns[j].state == ConnectionState::InUse && self@.conns[j].lease_id
                            == lease.lease_id && self@.conns[j].owner == Some(lease.session_id@);
                    if j != i {
                        if j < i {
                            assert(self@.conns[j].id != self@.conns[i as int].id);
                        } else {
                            assert(self@.conns[i as int].id != self@.conns[j].id);
                        }
                    }
                }
            }
        }
        if good {
            Ok(())
        } else {
            Err(ClientError::Ws("TTS WebSocket lease is no longer owned".to_string()))
        }
    }

    /// Gives a lease back. Says whether the connection became idle; then it has to be looked at
    /// again after the limit.
    pub fn release(&mut self, lease: &Lease, now: u64) -> (r: bool)
        requires
            pool_ok(old(self)@),
        ensures
            (final(self)@, r) == release_spec(old(self)@, lease@, now),
            pool_ok(final(self)@),
    {
        let ghost before = self@;
        match self.place(lease.id) {
            None => false,
            Some(i) => {
                assert(self@.conns[i as int] == self.conns@[i as int]@);
                let in_use = match self.conns[i].state {
                    ConnectionState::InUse => true,
                    _ => false,
                };
                if in_use && self.conns[i].lease_id == lease.lease_id {
                    let id: u64 = self.conns[i].id;
                    let lease_id: u64 = self.conns[i].lease_id;
                    self.conns[i] = Connection {
                        id,
                        state: ConnectionState::Idle,
                        lease_id,
                        owner: None,
                        idle_since: Some(now),
                    };
                    assert(self@.conns =~= release_spec(before, lease@, now).0.conns);
                    true
                } else {
                    false
                }
            },
        }
    }

    /// The look at a connection after the limit. Says whether it left the pool.
    pub fn reap(&mut self, id: u64, lease_id: u64, now: u64) -> (r: bool)
        requires
            pool_ok(old(self)@),
        ensures
            (final(self)@, r) == reap_spec(old(self)@, id, lease_id, now),
            pool_ok(final(self)@),
    {
        match self.place(id) {
            None => false,
            Some(i) => {
                assert(self@.conns[i as int] == self.conns@[i as int]@);
                let idle = match self.conns[i].state {
                    ConnectionState::Idle => true,
                    _ => false,
                };
                let long = match self.conns[i].idle_since {
                    Some(t) => now >= t && now - t >= IDLE_LIMIT_SECS * 1000,
                    None => false,
                };
                if idle && self.conns[i].lease_id == lease_id && long {
                    self.take_out(i);
                    true
                } else {
                    false
                }
            },
        }
    }

    /// Gives up every connection.
    pub fn close(&mut self)
        requires
            pool_ok(old(self)@),
        ensures
            final(self)@ == (PoolState { conns: Seq::empty(), ..old(self)@ }),
            pool_ok(final(self)@),
    {
        self.conns.clear();
        assert(self@.conns =~= Seq::<ConnView>::empty());
    }
}

/// Two leases that hold at the same time on one connection are one lease: a connection never has
/// two owners.
pub proof fn law_one_owner(p: PoolState, a: LeaseView, b: LeaseView)
    requires
        pool_ok(p),
        holds(p, a),
        holds(p, b),
        a.id == b.id,
    ensures
        a == b,
{
    let i = choose|i: int|
        0 <= i < p.conns.len() && (#[trigger] p.conns[i]).id == a.id && p.conns[i].state
            == ConnectionState::InUse && p.conns[i].lease_id == a.lease_id && p.conns[i].owner
            == Some(a.session_id);
    let j = choose|j: int|
        0 <= j < p.conns.len() && (#[trigger] p.conns[j]).id == b.id && p.conns[j].state
            == ConnectionState::InUse && p.conns[j].lease_id == b.lease_id && p.conns[j].owner
            == Some(b.session_id);
    if i < j {
        assert(p.conns[i].id != p.conns[j].id);
    } else if j < i {
        assert(p.conns[j].id != p.conns[i].id);
    }
}

/// The lease that was handed out, where there was one.
pub open spec fn leased(a: AcquiredView) -> Option<LeaseView> {
    match a {
        AcquiredView::Reuse(l) => Some(l),
        AcquiredView::Connect(l) => Some(l),
        AcquiredView::Wait => None,
    }
}

/// Whoever asks for a connection never gets one that someone else holds, and the leases of the
/// others go on to hold.
pub proof fn law_acquire_disturbs_nobody(p: PoolState, session: Seq<char>, other: LeaseView)
    requires
        pool_ok(p),
        p.next_id < u64::MAX,
        holds(p, other),
    ensures
        ({
            let (q, got) = acquire_spec(p, session);
            &&& holds(q, other)
            &&& leased(got) is Some ==> leased(got)->0.id != other.id
        }),
{
    lemma_idle_from(p.conns, 0);
    let (q, got) = acquire_spec(p, session);
    let i = choose|i: int|
        0 <= i < p.conns.len() && (#[trigger] p.conns[i]).id == other.id && p.conns[i].state
            == ConnectionState::InUse && p.conns[i].lease_id == other.lease_id && p.conns[i].owner
            == Some(other.session_id);
    assert(q.conns[i] == p.conns[i]);
    match idle_from(p.conns, 0) {
        Some(j) => {
            if i < j {
                assert(p.conns[i].id != p.conns[j].id);
            } else {
                assert(p.conns[j].id != p.conns[i].id);
            }
        },
        None => {},
    }
}

/// An idle connection that is handed out is held at once by the one who asked, and its earlier
/// leases hold no more.
pub proof fn law_reuse_makes_a_new_owner(p: PoolState, session: Seq<char>)
    requires
        pool_ok(p),
        acquire_spec(p, session).1 is Reuse,
    ensures
        ({
            let (q, got) = acquire_spec(p, session);
            let lease = got->Reuse_0;
            &&& holds(q, lease)
            &&& lease.session_id == session
            &&& forall|old: LeaseView|
                old.id == lease.id && old.lease_id != lease.lease_id ==> !(#[trigger] holds(q, old))
        }),
{
    lemma_idle_from(p.conns, 0);
    let (q, got) = acquire_spec(p, session);
    let i = idle_from(p.conns, 0)->0;
    assert(q.conns[i].state == ConnectionState::InUse);
    let lease = got->Reuse_0;
    assert(holds(q, lease));
    assert forall|old: LeaseView| old.id == lease.id && old.lease_id != lease.lease_id implies !(
    #[trigger] holds(q, old)) by {
        if holds(q, old) {
            let j = choose|j: int|
                0 <= j < q.conns.len() && (#[trigger] q.conns[j]).id == old.id && q.conns[j].state
                    == ConnectionState::InUse && q.conns[j].lease_id == old.lease_id
                    && q.conns[j].owner == Some(old.session_id);
            if j < i {
                assert(p.conns[j].id != p.conns[i].id);
            } else if i < j {
                assert(p.conns[i].id != p.conns[j].id);
            }
        }
    }
}

/// A connection that is given back is there for the next one who asks.
pub proof fn law_release_makes_room(p: PoolState, l: LeaseView, now: u64, session: Seq<char>)
    requires
        pool_ok(p),
        holds(p, l),
    ensures
        ({
            let (q, idle) = release_spec(p, l, now);
            &&& idle
            &&& !holds(q, l)
            &&& acquire_spec(q, session).1 is Reuse
        }),
{
    lemma_place_from(p.conns, l.id, 0);
    let i = choose|i: int|
        0 <= i < p.conns.len() && (#[trigger] p.conns[i]).id == l.id && p.conns[i].state
            == ConnectionState::InUse && p.conns[i].lease_id == l.lease_id && p.conns[i].owner
            == Some(l.session_id);
    match place_from(p.conns, l.id, 0) {
        Some(j) => {
            if i < j {
                assert(p.conns[i].id != p.conns[j].id);
            } else if j < i {
                assert(p.conns[j].id != p.conns[i].id);
            }
            let (q, idle) = release_spec(p, l, now);
            assert(q.conns[i].state == ConnectionState::Idle);
            lemma_idle_from(q.conns, 0);
            if holds(q, l) {
                let k = choose|k: int|
                    0 <= k < q.conns.len() && (#[trigger] q.conns[k]).id == l.id && q.conns[k].state
                        == ConnectionState::InUse && q.conns[k].lease_id == l.lease_id
                        && q.conns[k].owner == Some(l.session_id);
                if k < i {
                    assert(p.conns[k].id != p.conns[i].id);
                } else if i < k {
                    assert(p.conns[i].id != p.conns[k].id);
                }
            }
        },
        None => {
            assert(p.conns[i].id != l.id);
        },
    }
}

/// A look that was planned under an earlier lease never removes a connection that someone else
/// holds by now.
pub proof fn law_stale_reap_is_harmless(p: PoolState, l: LeaseView, lease_id: u64, now: u64)
    requires
        pool_ok(p),
        holds(p, l),
    ensures
        reap_spec(p, l.id, lease_id, now) == (p, false),
{
    lemma_place_from(p.conns, l.id, 0);
    let i = choose|i: int|
        0 <= i < p.conns.len() && (#[trigger] p.conns[i]).id == l.id && p.conns[i].state
            == ConnectionState::InUse && p.conns[i].lease_id == l.lease_id && p.conns[i].owner
            == Some(l.session_id);
    match place_from(p.conns, l.id, 0) {
        Some(j) => {
            if i < j {
                assert(p.conns[i].id != p.conns[j].id);
            } else if j < i {
                assert(p.conns[j].id != p.conns[i].id);
            }
        },
        None => {},
    }
}

/// A connection that nobody takes after it was given back leaves the pool at the look after the
/// limit.
pub proof fn law_idle_connection_is_reaped(p: PoolState, l: LeaseView, now: u64, later: u64)
    requires
        pool_ok(p),
        holds(p, l),
        later >= now,
        later - now >= IDLE_LIMIT_SECS * 1000,
    ensures
        ({
            let (q, _idle) = release_spec(p, l, now);
            let (r, gone) = reap_spec(q, l.id, l.lease_id, later);
            gone && r.conns.len() == p.conns.len() - 1
        }),
{
    law_release_makes_room(p, l, now, l.session_id);
    lemma_place_from(p.conns, l.id, 0);
    let (q, idle) = release_spec(p, l, now);
    lemma_place_from(q.conns, l.id, 0);
    let i = place_from(p.conns, l.id, 0)->0;
    assert(q.conns[i].id == l.id);
    match place_from(q.conns, l.id, 0) {
        Some(j) => {
            if i < j {
                assert(p.conns[i].id != p.conns[j].id);
            } else if j < i {
                assert(p.conns[j].id != p.conns[i].id);
            }
        },
        None => {},
    }
}

/// A session waits for a connection only where all that are allowed are there and none is idle;
/// and while one is idle, no new one is made.
pub proof fn law_waits_only_when_full(p: PoolState, session: Seq<char>)
    requires
        pool_ok(p),
    ensures
        ({
            let (q, got) = acquire_spec(p, session);
            let idle = exists|i: int|
                0 <= i < p.conns.len() && (#[trigger] p.conns[i]).state == ConnectionState::Idle;
            &&& got is Wait <==> !idle && p.conns.len() == p.max
            &&& got is Wait ==> q == p
            &&& got is Reuse <==> idle
            &&& got is Reuse ==> q.conns.len() == p.conns.len()
            &&& got is Connect ==> q.conns.len() == p.conns.len() + 1
            &&& leased(got) matches Some(l) ==> l.session_id == session
        }),
{
    lemma_idle_found(p.conns, 0);
}

proof fn lemma_idle_found(conns: Seq<ConnView>, from: int)
    requires
        0 <= from,
    ensures
        match idle_from(conns, from) {
            Some(i) => from <= i < conns.len() && conns[i].state == ConnectionState::Idle,
            None => forall|i: int|
                from <= i < conns.len() ==> (#[trigger] conns[i]).state != ConnectionState::Idle,
        },
    decreases conns.len() - from,
{
    if from < conns.len() && conns[from].state != ConnectionState::Idle {
        lemma_idle_found(conns, from + 1);
    }
}

/// A new connection belongs to the session that asked for it as soon as it is made.
pub proof fn law_new_connection_is_owned(p: PoolState, session: Seq<char>)
    requires
        pool_ok(p),
        acquire_spec(p, session).1 is Connect,
        p.next_id < u64::MAX,
    ensures
        ({
            let (q, got) = acquire_spec(p, session);
            holds(connected_spec(q, leased(got)->0), leased(got)->0)
        }),
{
    let (q, got) = acquire_spec(p, session);
    let l = leased(got)->0;
    let n = p.conns.len() as int;
    lemma_place_of_last(q.conns, l.id, 0);
    let r = connected_spec(q, l);
    assert(r.conns[n].id == l.id);
}

proof fn lemma_place_of_last(conns: Seq<ConnView>, id: u64, from: int)
    requires
        0 <= from < conns.len(),
        conns.last().id == id,
        forall|i: int| 0 <= i < conns.len() - 1 ==> (#[trigger] conns[i]).id != id,
    ensures
        place_from(conns, id, from) == Some(conns.len() - 1),
    decreases conns.len() - from,
{
    if from < conns.len() - 1 {
        assert(conns[from].id != id);
        lemma_place_of_last(conns, id, from + 1);
    }
}

/// Each kind of frame has its name; an error is told in its own words, and what is not known is
/// refused by its name.
pub proof fn law_frames_have_names(kind: Seq<char>, error: bool, message: Seq<char>)
    ensures
        control_spec("audio.start"@, error, None) == Ok::<ServerView, Seq<char>>(
            ServerView::AudioStart,
        ),
        control_spec("audio.done"@, error, None) == Ok::<ServerView, Seq<char>>(
            ServerView::AudioDone { error },
        ),
        control_spec("session.done"@, error, None) == Ok::<ServerView, Seq<char>>(
            ServerView::SessionDone,
        ),
        control_spec("error"@, error, Some(message)) == Ok::<ServerView, Seq<char>>(
            ServerView::Error(message),
        ),
        control_spec(kind, error, Some(message)) matches Err(m) ==> kind.is_suffix_of(m),
{
    reveal_strlit("audio.start");
    reveal_strlit("audio.done");
    reveal_strlit("session.done");
    reveal_strlit("error");
    assert("audio.start"@.len() == 11 && "audio.done"@.len() == 10 && "session.done"@.len() == 12
        && "error"@.len() == 5);
    let head = "unknown TTS WebSocket message type: "@;
    let m = head + kind;
    assert(m.subrange(m.len() - kind.len(), m.len() as int) =~= kind);
}

/// An idle connection is kept until its time is over, and one that was lent again since is never
/// taken for it.
pub proof fn law_connection_is_kept_until_its_time(
    p: PoolState,
    i: int,
    lease_id: u64,
    now: u64,
)
    requires
        pool_ok(p),
        0 <= i < p.conns.len(),
    ensures
        ({
            let c = p.conns[i];
            &&& c.lease_id != lease_id ==> reap_spec(p, c.id, lease_id, now) == (p, false)
            &&& c.state != ConnectionState::Idle ==> reap_spec(p, c.id, lease_id, now) == (p, false)
            &&& (c.idle_since matches Some(t) && now - t < IDLE_LIMIT_SECS * 1000) ==> reap_spec(
                p,
                c.id,
                lease_id,
                now,
            ) == (p, false)
        }),
{
    lemma_place_of(p, i, 0);
}

proof fn lemma_place_of(p: PoolState, i: int, from: int)
    requires
        pool_ok(p),
        0 <= from <= i < p.conns.len(),
    ensures
        place_from(p.conns, p.conns[i].id, from) == Some(i),
    decreases i - from,
{
    if from < i {
        assert(p.conns[from].id != p.conns[i].id);
        lemma_place_of(p, i, from + 1);
    }
}

} // verus!

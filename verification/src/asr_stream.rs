//! Live recognition for a browser: what is configured, and what a connection does with the
//! messages of the browser and of the recognition service.
//!
//! A browser starts a session, sends audio as binary messages and finishes or stops the session.
//! It gets one JSON text for everything that happens.

use vstd::prelude::*;

use crate::json::{
    json_error, json_node, object_text, text_node, text_member, Document, ObjectWriter,
};
use crate::live_asr::{take_text, taken_text};
use crate::string_map::StringMap;
use crate::text::{concat, decimal, decimal_of, is_blank, opt_view, same, trim_spec};

verus! {

/// The model where none is configured.
pub open spec fn canonical_model() -> Seq<char> {
    "qwen3-asr-flash-realtime"@
}

/// How the recognition service is reached.
#[derive(Debug)]
pub struct AsrStreamCfg {
    pub model: Option<String>,
    pub api_key: Option<String>,
    /// Needed where no endpoint is given.
    pub workspace_id: Option<String>,
    pub region: Option<String>,
    /// A whole URL.
    pub endpoint: Option<String>,
    /// Samples per second.
    pub sample_rate: Option<u32>,
}

pub ghost struct StreamCfgView {
    pub model: Option<Seq<char>>,
    pub api_key: Option<Seq<char>>,
    pub workspace_id: Option<Seq<char>>,
    pub region: Option<Seq<char>>,
    pub endpoint: Option<Seq<char>>,
    pub sample_rate: Option<u32>,
}

impl View for AsrStreamCfg {
    type V = StreamCfgView;

    open spec fn view(&self) -> StreamCfgView {
        StreamCfgView {
            model: opt_view(self.model),
            api_key: opt_view(self.api_key),
            workspace_id: opt_view(self.workspace_id),
            region: opt_view(self.region),
            endpoint: opt_view(self.endpoint),
            sample_rate: self.sample_rate,
        }
    }
}

/// The model that is used.
pub open spec fn model_spec(model: Option<Seq<char>>) -> Seq<char> {
    match model {
        Some(m) => if m.len() > 0 {
            m
        } else {
            canonical_model()
        },
        None => canonical_model(),
    }
}

/// A configuration with what the environment says on top. The key has a variable of its own,
/// which wins over the one that is shared with other programs.
pub open spec fn overridden(
    c: StreamCfgView,
    env: Map<Seq<char>, Seq<char>>,
) -> StreamCfgView {
    let shared = taken_text(env, "DASHSCOPE_API_KEY"@, c.api_key);
    StreamCfgView {
        api_key: taken_text(env, "VOICE_ASR_STREAM_API_KEY"@, shared),
        model: taken_text(env, "VOICE_ASR_STREAM_MODEL"@, c.model),
        workspace_id: taken_text(env, "VOICE_ASR_STREAM_WORKSPACE_ID"@, c.workspace_id),
        region: taken_text(env, "VOICE_ASR_STREAM_REGION"@, c.region),
        endpoint: taken_text(env, "VOICE_ASR_STREAM_ENDPOINT"@, c.endpoint),
        sample_rate: c.sample_rate,
    }
}

/// What is said where no key is configured.
pub open spec fn missing_key_text() -> Seq<char> {
    "asr_stream.api_key 未配置（YAML asr_stream: 段或 env DASHSCOPE_API_KEY / VOICE_ASR_STREAM_API_KEY）"@
}

impl Default for AsrStreamCfg {
    fn default() -> (r: Self)
        ensures
            r@ == (StreamCfgView {
                model: None,
                api_key: None,
                workspace_id: None,
                region: None,
                endpoint: None,
                sample_rate: None,
            }),
    {
        AsrStreamCfg {
            model: None,
            api_key: None,
            workspace_id: None,
            region: None,
            endpoint: None,
            sample_rate: None,
        }
    }
}

impl AsrStreamCfg {
    /// The model that is used.
    pub fn model(&self) -> (r: String)
        ensures
            r@ == model_spec(self@.model),
    {
        if let Some(m) = &self.model {
            if !m.as_str().is_empty() {
                return m.clone();
            }
        }
        "qwen3-asr-flash-realtime".to_string()
    }

    /// The sample rate that is used.
    pub fn sample_rate(&self) -> (r: u32)
        ensures
            r == (match self.sample_rate {
                Some(n) => n,
                None => 16000,
            }),
    {
        match self.sample_rate {
            Some(n) => n,
            None => 16000,
        }
    }

    /// The key of the service, or what is said where there is none.
    pub fn checked_key(&self) -> (r: Result<String, String>)
        ensures
            match self@.api_key {
                Some(k) if trim_spec(k).len() > 0 => r matches Ok(v) && v@ == k,
                _ => r matches Err(m) && m@ == missing_key_text(),
            },
    {
        if let Some(k) = &self.api_key {
            if !is_blank(k.as_str()) {
                return Ok(k.clone());
            }
        }
        Err(
            "asr_stream.api_key 未配置（YAML asr_stream: 段或 env DASHSCOPE_API_KEY / VOICE_ASR_STREAM_API_KEY）".to_string(),
        )
    }

    /// Puts what the environment says on top.
    pub fn apply_env_overrides(&mut self, env: &StringMap)
        ensures
            final(self)@ == overridden(old(self)@, env@),
    {
        take_text(&mut self.api_key, env, "DASHSCOPE_API_KEY");
        take_text(&mut self.api_key, env, "VOICE_ASR_STREAM_API_KEY");
        take_text(&mut self.model, env, "VOICE_ASR_STREAM_MODEL");
        take_text(&mut self.workspace_id, env, "VOICE_ASR_STREAM_WORKSPACE_ID");
        take_text(&mut self.region, env, "VOICE_ASR_STREAM_REGION");
        take_text(&mut self.endpoint, env, "VOICE_ASR_STREAM_ENDPOINT");
    }
}

/// The configuration of the file with what the environment says on top.
pub fn load_cfg(section: AsrStreamCfg, env: &StringMap) -> (r: AsrStreamCfg)
    ensures
        r@ == overridden(section@, env@),
{
    let mut cfg = section;
    cfg.apply_env_overrides(env);
    cfg
}

// ---- messages to the browser ----

/// What the recognition service says.
#[derive(Debug)]
pub enum RealtimeEvent {
    /// What is recognised so far of a sentence.
    Partial { text: String },
    /// A whole sentence.
    Final { text: String },
    SpeechStarted,
    SpeechStopped,
    /// The session is over.
    Finished,
}

pub ghost enum RealtimeView {
    Partial(Seq<char>),
    Final(Seq<char>),
    SpeechStarted,
    SpeechStopped,
    Finished,
}

impl View for RealtimeEvent {
    type V = RealtimeView;

    open spec fn view(&self) -> RealtimeView {
        match *self {
            RealtimeEvent::Partial { text } => RealtimeView::Partial(text@),
            RealtimeEvent::Final { text } => RealtimeView::Final(text@),
            RealtimeEvent::SpeechStarted => RealtimeView::SpeechStarted,
            RealtimeEvent::SpeechStopped => RealtimeView::SpeechStopped,
            RealtimeEvent::Finished => RealtimeView::Finished,
        }
    }
}

/// A message that only has a type.
pub open spec fn plain_line(kind: Seq<char>) -> Seq<char> {
    object_text(text_member("type"@, kind))
}

/// A message with a text.
pub open spec fn text_line(name: Seq<char>, text: Seq<char>, kind: Seq<char>) -> Seq<char> {
    object_text(text_member(name, text) + text_member("type"@, kind))
}

pub open spec fn event_line(e: RealtimeView) -> Seq<char> {
    match e {
        RealtimeView::Partial(text) => text_line("text"@, text, "partial"@),
        RealtimeView::Final(text) => text_line("text"@, text, "final"@),
        RealtimeView::SpeechStarted => plain_line("speech_started"@),
        RealtimeView::SpeechStopped => plain_line("speech_stopped"@),
        RealtimeView::Finished => plain_line("finished"@),
    }
}

pub open spec fn failure_line(message: Seq<char>) -> Seq<char> {
    text_line("message"@, message, "error"@)
}

pub open spec fn started_line(id: Seq<char>) -> Seq<char> {
    text_line("session_id"@, id, "started"@)
}

fn write_plain(kind: &str) -> (r: String)
    ensures
        r@ == plain_line(kind@),
{
    let mut w = ObjectWriter::new();
    w.text("type", kind);
    assert(w@ =~= text_member("type"@, kind@));
    w.finish()
}

fn write_text(name: &str, text: &str, kind: &str) -> (r: String)
    ensures
        r@ == text_line(name@, text@, kind@),
{
    let mut w = ObjectWriter::new();
    w.text(name, text);
    w.text("type", kind);
    assert(w@ =~= text_member(name@, text@) + text_member("type"@, kind@));
    w.finish()
}

/// An event of the service as the browser gets it.
pub fn realtime_event_line(evt: &RealtimeEvent) -> (r: String)
    ensures
        r@ == event_line(evt@),
{
    match evt {
        RealtimeEvent::Partial { text } => write_text("text", text.as_str(), "partial"),
        RealtimeEvent::Final { text } => write_text("text", text.as_str(), "final"),
        RealtimeEvent::SpeechStarted => write_plain("speech_started"),
        RealtimeEvent::SpeechStopped => write_plain("speech_stopped"),
        RealtimeEvent::Finished => write_plain("finished"),
    }
}

/// A failure as the browser gets it.
pub fn error_line(message: &str) -> (r: String)
    ensures
        r@ == failure_line(message@),
{
    write_text("message", message, "error")
}

// ---- a connection ----

/// What a browser asks for in a text message.
#[derive(Debug)]
pub enum ClientCommand {
    Start,
    Finish,
    Stop,
    /// Something else, under the name of its type.
    Unknown(Option<String>),
    /// It is no JSON.
    Invalid(String),
}

pub ghost enum CommandView {
    Start,
    Finish,
    Stop,
    Unknown(Option<Seq<char>>),
    Invalid(Seq<char>),
}

impl View for ClientCommand {
    type V = CommandView;

    open spec fn view(&self) -> CommandView {
        match *self {
            ClientCommand::Start => CommandView::Start,
            ClientCommand::Finish => CommandView::Finish,
            ClientCommand::Stop => CommandView::Stop,
            ClientCommand::Unknown(t) => CommandView::Unknown(opt_view(t)),
            ClientCommand::Invalid(m) => CommandView::Invalid(m@),
        }
    }
}

/// The command of a type.
pub open spec fn command_of(kind: Option<Seq<char>>) -> CommandView {
    if kind == Some("start"@) {
        CommandView::Start
    } else if kind == Some("finish"@) {
        CommandView::Finish
    } else if kind == Some("stop"@) {
        CommandView::Stop
    } else {
        CommandView::Unknown(kind)
    }
}

/// The command in a text message.
pub open spec fn command_spec(text: Seq<char>) -> CommandView {
    let d = vstd::utf8::encode_utf8(text);
    match json_error(d) {
        Some(m) => CommandView::Invalid(m),
        None => command_of(text_node(json_node(d, "/type"@))),
    }
}

/// The command of a type.
pub fn command_from(kind: Option<String>) -> (r: ClientCommand)
    ensures
        r@ == command_of(opt_view(kind)),
{
    match kind {
        Some(k) => {
            if same(k.as_str(), "start") {
                ClientCommand::Start
            } else if same(k.as_str(), "finish") {
                ClientCommand::Finish
            } else if same(k.as_str(), "stop") {
                ClientCommand::Stop
            } else {
                ClientCommand::Unknown(Some(k))
            }
        },
        None => ClientCommand::Unknown(None),
    }
}

/// Reads a text message of a browser.
pub fn parse_client_text(text: &str) -> (r: ClientCommand)
    ensures
        r@ == command_spec(text@),
{
    let doc = Document { bytes: text.as_bytes() };
    if let Some(m) = doc.error() {
        return ClientCommand::Invalid(m);
    }
    command_from(doc.text_at("/type"))
}

/// What happens on a connection.
#[derive(Debug)]
pub enum StreamEvent {
    /// The browser sent a text.
    Text(String),
    /// The browser sent audio.
    Audio(Vec<u8>),
    /// The session was started.
    Started,
    /// The session could not be started.
    StartFailed(String),
    /// Audio or the end of it could not be handed on.
    SendFailed(String),
    /// The service says something.
    Service(RealtimeEvent),
    /// The service failed.
    ServiceFailed(String),
    /// The service says no more.
    ServiceEnded,
}

pub ghost enum StreamEventView {
    Text(Seq<char>),
    Audio(Seq<u8>),
    Started,
    StartFailed(Seq<char>),
    SendFailed(Seq<char>),
    Service(RealtimeView),
    ServiceFailed(Seq<char>),
    ServiceEnded,
}

impl View for StreamEvent {
    type V = StreamEventView;

    open spec fn view(&self) -> StreamEventView {
        match *self {
            StreamEvent::Text(t) => StreamEventView::Text(t@),
            StreamEvent::Audio(b) => StreamEventView::Audio(b@),
            StreamEvent::Started => StreamEventView::Started,
            StreamEvent::StartFailed(m) => StreamEventView::StartFailed(m@),
            StreamEvent::SendFailed(m) => StreamEventView::SendFailed(m@),
            StreamEvent::Service(e) => StreamEventView::Service(e@),
            StreamEvent::ServiceFailed(m) => StreamEventView::ServiceFailed(m@),
            StreamEvent::ServiceEnded => StreamEventView::ServiceEnded,
        }
    }
}

/// What is to be done.
#[derive(Debug)]
pub enum StreamAction {
    Nothing,
    /// Start a session of this name.
    Start(String),
    /// Hand audio to the session.
    Send(Vec<u8>),
    /// Tell the session that the audio is complete.
    Finish,
    /// Give the session up.
    Abandon,
}

pub ghost enum StreamActionView {
    Nothing,
    Start(Seq<char>),
    Send(Seq<u8>),
    Finish,
    Abandon,
}

impl View for StreamAction {
    type V = StreamActionView;

    open spec fn view(&self) -> StreamActionView {
        match *self {
            StreamAction::Nothing => StreamActionView::Nothing,
            StreamAction::Start(id) => StreamActionView::Start(id@),
            StreamAction::Send(b) => StreamActionView::Send(b@),
            StreamAction::Finish => StreamActionView::Finish,
            StreamAction::Abandon => StreamActionView::Abandon,
        }
    }
}

/// A message for the browser, where there is one, and what is to be done.
#[derive(Debug)]
pub struct StreamStep {
    pub line: Option<String>,
    pub action: StreamAction,
}

pub ghost struct StreamStepView {
    pub line: Option<Seq<char>>,
    pub action: StreamActionView,
}

impl View for StreamStep {
    type V = StreamStepView;

    open spec fn view(&self) -> StreamStepView {
        StreamStepView { line: opt_view(self.line), action: self.action@ }
    }
}

/// A connection of a browser.
#[derive(Debug)]
pub struct AsrStream {
    active: bool,
    ended: bool,
    seq: u64,
}

pub ghost struct StreamView {
    /// There is a session.
    pub active: bool,
    /// What the service says is not passed on.
    pub ended: bool,
    /// The number of the last session.
    pub seq: u64,
}

impl View for AsrStream {
    type V = StreamView;

    closed spec fn view(&self) -> StreamView {
        StreamView { active: self.active, ended: self.ended, seq: self.seq }
    }
}

pub open spec fn session_name(n: u64) -> Seq<char> {
    "asr-stream-"@ + decimal(n as nat)
}

pub open spec fn says(line: Seq<char>) -> StreamStepView {
    StreamStepView { line: Some(line), action: StreamActionView::Nothing }
}

pub open spec fn does(action: StreamActionView) -> StreamStepView {
    StreamStepView { line: None, action }
}

/// No session is going on any more.
pub open spec fn over(s: StreamView) -> StreamView {
    StreamView { active: false, ended: true, ..s }
}

/// What a command does.
pub open spec fn command_step(s: StreamView, c: CommandView) -> (StreamView, StreamStepView) {
    match c {
        CommandView::Invalid(m) => (s, says(failure_line("invalid json: "@ + m))),
        CommandView::Start => if s.active {
            (s, says(failure_line("会话已在进行中，先 stop 或 finish"@)))
        } else {
            let n = (s.seq + 1) as u64;
            (StreamView { seq: n, ..s }, does(StreamActionView::Start(session_name(n))))
        },
        CommandView::Finish => if s.active {
            (s, does(StreamActionView::Finish))
        } else {
            (s, says(failure_line("尚未 start，无法 finish"@)))
        },
        CommandView::Stop => if s.active {
            (
                over(s),
                StreamStepView {
                    line: Some(plain_line("stopped"@)),
                    action: StreamActionView::Abandon,
                },
            )
        } else {
            (s, does(StreamActionView::Nothing))
        },
        CommandView::Unknown(kind) => (
            s,
            says(
                failure_line(
                    "未知消息 type: "@ + match kind {
                        Some(k) => k,
                        None => "<missing>"@,
                    },
                ),
            ),
        ),
    }
}

/// What something that happens does. What the service says after the end of its session is
/// dropped; where it says no more without having finished, the browser is told that it has.
pub open spec fn stream_step(s: StreamView, e: StreamEventView) -> (StreamView, StreamStepView) {
    match e {
        StreamEventView::Text(t) => command_step(s, command_spec(t)),
        StreamEventView::Audio(b) => if s.active {
            (s, does(StreamActionView::Send(b)))
        } else {
            (s, says(failure_line("尚未 start，音频帧被丢弃"@)))
        },
        StreamEventView::Started => (
            StreamView { active: true, ended: false, ..s },
            says(started_line(session_name(s.seq))),
        ),
        StreamEventView::StartFailed(m) => (s, says(failure_line(m))),
        StreamEventView::SendFailed(m) => (s, says(failure_line(m))),
        StreamEventView::Service(event) => if s.ended {
            (s, does(StreamActionView::Nothing))
        } else if event is Finished {
            (
                over(s),
                StreamStepView {
                    line: Some(event_line(event)),
                    action: StreamActionView::Abandon,
                },
            )
        } else {
            (s, says(event_line(event)))
        },
        StreamEventView::ServiceFailed(m) => if s.ended {
            (s, does(StreamActionView::Nothing))
        } else {
            (
                over(s),
                StreamStepView { line: Some(failure_line(m)), action: StreamActionView::Abandon },
            )
        },
        StreamEventView::ServiceEnded => if s.ended {
            (s, does(StreamActionView::Nothing))
        } else {
            (
                over(s),
                StreamStepView {
                    line: Some(plain_line("finished"@)),
                    action: StreamActionView::Abandon,
                },
            )
        },
    }
}

fn say(line: String) -> (r: StreamStep)
    ensures
        r@ == says(line@),
{
    StreamStep { line: Some(line), action: StreamAction::Nothing }
}

fn act(action: StreamAction) -> (r: StreamStep)
    ensures
        r@ == does(action@),
{
    StreamStep { line: None, action }
}

impl AsrStream {
    /// A connection on which nothing has happened yet.
    pub fn new() -> (r: Self)
        ensures
            r@ == (StreamView { active: false, ended: false, seq: 0 }),
    {
        AsrStream { active: false, ended: false, seq: 0 }
    }

    /// There is a session.
    pub fn is_active(&self) -> (r: bool)
        ensures
            r == self@.active,
    {
        self.active
    }

    /// Takes a command of the browser.
    pub fn handle_command(&mut self, command: ClientCommand) -> (r: StreamStep)
        requires
            old(self)@.seq < u64::MAX,
        ensures
            (final(self)@, r@) == command_step(old(self)@, command@),
    {
        match command {
            ClientCommand::Invalid(m) => say(
                error_line(concat("invalid json: ", m.as_str()).as_str()),
            ),
            ClientCommand::Start => {
                if self.active {
                    return say(error_line("会话已在进行中，先 stop 或 finish"));
                }
                self.seq = self.seq + 1;
                act(
                    StreamAction::Start(concat("asr-stream-", decimal_of(self.seq).as_str())),
                )
            },
            ClientCommand::Finish => {
                if self.active {
                    act(StreamAction::Finish)
                } else {
                    say(error_line("尚未 start，无法 finish"))
                }
            },
            ClientCommand::Stop => {
                if self.active {
                    self.active = false;
                    self.ended = true;
                    StreamStep {
                        line: Some(write_plain("stopped")),
                        action: StreamAction::Abandon,
                    }
                } else {
                    act(StreamAction::Nothing)
                }
            },
            ClientCommand::Unknown(kind) => {
                let name = match kind {
                    Some(k) => k,
                    None => "<missing>".to_string(),
                };
                say(error_line(concat("未知消息 type: ", name.as_str()).as_str()))
            },
        }
    }

    /// Takes a text message of the browser.
    pub fn handle_client_text(&mut self, text: &str) -> (r: StreamStep)
        requires
            old(self)@.seq < u64::MAX,
        ensures
            (final(self)@, r@) == command_step(old(self)@, command_spec(text@)),
    {
        self.handle_command(parse_client_text(text))
    }

    /// Takes what happens on the connection.
    pub fn step(&mut self, event: StreamEvent) -> (r: StreamStep)
        requires
            old(self)@.seq < u64::MAX,
        ensures
            (final(self)@, r@) == stream_step(old(self)@, event@),
    {
        match event {
            StreamEvent::Text(t) => self.handle_client_text(t.as_str()),
            StreamEvent::Audio(b) => {
                if self.active {
                    act(StreamAction::Send(b))
                } else {
                    say(error_line("尚未 start，音频帧被丢弃"))
                }
            },
            StreamEvent::Started => {
                self.active = true;
                self.ended = false;
                let name = concat("asr-stream-", decimal_of(self.seq).as_str());
                say(write_text("session_id", name.as_str(), "started"))
            },
            StreamEvent::StartFailed(m) => say(error_line(m.as_str())),
            StreamEvent::SendFailed(m) => say(error_line(m.as_str())),
            StreamEvent::Service(event) => {
                if self.ended {
                    return act(StreamAction::Nothing);
                }
                let finished = match event {
                    RealtimeEvent::Finished => true,
                    _ => false,
                };
                let line = realtime_event_line(&event);
                if finished {
                    self.end(line)
                } else {
                    say(line)
                }
            },
            StreamEvent::ServiceFailed(m) => {
                if self.ended {
                    return act(StreamAction::Nothing);
                }
                self.end(error_line(m.as_str()))
            },
            StreamEvent::ServiceEnded => {
                if self.ended {
                    return act(StreamAction::Nothing);
                }
                self.end(write_plain("finished"))
            },
        }
    }

    fn end(&mut self, line: String) -> (r: StreamStep)
        ensures
            final(self)@ == over(old(self)@),
            r@ == (StreamStepView { line: Some(line@), action: StreamActionView::Abandon }),
    {
        self.active = false;
        self.ended = true;
        StreamStep { line: Some(line), action: StreamAction::Abandon }
    }
}

/// While a session is going on, a start neither starts another nor disturbs it.
pub proof fn law_one_session_at_a_time(s: StreamView)
    requires
        s.active,
    ensures
        command_step(s, CommandView::Start).0 == s,
        !(command_step(s, CommandView::Start).1.action is Start),
{
}

/// A session that ends is told to the browser once: whatever the service says or fails with
/// afterwards, until the next session starts, is dropped.
pub proof fn law_end_is_told_once(s: StreamView, first: StreamEventView, e: StreamEventView)
    requires
        first is ServiceEnded || first is ServiceFailed || first == StreamEventView::Service(
            RealtimeView::Finished,
        ),
        !s.ended,
        e is ServiceEnded || e is ServiceFailed || e is Service,
    ensures
        ({
            let (t, step) = stream_step(s, first);
            &&& step.line is Some
            &&& !t.active
            &&& stream_step(t, e) == (t, does(StreamActionView::Nothing))
        }),
{
}

/// Audio reaches the service unchanged while there is a session, and is answered with a failure
/// while there is none.
pub proof fn law_audio_needs_a_session(s: StreamView, audio: Seq<u8>)
    ensures
        ({
            let (t, step) = stream_step(s, StreamEventView::Audio(audio));
            &&& t == s
            &&& s.active ==> step == does(StreamActionView::Send(audio))
            &&& !s.active ==> step.line is Some && step.action is Nothing
        }),
{
}

/// Sessions of a connection have different names.
pub proof fn law_session_names_differ(a: u64, b: u64)
    requires
        a != b,
    ensures
        session_name(a) != session_name(b),
{
    let head = "asr-stream-"@;
    if session_name(a) == session_name(b) {
        assert(decimal(a as nat) =~= session_name(a).skip(head.len() as int));
        assert(decimal(b as nat) =~= session_name(b).skip(head.len() as int));
        crate::text::lemma_decimal_is_injective(a as nat, b as nat);
    }
}

/// As long as a session is going on, every word that the service recognises is passed on to the
/// browser at once, and the session goes on until the service is finished.
pub proof fn law_words_are_passed_on(s: StreamView, e: RealtimeView)
    requires
        !s.ended,
    ensures
        ({
            let (t, step) = stream_step(s, StreamEventView::Service(e));
            &&& step.line == Some(event_line(e))
            &&& !(e is Finished) ==> t == s && step.action is Nothing
            &&& e is Finished ==> !t.active && t.ended && step.action is Abandon
        }),
{
}

/// A session is started, told of, fed, finished and stopped in turn: a start while there is none
/// asks for a new session under a new number; once it started the browser is told its name and
/// audio is accepted; the end of the audio is handed on; a stop gives it up and says so.
pub proof fn law_session_goes_its_way(s: StreamView)
    requires
        !s.active,
        s.seq < u64::MAX,
    ensures
        ({
            let (a, begin) = command_step(s, CommandView::Start);
            let (b, told) = stream_step(a, StreamEventView::Started);
            let (c, finish) = command_step(b, CommandView::Finish);
            let (d, stop) = command_step(b, CommandView::Stop);
            &&& begin.action == StreamActionView::Start(session_name((s.seq + 1) as u64))
            &&& begin.line is None
            &&& a.seq == s.seq + 1 && !a.active
            &&& told.line == Some(started_line(session_name((s.seq + 1) as u64)))
            &&& b.active && !b.ended
            &&& finish.action is Finish && finish.line is None && c == b
            &&& stop.action is Abandon && stop.line == Some(plain_line("stopped"@))
            &&& !d.active && d.ended
        }),
{
}

/// Where there is no session, its end cannot be asked for and a stop does nothing; a message that
/// means nothing is answered with a failure. None of it starts or ends anything.
pub proof fn law_idle_connection_stays_idle(s: StreamView, kind: Option<Seq<char>>, message: Seq<char>)
    requires
        !s.active,
    ensures
        command_step(s, CommandView::Finish).0 == s,
        command_step(s, CommandView::Finish).1.line is Some,
        command_step(s, CommandView::Finish).1.action is Nothing,
        command_step(s, CommandView::Stop) == (s, does(StreamActionView::Nothing)),
        command_step(s, CommandView::Unknown(kind)).0 == s,
        command_step(s, CommandView::Unknown(kind)).1.line is Some,
        command_step(s, CommandView::Unknown(kind)).1.action is Nothing,
        command_step(s, CommandView::Invalid(message)).0 == s,
        command_step(s, CommandView::Invalid(message)).1.line is Some,
        command_step(s, CommandView::Invalid(message)).1.action is Nothing,
{
}

/// Whatever the service or the connection to it fails with, the browser is told in the same words.
pub proof fn law_failures_are_told(s: StreamView, message: Seq<char>)
    ensures
        stream_step(s, StreamEventView::StartFailed(message)) == (s, says(failure_line(message))),
        stream_step(s, StreamEventView::SendFailed(message)) == (s, says(failure_line(message))),
        !s.ended ==> stream_step(s, StreamEventView::ServiceFailed(message)).1.line == Some(
            failure_line(message),
        ),
        !s.ended ==> stream_step(s, StreamEventView::ServiceFailed(message)).1.action is Abandon,
{
}

/// Each command has its name, and anything else is known by the name that it has.
pub proof fn law_commands_have_names(kind: Seq<char>)
    ensures
        command_of(Some("start"@)) is Start,
        command_of(Some("finish"@)) is Finish,
        command_of(Some("stop"@)) is Stop,
        kind != "start"@ && kind != "finish"@ && kind != "stop"@ ==> command_of(Some(kind))
            == CommandView::Unknown(Some(kind)),
        command_of(None) == CommandView::Unknown(None),
{
    reveal_strlit("start");
    reveal_strlit("finish");
    reveal_strlit("stop");
    assert("start"@.len() == 5 && "finish"@.len() == 6 && "stop"@.len() == 4);
}

} // verus!

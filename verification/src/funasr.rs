//! Client of a FunASR recognition server: its configuration, the first frame, and what the
//! server sends.

use vstd::prelude::*;

use crate::error::{ClientError, ErrorView};
use crate::handshake::{handshake_with_protocol, subprotocol_headers, ws_address, HandshakeRequest};
use crate::json::{
    array_text, bool_member, number_member, object_text, opt_raw_member, opt_text_member, rejection,
    rejection_text, text_member, write_array, Member, ObjectWriter,
};
use crate::record::{
    allows_any, default_bool, default_text, field_allows_any, field_default_bool,
    field_default_text, read_record, record_fields, str_views,
};
use crate::string_map::StringMap;
use crate::text::{concat, decimal, decimal_of, opt_view, same, views};

verus! {

/// How the server recognises.
#[derive(Debug, Clone, Copy, PartialEq, Eq, Structural)]
pub enum FunasrMode {
    /// A whole recording at once.
    Offline,
    /// As it is spoken.
    Online,
    /// As it is spoken, corrected at the end of each sentence.
    TwoPass,
}

impl FunasrMode {
    pub open spec fn name_spec(&self) -> Seq<char> {
        match *self {
            FunasrMode::Offline => "offline"@,
            FunasrMode::Online => "online"@,
            FunasrMode::TwoPass => "2pass"@,
        }
    }

    /// The name of the mode in the protocol.
    pub fn as_str(&self) -> (r: &'static str)
        ensures
            r@ == self.name_spec(),
    {
        match self {
            FunasrMode::Offline => "offline",
            FunasrMode::Online => "online",
            FunasrMode::TwoPass => "2pass",
        }
    }
}

/// How a session with the server is set up.
#[derive(Debug)]
pub struct FunasrConfig {
    pub endpoint: String,
    pub mode: FunasrMode,
    /// Name of the recording in the server's log.
    pub wav_name: String,
    pub wav_format: String,
    pub sample_rate: u32,
    pub channels: u16,
    /// Look-back, current and look-ahead in chunks of 60 ms; None leaves it to the server.
    pub chunk_size: Option<Vec<u32>>,
    /// Already JSON; sent as a string.
    pub hotwords: Option<String>,
    pub itn: bool,
    pub svs_lang: Option<String>,
    pub svs_itn: bool,
    pub extra_headers: StringMap,
    /// Time limit of a single send or receive, in seconds.
    pub timeout_secs: u64,
    /// Seconds between keep-alive pings; 0 sends none.
    pub keepalive_secs: u64,
}

impl FunasrConfig {
    pub open spec fn is_default(&self) -> bool {
        &&& self.endpoint@ == "ws://127.0.0.1:10095/"@
        &&& self.mode == FunasrMode::TwoPass
        &&& self.wav_name@ == "default"@
        &&& self.wav_format@ == "pcm"@
        &&& self.sample_rate == 16000
        &&& self.channels == 1
        &&& self.chunk_size is Some
        &&& self.chunk_size->0@ == seq![5u32, 10, 5]
        &&& self.hotwords is None
        &&& self.itn
        &&& self.svs_lang is None
        &&& self.svs_itn
        &&& self.extra_headers@ == Map::<Seq<char>, Seq<char>>::empty()
        &&& self.timeout_secs == 30
        &&& self.keepalive_secs == 20
    }
}

impl Default for FunasrConfig {
    fn default() -> (r: Self)
        ensures
            r.is_default(),
    {
        let chunk: Vec<u32> = vec![5, 10, 5];
        assert(chunk@ =~= seq![5u32, 10, 5]);
        FunasrConfig {
            endpoint: "ws://127.0.0.1:10095/".to_string(),
            mode: FunasrMode::TwoPass,
            wav_name: "default".to_string(),
            wav_format: "pcm".to_string(),
            sample_rate: 16000,
            channels: 1,
            chunk_size: Some(chunk),
            hotwords: None,
            itn: true,
            svs_lang: None,
            svs_itn: true,
            extra_headers: StringMap::new(),
            timeout_secs: 30,
            keepalive_secs: 20,
        }
    }
}

/// The numbers as a JSON array.
pub open spec fn numbers_json(v: Seq<u32>) -> Seq<char> {
    array_text(Seq::new(v.len(), |i: int| decimal(v[i] as nat)))
}

pub open spec fn chunk_json(c: Option<Vec<u32>>) -> Option<Seq<char>> {
    match c {
        Some(v) => Some(numbers_json(v@)),
        None => None,
    }
}

/// The members of the first frame; what is not configured is left out.
pub open spec fn first_frame_members(cfg: &FunasrConfig) -> Seq<Member> {
    number_member("audio_fs"@, cfg.sample_rate as nat) + opt_raw_member(
        "chunk_size"@,
        chunk_json(cfg.chunk_size),
    ) + opt_text_member("hotwords"@, opt_view(cfg.hotwords)) + bool_member("is_speaking"@, true)
        + bool_member("itn"@, cfg.itn) + text_member("mode"@, cfg.mode.name_spec()) + bool_member(
        "svs_itn"@,
        cfg.svs_itn,
    ) + opt_text_member("svs_lang"@, opt_view(cfg.svs_lang)) + text_member(
        "wav_format"@,
        cfg.wav_format@,
    ) + text_member("wav_name"@, cfg.wav_name@)
}

fn write_numbers(v: &Vec<u32>) -> (r: String)
    ensures
        r@ == numbers_json(v@),
{
    let ghost want = Seq::new(v@.len(), |i: int| decimal(v@[i] as nat));
    let mut parts: Vec<String> = Vec::new();
    for i in 0..v.len()
        invariant
            want == Seq::new(v@.len(), |i: int| decimal(v@[i] as nat)),
            views(parts@) =~= want.take(i as int),
    {
        let ghost before = parts@;
        parts.push(decimal_of(v[i] as u64));
        assert(views(parts@) =~= views(before).push(want[i as int]));
        assert(want.take(i + 1) =~= want.take(i as int).push(want[i as int]));
    }
    assert(views(parts@) =~= want);
    write_array(&parts)
}

/// The frame that opens a session.
pub fn build_first_frame(cfg: &FunasrConfig) -> (r: String)
    ensures
        r@ == object_text(first_frame_members(cfg)),
{
    let chunk: Option<String> = match &cfg.chunk_size {
        Some(v) => Some(write_numbers(v)),
        None => None,
    };
    let mut w = ObjectWriter::new();
    w.number("audio_fs", cfg.sample_rate as u64);
    w.opt_raw("chunk_size", &chunk);
    w.opt_text("hotwords", &cfg.hotwords);
    w.boolean("is_speaking", true);
    w.boolean("itn", cfg.itn);
    w.text("mode", cfg.mode.as_str());
    w.boolean("svs_itn", cfg.svs_itn);
    w.opt_text("svs_lang", &cfg.svs_lang);
    w.text("wav_format", cfg.wav_format.as_str());
    w.text("wav_name", cfg.wav_name.as_str());
    assert(w@ =~= first_frame_members(cfg));
    w.finish()
}

/// The frame that tells the server that no more audio follows.
pub fn finish_frame() -> (r: String)
    ensures
        r@ == object_text(bool_member("is_speaking"@, false)),
{
    let mut w = ObjectWriter::new();
    w.boolean("is_speaking", false);
    assert(w@ =~= bool_member("is_speaking"@, false));
    w.finish()
}

/// A client of the server.
pub struct FunasrClient {
    pub cfg: FunasrConfig,
}

impl FunasrClient {
    pub fn new(cfg: FunasrConfig) -> (r: Self)
        ensures
            r.cfg == cfg,
    {
        FunasrClient { cfg }
    }

    /// The handshake. The server only takes the `binary` subprotocol, so that is asked for
    /// unless the configured headers ask for another.
    pub fn build_handshake_request(&self) -> (r: Result<HandshakeRequest, ClientError>)
        ensures
            match ws_address(self.cfg.endpoint@) {
                Ok(scheme) => r matches Ok(h) && h.url@ == self.cfg.endpoint@ && h.scheme@ == scheme
                    && h.headers@ == subprotocol_headers(
                    "binary"@,
                    self.cfg.extra_headers.entries_spec(),
                ),
                Err(m) => r matches Err(e) && e@ == ErrorView::Http("invalid ws url: "@ + m),
            },
    {
        handshake_with_protocol(self.cfg.endpoint.as_str(), "binary", &self.cfg.extra_headers)
    }
}

/// A client as configured.
pub fn build_funasr_client(cfg: FunasrConfig) -> (r: FunasrClient)
    ensures
        r.cfg == cfg,
{
    FunasrClient::new(cfg)
}

/// The mode of a result.
#[derive(Debug, Clone, PartialEq, Eq)]
pub enum FunasrResponseMode {
    Online,
    TwoPassOnline,
    TwoPassOffline,
    Offline,
    /// One that is not known.
    Other(String),
}

/// The mode of a result.
pub ghost enum ModeView {
    Online,
    TwoPassOnline,
    TwoPassOffline,
    Offline,
    Other(Seq<char>),
}

impl View for FunasrResponseMode {
    type V = ModeView;

    open spec fn view(&self) -> ModeView {
        match *self {
            FunasrResponseMode::Online => ModeView::Online,
            FunasrResponseMode::TwoPassOnline => ModeView::TwoPassOnline,
            FunasrResponseMode::TwoPassOffline => ModeView::TwoPassOffline,
            FunasrResponseMode::Offline => ModeView::Offline,
            FunasrResponseMode::Other(s) => ModeView::Other(s@),
        }
    }
}

/// The text comes in pieces as it is spoken.
pub open spec fn cumulative(m: ModeView) -> bool {
    m is Online || m is TwoPassOnline
}

/// The text replaces the sentence before it.
pub open spec fn correction(m: ModeView) -> bool {
    m is TwoPassOffline
}

impl FunasrResponseMode {
    /// Whether the text comes in pieces as it is spoken.
    pub fn is_cumulative(&self) -> (r: bool)
        ensures
            r == cumulative(self@),
    {
        match self {
            FunasrResponseMode::Online => true,
            FunasrResponseMode::TwoPassOnline => true,
            _ => false,
        }
    }

    /// Whether the text replaces the sentence before it.
    pub fn is_correction(&self) -> (r: bool)
        ensures
            r == correction(self@),
    {
        match self {
            FunasrResponseMode::TwoPassOffline => true,
            _ => false,
        }
    }
}

/// No mode both adds to a sentence and replaces it.
pub proof fn law_modes_exclude_each_other(m: ModeView)
    ensures
        !(cumulative(m) && correction(m)),
{
}

/// A result.
#[derive(Debug)]
pub struct FunasrResponse {
    pub mode: FunasrResponseMode,
    pub text: String,
    pub is_final: bool,
}

/// A result.
pub ghost struct ResponseView {
    pub mode: ModeView,
    pub text: Seq<char>,
    pub is_final: bool,
}

impl View for FunasrResponse {
    type V = ResponseView;

    open spec fn view(&self) -> ResponseView {
        ResponseView { mode: self.mode@, text: self.text@, is_final: self.is_final }
    }
}

/// How the connection ended. For this server the end means that recognition is complete.
#[derive(Debug, Clone)]
pub struct FunasrClose {
    pub code: u16,
    pub reason: String,
}

impl FunasrClose {
    /// The regular end.
    pub fn normal() -> (r: Self)
        ensures
            r.code == 1000,
            r.reason@ == Seq::<char>::empty(),
    {
        FunasrClose { code: 1000, reason: String::new() }
    }

    /// An end without a closing frame.
    pub fn abnormal() -> (r: Self)
        ensures
            r.code == 1006,
            r.reason@ == "abnormal closure (no close frame)"@,
    {
        FunasrClose { code: 1006, reason: "abnormal closure (no close frame)".to_string() }
    }

    /// The end that a closing frame tells.
    pub fn from_frame(code: u16, reason: &str) -> (r: Self)
        ensures
            r.code == code,
            r.reason@ == reason@,
    {
        FunasrClose { code, reason: reason.to_string() }
    }
}

/// What a session brings.
#[derive(Debug)]
pub enum FunasrEvent {
    Message(FunasrResponse),
    Close(FunasrClose),
    Error(ClientError),
}

/// The mode that a name stands for.
pub open spec fn classify_spec(raw: Seq<char>) -> ModeView {
    if raw == "online"@ {
        ModeView::Online
    } else if raw == "2pass-online"@ {
        ModeView::TwoPassOnline
    } else if raw == "2pass-offline"@ {
        ModeView::TwoPassOffline
    } else if raw == "offline"@ {
        ModeView::Offline
    } else {
        ModeView::Other(raw)
    }
}

/// The mode that a name stands for.
pub fn classify_mode(raw: &str) -> (r: FunasrResponseMode)
    ensures
        r@ == classify_spec(raw@),
{
    if same(raw, "online") {
        FunasrResponseMode::Online
    } else if same(raw, "2pass-online") {
        FunasrResponseMode::TwoPassOnline
    } else if same(raw, "2pass-offline") {
        FunasrResponseMode::TwoPassOffline
    } else if same(raw, "offline") {
        FunasrResponseMode::Offline
    } else {
        FunasrResponseMode::Other(raw.to_string())
    }
}

/// What a frame of the server says: a result, nothing where it names no mode, or the message of
/// the error.
pub open spec fn server_event_spec(d: Seq<u8>) -> Result<Option<ResponseView>, Seq<char>> {
    match frame_of(d) {
        Some((mode, text, is_final)) => Ok(response_spec(mode, text, is_final)),
        None => Err("decode FunASR response: "@ + rejection(d)),
    }
}

/// The names of the fields of a frame, in their order.
pub open spec fn frame_names() -> Seq<Seq<char>> {
    seq!["mode"@, "text"@, "is_final"@, "wav_name"@, "timestamp"@, "stamp_sents"@]
}

/// Mode, text and flag of a frame; nothing where it has not the expected shape.
pub open spec fn frame_of(d: Seq<u8>) -> Option<(Seq<char>, Seq<char>, bool)> {
    match record_fields(d, frame_names(), 0) {
        Some(f) => match (default_text(f[0]), default_text(f[1]), default_bool(f[2])) {
            (Some(mode), Some(text), Some(is_final)) => if default_text(f[3]) is Some && allows_any(
                f[4],
            ) && allows_any(f[5]) {
                Some((mode, text, is_final))
            } else {
                None
            },
            _ => None,
        },
        None => None,
    }
}

/// The result that mode, text and flag make up; none without a mode.
pub open spec fn response_spec(mode: Seq<char>, text: Seq<char>, is_final: bool) -> Option<ResponseView> {
    if mode.len() == 0 {
        None
    } else {
        Some(ResponseView { mode: classify_spec(mode), text, is_final })
    }
}

pub open spec fn response_opt(r: Option<FunasrResponse>) -> Option<ResponseView> {
    match r {
        Some(r) => Some(r@),
        None => None,
    }
}

/// The result that mode, text and flag make up; none without a mode.
pub fn response_from(mode: &str, text: String, is_final: bool) -> (r: Option<FunasrResponse>)
    ensures
        response_opt(r) == response_spec(mode@, text@, is_final),
{
    if mode.is_empty() {
        return None;
    }
    Some(FunasrResponse { mode: classify_mode(mode), text, is_final })
}

/// Reads a frame of the server.
pub fn parse_server_event(bytes: &[u8]) -> (r: Result<Option<FunasrResponse>, ClientError>)
    ensures
        match server_event_spec(bytes@) {
            Ok(o) => r matches Ok(f) && response_opt(f) == o,
            Err(m) => r matches Err(e) && e@ == ErrorView::Decode(m),
        },
{
    let names: [&str; 6] = ["mode", "text", "is_final", "wav_name", "timestamp", "stamp_sents"];
    assert(str_views(names@) =~= frame_names());
    if let Some(f) = read_record(bytes, &names, 0) {
        if field_default_text(&f[3]).is_some() && field_allows_any(&f[4]) && field_allows_any(&f[5]) {
            if let (Some(mode), Some(text), Some(is_final)) = (
                field_default_text(&f[0]),
                field_default_text(&f[1]),
                field_default_bool(&f[2]),
            ) {
                return Ok(response_from(mode.as_str(), text, is_final));
            }
        }
    }
    Err(
        ClientError::Decode(
            concat("decode FunASR response: ", rejection_text(bytes).as_str()),
        ),
    )
}

/// What a read of the connection gives.
pub enum FrameRead {
    /// Nothing came in time.
    TimedOut,
    Text(String),
    /// A closing frame, with code and reason where it has them.
    Close(Option<(u16, String)>),
    /// A ping, a pong, a binary frame.
    Other,
    /// The read failed.
    Failed(String),
    /// There is nothing more to read.
    Ended,
}

/// What is made of a read: an event for the caller, or another read.
pub fn on_frame(frame: FrameRead) -> (r: Option<FunasrEvent>)
    ensures
        match frame {
            FrameRead::TimedOut => r matches Some(FunasrEvent::Error(e)) && e@ == ErrorView::Ws(
                "next_event 超时"@,
            ),
            FrameRead::Failed(m) => r matches Some(FunasrEvent::Error(e)) && e@ == ErrorView::Ws(
                "recv: "@ + m@,
            ),
            FrameRead::Ended => r matches Some(FunasrEvent::Close(c)) && c.code == 1006 && c.reason@
                == "abnormal closure (no close frame)"@,
            FrameRead::Close(Some(f)) => r matches Some(FunasrEvent::Close(c)) && c.code == f.0
                && c.reason@ == f.1@,
            FrameRead::Close(None) => r matches Some(FunasrEvent::Close(c)) && c.code == 1000
                && c.reason@ == Seq::<char>::empty(),
            FrameRead::Text(t) => match server_event_spec(vstd::utf8::encode_utf8(t@)) {
                Ok(Some(v)) => r matches Some(FunasrEvent::Message(m)) && m@ == v,
                _ => r is None,
            },
            FrameRead::Other => r is None,
        },
{
    match frame {
        FrameRead::TimedOut => Some(FunasrEvent::Error(ClientError::Ws("next_event 超时".to_string()))),
        FrameRead::Failed(m) => Some(
            FunasrEvent::Error(ClientError::Ws(concat("recv: ", m.as_str()))),
        ),
        FrameRead::Ended => Some(FunasrEvent::Close(FunasrClose::abnormal())),
        FrameRead::Close(Some((code, reason))) => Some(
            FunasrEvent::Close(FunasrClose::from_frame(code, reason.as_str())),
        ),
        FrameRead::Close(None) => Some(FunasrEvent::Close(FunasrClose::normal())),
        FrameRead::Text(t) => match parse_server_event(t.as_str().as_bytes()) {
            Ok(Some(m)) => Some(FunasrEvent::Message(m)),
            _ => None,
        },
        FrameRead::Other => None,
    }
}

/// Every mode has its own name; what a frame says of text and end is kept; and a frame without a
/// mode is no result.
pub proof fn law_modes_have_names(mode: Seq<char>, text: Seq<char>, is_final: bool)
    ensures
        classify_spec("online"@) is Online,
        classify_spec("2pass-online"@) is TwoPassOnline,
        classify_spec("2pass-offline"@) is TwoPassOffline,
        classify_spec("offline"@) is Offline,
        classify_spec(mode) is Other ==> classify_spec(mode) == ModeView::Other(mode),
        mode.len() == 0 ==> response_spec(mode, text, is_final) is None,
        mode.len() > 0 ==> (response_spec(mode, text, is_final) matches Some(r) && r.text == text
            && r.is_final == is_final && r.mode == classify_spec(mode)),
{
    reveal_strlit("online");
    reveal_strlit("2pass-online");
    reveal_strlit("2pass-offline");
    reveal_strlit("offline");
    assert("online"@.len() == 6 && "2pass-online"@.len() == 12 && "2pass-offline"@.len() == 13
        && "offline"@.len() == 7);
}

} // verus!

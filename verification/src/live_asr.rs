//! Live recognition: configuration, the state of a session, and what is passed on of what the
//! recogniser says.

use vstd::prelude::*;

use crate::audio::{append_bytes, copy_range};
use crate::config::env_var;
use crate::error::error_text;
use crate::funasr::{
    FunasrConfig, FunasrEvent, FunasrMode, FunasrResponse, FunasrResponseMode, ModeView,
    ResponseView,
};
use crate::payload::{PayloadView, VoicePayload};
use crate::string_map::StringMap;
use crate::text::{
    chars_of, concat, copy_non_empty, is_blank, lemma_trim_blank, lemma_trim_twice, matches_at,
    non_empty_spec, opt_str_view, opt_view, parse_spec, parse_uint, same, string_of, trim,
    trim_spec, white_space,
};

verus! {

/// Sample rate where the client tells none.
pub const FALLBACK_SAMPLE_RATE: u32 = 16000;

/// Channels where the client tells none.
pub const FALLBACK_CHANNELS: u16 = 1;

/// Audio that waited is sent on in pieces of 100 ms of 16 kHz 16-bit mono.
pub const CHUNK_BYTES: usize = 3200;

/// Configuration of live recognition; what is left out has a default.
#[derive(Debug)]
pub struct AsrLiveCfg {
    pub endpoint: Option<String>,
    /// `offline`, `online` or `2pass`.
    pub mode: Option<String>,
    pub wav_name: Option<String>,
    pub wav_format: Option<String>,
    /// Three numbers; anything else counts as left out.
    pub chunk_size: Option<Vec<u32>>,
    pub hotwords: Option<String>,
    pub itn: Option<bool>,
    pub svs_lang: Option<String>,
    pub svs_itn: Option<bool>,
    pub headers: StringMap,
    pub timeout_secs: Option<u64>,
    /// 0 sends no pings.
    pub keepalive_secs: Option<u64>,
    /// How long to wait for the last results.
    pub close_grace_secs: Option<u64>,
}

impl AsrLiveCfg {
    pub open spec fn is_default(&self) -> bool {
        &&& self.endpoint is None
        &&& self.mode is None
        &&& self.wav_name is None
        &&& self.wav_format is None
        &&& self.chunk_size is None
        &&& self.hotwords is None
        &&& self.itn is None
        &&& self.svs_lang is None
        &&& self.svs_itn is None
        &&& self.headers@ == Map::<Seq<char>, Seq<char>>::empty()
        &&& self.timeout_secs is None
        &&& self.keepalive_secs is None
        &&& self.close_grace_secs is None
    }
}

impl Default for AsrLiveCfg {
    fn default() -> (r: Self)
        ensures
            r.is_default(),
    {
        AsrLiveCfg {
            endpoint: None,
            mode: None,
            wav_name: None,
            wav_format: None,
            chunk_size: None,
            hotwords: None,
            itn: None,
            svs_lang: None,
            svs_itn: None,
            headers: StringMap::new(),
            timeout_secs: None,
            keepalive_secs: None,
            close_grace_secs: None,
        }
    }
}

pub open spec fn default_endpoint() -> Seq<char> {
    "ws://127.0.0.1:10095/"@
}

/// The configured address without white space around it; the local server where it is blank.
pub open spec fn endpoint_spec(endpoint: Option<Seq<char>>) -> Seq<char> {
    match endpoint {
        Some(e) => if trim_spec(e).len() == 0 {
            default_endpoint()
        } else {
            trim_spec(e)
        },
        None => default_endpoint(),
    }
}

/// The mode of a name; anything unknown means two passes.
pub open spec fn mode_spec(mode: Option<Seq<char>>) -> FunasrMode {
    match mode {
        Some(m) => if m == "offline"@ {
            FunasrMode::Offline
        } else if m == "online"@ {
            FunasrMode::Online
        } else {
            FunasrMode::TwoPass
        },
        None => FunasrMode::TwoPass,
    }
}

/// A text that is not empty, or a default.
pub open spec fn filled_or(o: Option<Seq<char>>, default: Seq<char>) -> Seq<char> {
    match non_empty_spec(o) {
        Some(s) => s,
        None => default,
    }
}

/// The chunk size where it has three numbers.
pub open spec fn chunk_spec(c: Option<Vec<u32>>) -> Option<Seq<u32>> {
    match c {
        Some(v) => if v@.len() == 3 {
            Some(v@)
        } else {
            None
        },
        None => None,
    }
}

/// The name of the recording: what the caller says, what is configured, or `default`.
pub open spec fn wav_name_spec(caller: Option<Seq<char>>, configured: Option<Seq<char>>) -> Seq<char> {
    if caller is Some && trim_spec(caller->0).len() > 0 {
        trim_spec(caller->0)
    } else {
        filled_or(configured, "default"@)
    }
}

pub open spec fn or_value<A>(o: Option<A>, default: A) -> A {
    match o {
        Some(v) => v,
        None => default,
    }
}

pub open spec fn vec_opt(c: Option<Vec<u32>>) -> Option<Seq<u32>> {
    match c {
        Some(v) => Some(v@),
        None => None,
    }
}

/// The session that a configuration and a client ask for.
pub open spec fn client_config_matches(
    c: FunasrConfig,
    cfg: AsrLiveCfg,
    wav_name: Option<Seq<char>>,
    sample_rate: u32,
    channels: u16,
) -> bool {
    &&& c.endpoint@ == endpoint_spec(opt_view(cfg.endpoint))
    &&& c.mode == mode_spec(opt_view(cfg.mode))
    &&& c.wav_name@ == wav_name_spec(wav_name, opt_view(cfg.wav_name))
    &&& c.wav_format@ == filled_or(opt_view(cfg.wav_format), "pcm"@)
    &&& c.sample_rate == (if sample_rate > 0 { sample_rate } else { FALLBACK_SAMPLE_RATE })
    &&& c.channels == (if channels > 0 { channels } else { FALLBACK_CHANNELS })
    &&& vec_opt(c.chunk_size) == Some(or_value(chunk_spec(cfg.chunk_size), seq![5u32, 10, 5]))
    &&& opt_view(c.hotwords) == non_empty_spec(opt_view(cfg.hotwords))
    &&& c.itn == or_value(cfg.itn, true)
    &&& opt_view(c.svs_lang) == non_empty_spec(opt_view(cfg.svs_lang))
    &&& c.svs_itn == or_value(cfg.svs_itn, true)
    &&& c.extra_headers@ == cfg.headers@
    &&& c.timeout_secs == or_value(cfg.timeout_secs, 30)
    &&& c.keepalive_secs == or_value(cfg.keepalive_secs, 20)
}

proof fn lemma_endpoint_not_blank(endpoint: Option<Seq<char>>)
    ensures
        trim_spec(endpoint_spec(endpoint)).len() > 0,
{
    reveal_strlit("ws://127.0.0.1:10095/");
    let d = default_endpoint();
    assert(!white_space(d[0]));
    lemma_trim_blank(d);
    match endpoint {
        Some(e) => {
            lemma_trim_twice(e);
        },
        None => {},
    }
}

impl AsrLiveCfg {
    /// The address of the recogniser.
    pub fn endpoint(&self) -> (r: String)
        ensures
            r@ == endpoint_spec(opt_view(self.endpoint)),
    {
        match &self.endpoint {
            Some(e) => {
                let t = trim(e.as_str());
                if t.as_str().is_empty() {
                    "ws://127.0.0.1:10095/".to_string()
                } else {
                    t
                }
            },
            None => "ws://127.0.0.1:10095/".to_string(),
        }
    }

    /// The mode of recognition.
    pub fn mode(&self) -> (r: FunasrMode)
        ensures
            r == mode_spec(opt_view(self.mode)),
    {
        match &self.mode {
            Some(m) => {
                if same(m.as_str(), "offline") {
                    FunasrMode::Offline
                } else if same(m.as_str(), "online") {
                    FunasrMode::Online
                } else {
                    FunasrMode::TwoPass
                }
            },
            None => FunasrMode::TwoPass,
        }
    }

    /// The format of the audio.
    pub fn wav_format(&self) -> (r: &str)
        ensures
            r@ == filled_or(opt_view(self.wav_format), "pcm"@),
    {
        match &self.wav_format {
            Some(f) => {
                if f.as_str().is_empty() {
                    "pcm"
                } else {
                    f.as_str()
                }
            },
            None => "pcm",
        }
    }

    pub fn itn(&self) -> (r: bool)
        ensures
            r == or_value(self.itn, true),
    {
        match self.itn {
            Some(b) => b,
            None => true,
        }
    }

    pub fn svs_itn(&self) -> (r: bool)
        ensures
            r == or_value(self.svs_itn, true),
    {
        match self.svs_itn {
            Some(b) => b,
            None => true,
        }
    }

    /// The chunk size, where it has three numbers.
    pub fn chunk_size(&self) -> (r: Option<Vec<u32>>)
        ensures
            vec_opt(r) == chunk_spec(self.chunk_size),
    {
        match &self.chunk_size {
            Some(v) => {
                if v.len() == 3 {
                    let c: Vec<u32> = vec![v[0], v[1], v[2]];
                    assert(c@ =~= v@);
                    Some(c)
                } else {
                    None
                }
            },
            None => None,
        }
    }

    /// The session with the recogniser for a client that records with this sample rate and so
    /// many channels; 0 means that it tells none.
    pub fn into_client_config(&self, wav_name: Option<&str>, sample_rate: u32, channels: u16) -> (r: Option<
        FunasrConfig,
    >)
        ensures
            r is Some,
            client_config_matches(r->0, *self, opt_str_view(wav_name), sample_rate, channels),
    {
        let endpoint = self.endpoint();
        proof {
            lemma_endpoint_not_blank(opt_view(self.endpoint));
        }
        if is_blank(endpoint.as_str()) {
            return None;
        }
        let configured = match copy_non_empty(&self.wav_name) {
            Some(n) => n,
            None => "default".to_string(),
        };
        let name = match wav_name {
            Some(n) => {
                let t = trim(n);
                if t.as_str().is_empty() {
                    configured
                } else {
                    t
                }
            },
            None => configured,
        };
        let chunk: Vec<u32> = match self.chunk_size() {
            Some(c) => c,
            None => {
                let c: Vec<u32> = vec![5, 10, 5];
                assert(c@ =~= seq![5u32, 10, 5]);
                c
            },
        };
        Some(
            FunasrConfig {
                endpoint,
                mode: self.mode(),
                wav_name: name,
                wav_format: self.wav_format().to_string(),
                sample_rate: if sample_rate > 0 { sample_rate } else { FALLBACK_SAMPLE_RATE },
                channels: if channels > 0 { channels } else { FALLBACK_CHANNELS },
                chunk_size: Some(chunk),
                hotwords: copy_non_empty(&self.hotwords),
                itn: self.itn(),
                svs_lang: copy_non_empty(&self.svs_lang),
                svs_itn: self.svs_itn(),
                extra_headers: self.headers.copy(),
                timeout_secs: match self.timeout_secs {
                    Some(t) => t,
                    None => 30,
                },
                keepalive_secs: match self.keepalive_secs {
                    Some(t) => t,
                    None => 20,
                },
            },
        )
    }

    /// How long to wait for the last results, in seconds.
    pub fn close_grace(&self) -> (r: u64)
        ensures
            r == or_value(self.close_grace_secs, 3),
    {
        match self.close_grace_secs {
            Some(s) => s,
            None => 3,
        }
    }
}

// ---- environment ----

/// The value of a variable that is not blank.
pub open spec fn filled_var(env: Map<Seq<char>, Seq<char>>, name: Seq<char>) -> Option<Seq<char>> {
    match env_var(env, name) {
        Some(v) => if trim_spec(v).len() == 0 {
            None
        } else {
            Some(v)
        },
        None => None,
    }
}

/// The value of a variable that is not blank.
pub fn take_var(env: &StringMap, name: &str) -> (r: Option<String>)
    ensures
        opt_view(r) == filled_var(env@, name@),
{
    match env.get(name) {
        Some(v) => {
            if is_blank(v.as_str()) {
                None
            } else {
                Some(v)
            }
        },
        None => None,
    }
}

pub open spec fn taken_text(
    env: Map<Seq<char>, Seq<char>>,
    name: Seq<char>,
    now: Option<Seq<char>>,
) -> Option<Seq<char>> {
    match filled_var(env, name) {
        Some(v) => Some(v),
        None => now,
    }
}

pub open spec fn taken_number(
    env: Map<Seq<char>, Seq<char>>,
    name: Seq<char>,
    now: Option<u64>,
) -> Option<u64> {
    match filled_var(env, name) {
        Some(v) => match parse_spec(trim_spec(v), u64::MAX as nat) {
            Some(n) => Some(n as u64),
            None => now,
        },
        None => now,
    }
}

/// Overrides an optional text with a variable that is not blank.
pub fn take_text(slot: &mut Option<String>, env: &StringMap, name: &str)
    ensures
        opt_view(*final(slot)) == taken_text(env@, name@, opt_view(*old(slot))),
{
    if let Some(v) = take_var(env, name) {
        *slot = Some(v);
    }
}

fn take_number(slot: &mut Option<u64>, env: &StringMap, name: &str)
    ensures
        *final(slot) == taken_number(env@, name@, *old(slot)),
{
    if let Some(v) = take_var(env, name) {
        if let Some(n) = parse_uint(trim(v.as_str()).as_str(), u64::MAX) {
            *slot = Some(n);
        }
    }
}

/// What the environment makes of a configuration.
pub open spec fn live_overridden(new: AsrLiveCfg, old: AsrLiveCfg, env: Map<Seq<char>, Seq<char>>) -> bool {
    &&& opt_view(new.endpoint) == taken_text(env, "VOICE_ASR_LIVE_ENDPOINT"@, opt_view(old.endpoint))
    &&& opt_view(new.mode) == taken_text(env, "VOICE_ASR_LIVE_MODE"@, opt_view(old.mode))
    &&& opt_view(new.wav_name) == taken_text(env, "VOICE_ASR_LIVE_WAV_NAME"@, opt_view(old.wav_name))
    &&& opt_view(new.wav_format) == taken_text(
        env,
        "VOICE_ASR_LIVE_WAV_FORMAT"@,
        opt_view(old.wav_format),
    )
    &&& opt_view(new.hotwords) == taken_text(env, "VOICE_ASR_LIVE_HOTWORDS"@, opt_view(old.hotwords))
    &&& opt_view(new.svs_lang) == taken_text(env, "VOICE_ASR_LIVE_SVS_LANG"@, opt_view(old.svs_lang))
    &&& new.timeout_secs == taken_number(env, "VOICE_ASR_LIVE_TIMEOUT_SECS"@, old.timeout_secs)
    &&& new.keepalive_secs == taken_number(env, "VOICE_ASR_LIVE_KEEPALIVE_SECS"@, old.keepalive_secs)
    &&& new.close_grace_secs == taken_number(
        env,
        "VOICE_ASR_LIVE_CLOSE_GRACE_SECS"@,
        old.close_grace_secs,
    )
    &&& new.chunk_size == old.chunk_size
    &&& new.itn == old.itn
    &&& new.svs_itn == old.svs_itn
    &&& new.headers == old.headers
}

/// The configuration of the file with what the environment says on top. A number that cannot be
/// read is ignored.
pub fn load_cfg(section: AsrLiveCfg, env: &StringMap) -> (r: AsrLiveCfg)
    ensures
        live_overridden(r, section, env@),
{
    let mut cfg = section;
    take_text(&mut cfg.endpoint, env, "VOICE_ASR_LIVE_ENDPOINT");
    take_text(&mut cfg.mode, env, "VOICE_ASR_LIVE_MODE");
    take_text(&mut cfg.wav_name, env, "VOICE_ASR_LIVE_WAV_NAME");
    take_text(&mut cfg.wav_format, env, "VOICE_ASR_LIVE_WAV_FORMAT");
    take_text(&mut cfg.hotwords, env, "VOICE_ASR_LIVE_HOTWORDS");
    take_text(&mut cfg.svs_lang, env, "VOICE_ASR_LIVE_SVS_LANG");
    take_number(&mut cfg.timeout_secs, env, "VOICE_ASR_LIVE_TIMEOUT_SECS");
    take_number(&mut cfg.keepalive_secs, env, "VOICE_ASR_LIVE_KEEPALIVE_SECS");
    take_number(&mut cfg.close_grace_secs, env, "VOICE_ASR_LIVE_CLOSE_GRACE_SECS");
    cfg
}

// ---- a session ----

/// `s` cut into pieces of `n`, the last of them maybe shorter.
pub open spec fn pieces(s: Seq<u8>, n: int) -> Seq<Seq<u8>>
    decreases s.len(),
{
    if s.len() == 0 || n <= 0 {
        Seq::empty()
    } else if s.len() <= n {
        seq![s]
    } else {
        seq![s.take(n)] + pieces(s.skip(n), n)
    }
}

/// The pieces joined.
pub open spec fn joined(parts: Seq<Seq<u8>>) -> Seq<u8>
    decreases parts.len(),
{
    if parts.len() == 0 {
        Seq::empty()
    } else {
        parts[0] + joined(parts.drop_first())
    }
}

pub open spec fn byte_views(v: Seq<Vec<u8>>) -> Seq<Seq<u8>> {
    Seq::new(v.len(), |i: int| v[i]@)
}

/// Cuts audio into pieces of `CHUNK_BYTES`.
fn cut(audio: &Vec<u8>) -> (r: Vec<Vec<u8>>)
    ensures
        byte_views(r@) == pieces(audio@, CHUNK_BYTES as int),
{
    let n: usize = audio.len();
    let mut out: Vec<Vec<u8>> = Vec::new();
    let mut at: usize = 0;
    assert(audio@.skip(0) =~= audio@);
    assert(byte_views(out@) + pieces(audio@, CHUNK_BYTES as int) =~= pieces(audio@, CHUNK_BYTES as int));
    while at < n
        invariant
            at <= n == audio@.len(),
            byte_views(out@) + pieces(audio@.skip(at as int), CHUNK_BYTES as int) == pieces(
                audio@,
                CHUNK_BYTES as int,
            ),
        decreases n - at,
    {
        let ghost rest = audio@.skip(at as int);
        let ghost before = byte_views(out@);
        let end: usize = if n - at <= CHUNK_BYTES { n } else { at + CHUNK_BYTES };
        out.push(copy_range(audio.as_slice(), at, end));
        proof {
            let piece = audio@.subrange(at as int, end as int);
            assert(byte_views(out@) =~= before.push(piece));
            if rest.len() <= CHUNK_BYTES {
                assert(piece =~= rest);
                assert(audio@.skip(end as int) =~= Seq::<u8>::empty());
                assert(before + seq![rest] =~= before.push(piece) + Seq::<Seq<u8>>::empty());
            } else {
                assert(piece =~= rest.take(CHUNK_BYTES as int));
                assert(rest.skip(CHUNK_BYTES as int) =~= audio@.skip(end as int));
                assert(before + (seq![piece] + pieces(audio@.skip(end as int), CHUNK_BYTES as int))
                    =~= before.push(piece) + pieces(audio@.skip(end as int), CHUNK_BYTES as int));
            }
        }
        at = end;
    }
    assert(audio@.skip(at as int) =~= Seq::<u8>::empty());
    assert(byte_views(out@) + Seq::<Seq<u8>>::empty() =~= byte_views(out@));
    out
}

/// Cutting loses nothing, and no piece is longer than asked.
pub proof fn law_pieces_make_up_the_audio(s: Seq<u8>, n: int)
    requires
        n > 0,
    ensures
        joined(pieces(s, n)) == s,
        forall|i: int| 0 <= i < pieces(s, n).len() ==> 0 < (#[trigger] pieces(s, n)[i]).len() <= n,
    decreases s.len(),
{
    if s.len() > n {
        law_pieces_make_up_the_audio(s.skip(n), n);
        let parts = pieces(s, n);
        assert(parts.drop_first() =~= pieces(s.skip(n), n));
        assert(s.take(n) + s.skip(n) =~= s);
        assert forall|i: int| 0 <= i < parts.len() implies 0 < (#[trigger] parts[i]).len() <= n by {
            if i > 0 {
                assert(parts[i] == pieces(s.skip(n), n)[i - 1]);
            }
        }
    } else if s.len() > 0 {
        assert(pieces(s, n).drop_first() =~= Seq::<Seq<u8>>::empty());
        assert(joined(Seq::<Seq<u8>>::empty()) =~= Seq::<u8>::empty());
        assert(s + Seq::<u8>::empty() =~= s);
    } else {
        assert(s =~= Seq::<u8>::empty());
    }
}

proof fn lemma_joined_push(parts: Seq<Seq<u8>>, last: Seq<u8>)
    ensures
        joined(parts.push(last)) == joined(parts) + last,
    decreases parts.len(),
{
    if parts.len() == 0 {
        assert(parts.push(last).drop_first() =~= Seq::<Seq<u8>>::empty());
        assert(joined(Seq::<Seq<u8>>::empty()) =~= Seq::<u8>::empty());
        assert(joined(parts.push(last)) =~= joined(parts) + last);
    } else {
        lemma_joined_push(parts.drop_first(), last);
        assert(parts.push(last).drop_first() =~= parts.drop_first().push(last));
        assert(joined(parts.push(last)) =~= joined(parts) + last);
    }
}

/// The state of a session.
pub ghost struct LiveView {
    /// The recogniser is connected.
    pub ready: bool,
    /// Audio that waits for the recogniser.
    pub pending: Seq<u8>,
    /// The client is done, but the recogniser is not connected yet.
    pub pending_last: bool,
    pub failed: bool,
    pub finished: bool,
}

/// A session of live recognition.
pub struct LiveAsrState {
    ready: bool,
    pending_audio: Vec<u8>,
    pending_is_last: bool,
    failed: bool,
    finished: bool,
}

impl View for LiveAsrState {
    type V = LiveView;

    closed spec fn view(&self) -> LiveView {
        LiveView {
            ready: self.ready,
            pending: self.pending_audio@,
            pending_last: self.pending_is_last,
            failed: self.failed,
            finished: self.finished,
        }
    }
}

/// What is done with audio of the client.
pub enum ChunkAction {
    /// Nothing: the session is over.
    Drop,
    /// Nothing yet: the audio waits.
    Buffer,
    /// Send these, in order; then report how that went.
    Send(Vec<Vec<u8>>),
}

pub ghost enum ChunkView {
    Drop,
    Buffer,
    Send(Seq<Seq<u8>>),
}

impl View for ChunkAction {
    type V = ChunkView;

    open spec fn view(&self) -> ChunkView {
        match *self {
            ChunkAction::Drop => ChunkView::Drop,
            ChunkAction::Buffer => ChunkView::Buffer,
            ChunkAction::Send(v) => ChunkView::Send(byte_views(v@)),
        }
    }
}

/// Audio of the client arrives.
pub open spec fn chunk_step(s: LiveView, data: Seq<u8>, is_last: bool) -> (LiveView, ChunkView) {
    if s.failed || s.finished {
        (s, ChunkView::Drop)
    } else if !s.ready {
        (
            LiveView {
                pending: s.pending + data,
                pending_last: s.pending_last || is_last,
                ..s
            },
            ChunkView::Buffer,
        )
    } else {
        (
            LiveView { pending: Seq::empty(), ..s },
            ChunkView::Send(pieces(s.pending, CHUNK_BYTES as int).push(data)),
        )
    }
}

/// What follows when audio was sent on.
#[derive(Debug, Clone, Copy, PartialEq, Eq, Structural)]
pub enum AfterSend {
    /// Wait for the next audio.
    Wait,
    /// Tell the recogniser that it was all, wait for the last results, close and forget the
    /// session.
    Finish,
    /// Report the error, then as for `Finish`.
    ReportAndFinish,
}

/// What is done when the client is done.
pub enum EndAction {
    /// Nothing: the session is over.
    Ignore,
    /// Nothing yet: the recogniser is not connected.
    Wait,
    /// Send these, then tell the recogniser that it was all, wait for the last results, close
    /// and forget the session.
    Finish(Vec<Vec<u8>>),
}

pub ghost enum EndView {
    Ignore,
    Wait,
    Finish(Seq<Seq<u8>>),
}

impl View for EndAction {
    type V = EndView;

    open spec fn view(&self) -> EndView {
        match *self {
            EndAction::Ignore => EndView::Ignore,
            EndAction::Wait => EndView::Wait,
            EndAction::Finish(v) => EndView::Finish(byte_views(v@)),
        }
    }
}

/// The client is done.
pub open spec fn end_step(s: LiveView) -> (LiveView, EndView) {
    if s.failed || s.finished {
        (s, EndView::Ignore)
    } else if !s.ready {
        (LiveView { pending_last: true, ..s }, EndView::Wait)
    } else {
        (
            LiveView { finished: true, ready: false, pending: Seq::empty(), ..s },
            EndView::Finish(pieces(s.pending, CHUNK_BYTES as int)),
        )
    }
}

/// What is done when the recogniser is connected.
pub enum SetupAction {
    /// Acknowledge and wait for audio.
    Ready,
    /// Acknowledge, send these, then as for the end of the session.
    Finish(Vec<Vec<u8>>),
}

pub ghost enum SetupView {
    Ready,
    Finish(Seq<Seq<u8>>),
}

impl View for SetupAction {
    type V = SetupView;

    open spec fn view(&self) -> SetupView {
        match *self {
            SetupAction::Ready => SetupView::Ready,
            SetupAction::Finish(v) => SetupView::Finish(byte_views(v@)),
        }
    }
}

/// The recogniser is connected. Where the client is not done yet, what it said meanwhile waits
/// for the next audio.
pub open spec fn connected_step(s: LiveView) -> (LiveView, SetupView) {
    if s.pending_last {
        (
            LiveView { finished: true, pending: Seq::empty(), ..s },
            SetupView::Finish(pieces(s.pending, CHUNK_BYTES as int)),
        )
    } else {
        (LiveView { ready: true, ..s }, SetupView::Ready)
    }
}

impl LiveAsrState {
    /// A session whose recogniser is being connected.
    pub fn pending() -> (r: Self)
        ensures
            r@ == (LiveView {
                ready: false,
                pending: Seq::empty(),
                pending_last: false,
                failed: false,
                finished: false,
            }),
    {
        LiveAsrState {
            ready: false,
            pending_audio: Vec::new(),
            pending_is_last: false,
            failed: false,
            finished: false,
        }
    }

    fn take_pending(&mut self) -> (r: Vec<Vec<u8>>)
        ensures
            byte_views(r@) == pieces(old(self)@.pending, CHUNK_BYTES as int),
            final(self)@ == (LiveView { pending: Seq::empty(), ..old(self)@ }),
    {
        let frames = cut(&self.pending_audio);
        self.pending_audio.clear();
        frames
    }

    /// Audio of the client arrives.
    pub fn on_audio_chunk(&mut self, data: Vec<u8>, is_last: bool) -> (r: ChunkAction)
        ensures
            (final(self)@, r@) == chunk_step(old(self)@, data@, is_last),
    {
        if self.failed || self.finished {
            return ChunkAction::Drop;
        }
        if !self.ready {
            append_bytes(&mut self.pending_audio, data.as_slice());
            if is_last {
                self.pending_is_last = true;
            }
            return ChunkAction::Buffer;
        }
        let mut frames = self.take_pending();
        let ghost before = byte_views(frames@);
        let ghost d = data@;
        frames.push(data);
        assert(byte_views(frames@) =~= before.push(d));
        ChunkAction::Send(frames)
    }

    /// The audio was sent on, or could not be.
    pub fn on_sent(&mut self, ok: bool, is_last: bool) -> (r: AfterSend)
        ensures
            !ok ==> r == AfterSend::ReportAndFinish && final(self)@ == old(self)@,
            ok && is_last ==> r == AfterSend::Finish && final(self)@ == (LiveView {
                finished: true,
                ..old(self)@
            }),
            ok && !is_last ==> r == AfterSend::Wait && final(self)@ == old(self)@,
    {
        if !ok {
            return AfterSend::ReportAndFinish;
        }
        if is_last {
            self.finished = true;
            AfterSend::Finish
        } else {
            AfterSend::Wait
        }
    }

    /// The client is done.
    pub fn on_session_end(&mut self) -> (r: EndAction)
        ensures
            (final(self)@, r@) == end_step(old(self)@),
    {
        if self.failed || self.finished {
            return EndAction::Ignore;
        }
        if !self.ready {
            self.pending_is_last = true;
            return EndAction::Wait;
        }
        self.finished = true;
        self.ready = false;
        EndAction::Finish(self.take_pending())
    }

    /// The recogniser is connected.
    pub fn on_connected(&mut self) -> (r: SetupAction)
        ensures
            (final(self)@, r@) == connected_step(old(self)@),
    {
        if self.pending_is_last {
            self.finished = true;
            SetupAction::Finish(self.take_pending())
        } else {
            self.ready = true;
            SetupAction::Ready
        }
    }

    /// The recogniser could not be connected.
    pub fn on_connect_failed(&mut self)
        ensures
            final(self)@ == (LiveView { failed: true, ..old(self)@ }),
    {
        self.failed = true;
    }
}

/// What a client does in a session.
pub ghost enum LiveInput {
    Chunk(Seq<u8>, bool),
    /// The recogniser is connected.
    Connected,
    End,
}

/// The state after an input, and the audio that goes to the recogniser.
pub open spec fn live_step(s: LiveView, i: LiveInput) -> (LiveView, Seq<u8>) {
    match i {
        LiveInput::Chunk(data, is_last) => {
            let (t, action) = chunk_step(s, data, is_last);
            match action {
                ChunkView::Send(frames) => (
                    if is_last {
                        LiveView { finished: true, ..t }
                    } else {
                        t
                    },
                    joined(frames),
                ),
                _ => (t, Seq::empty()),
            }
        },
        LiveInput::Connected => if s.ready || s.finished || s.failed {
            (s, Seq::empty())
        } else {
            let (t, action) = connected_step(s);
            match action {
                SetupView::Finish(frames) => (t, joined(frames)),
                SetupView::Ready => (t, Seq::empty()),
            }
        },
        LiveInput::End => {
            let (t, action) = end_step(s);
            match action {
                EndView::Finish(frames) => (t, joined(frames)),
                _ => (t, Seq::empty()),
            }
        },
    }
}

/// Audio that a session takes: what arrives before it is over.
pub open spec fn accepted(s: LiveView, i: LiveInput) -> Seq<u8> {
    match i {
        LiveInput::Chunk(data, _) => if s.failed || s.finished {
            Seq::empty()
        } else {
            data
        },
        _ => Seq::empty(),
    }
}

/// No audio is lost, added or reordered, whenever the recogniser is connected: at each step what
/// waited and what arrives is what goes on and what still waits.
pub proof fn law_audio_is_conserved(s: LiveView, i: LiveInput)
    ensures
        s.pending + accepted(s, i) == live_step(s, i).1 + live_step(s, i).0.pending,
{
    let n = CHUNK_BYTES as int;
    law_pieces_make_up_the_audio(s.pending, n);
    let (t, sent) = live_step(s, i);
    match i {
        LiveInput::Chunk(data, is_last) => {
            lemma_joined_push(pieces(s.pending, n), data);
            assert(s.pending + accepted(s, i) =~= sent + t.pending);
        },
        _ => {
            assert(s.pending + accepted(s, i) =~= sent + t.pending);
        },
    }
}

// ---- results ----

/// What the client is shown of a result.
pub ghost struct ShownView {
    pub text: Seq<char>,
    pub is_final: bool,
    pub replace_last: bool,
}

/// What the client is shown of a result.
#[derive(Debug)]
pub struct Shown {
    pub text: String,
    pub is_final: bool,
    pub replace_last: bool,
}

impl View for Shown {
    type V = ShownView;

    open spec fn view(&self) -> ShownView {
        ShownView { text: self.text@, is_final: self.is_final, replace_last: self.replace_last }
    }
}

/// The rest of a sentence behind what was shown of it; all of it where the two do not agree.
pub open spec fn unseen(shown: Seq<char>, sentence: Seq<char>) -> Seq<char> {
    if shown.is_prefix_of(sentence) {
        sentence.skip(shown.len() as int)
    } else {
        sentence
    }
}

/// What a result does: the text of the sentence that was shown so far, and what is shown now.
pub open spec fn show_spec(shown: Seq<char>, r: ResponseView) -> (Seq<char>, Option<ShownView>) {
    match r.mode {
        ModeView::TwoPassOffline => (
            Seq::empty(),
            Some(ShownView { text: r.text, is_final: true, replace_last: true }),
        ),
        ModeView::Offline => (
            Seq::empty(),
            Some(ShownView { text: r.text, is_final: true, replace_last: false }),
        ),
        ModeView::Other(_) => (
            shown,
            Some(ShownView { text: r.text, is_final: r.is_final, replace_last: false }),
        ),
        _ => if r.is_final {
            (
                Seq::empty(),
                Some(ShownView { text: unseen(shown, r.text), is_final: true, replace_last: false }),
            )
        } else {
            (
                shown + r.text,
                if r.text.len() == 0 {
                    None
                } else {
                    Some(ShownView { text: r.text, is_final: false, replace_last: false })
                },
            )
        },
    }
}

/// Turns results into what the client is shown.
pub struct ResultView {
    shown: String,
}

impl View for ResultView {
    type V = Seq<char>;

    closed spec fn view(&self) -> Seq<char> {
        self.shown@
    }
}

impl ResultView {
    pub fn new() -> (r: Self)
        ensures
            r@ == Seq::<char>::empty(),
    {
        ResultView { shown: String::new() }
    }

    /// What the client is shown of a result.
    pub fn show(&mut self, resp: FunasrResponse) -> (r: Option<Shown>)
        ensures
            ({
                let (shown, out) = show_spec(old(self)@, resp@);
                &&& final(self)@ == shown
                &&& match r {
                    Some(s) => out == Some(s@),
                    None => out is None,
                }
            }),
    {
        match resp.mode {
            FunasrResponseMode::TwoPassOffline => {
                self.shown = String::new();
                Some(Shown { text: resp.text, is_final: true, replace_last: true })
            },
            FunasrResponseMode::Offline => {
                self.shown = String::new();
                Some(Shown { text: resp.text, is_final: true, replace_last: false })
            },
            FunasrResponseMode::Other(_) => Some(
                Shown { text: resp.text, is_final: resp.is_final, replace_last: false },
            ),
            _ => {
                if resp.is_final {
                    let v = chars_of(resp.text.as_str());
                    let w = chars_of(self.shown.as_str());
                    let text = if matches_at(&v, &w, 0) {
                        assert(v@.skip(w@.len() as int) =~= v@.subrange(w@.len() as int, v@.len() as int));
                        string_of(&v, w.len(), v.len())
                    } else {
                        resp.text
                    };
                    self.shown = String::new();
                    Some(Shown { text, is_final: true, replace_last: false })
                } else {
                    self.shown.append(resp.text.as_str());
                    if resp.text.as_str().is_empty() {
                        None
                    } else {
                        Some(Shown { text: resp.text, is_final: false, replace_last: false })
                    }
                }
            },
        }
    }
}

/// Pieces of one sentence as they are spoken.
pub open spec fn spoken_pieces(texts: Seq<Seq<char>>, two_pass: bool) -> Seq<ResponseView> {
    Seq::new(
        texts.len(),
        |i: int|
            ResponseView {
                mode: if two_pass {
                    ModeView::TwoPassOnline
                } else {
                    ModeView::Online
                },
                text: texts[i],
                is_final: false,
            },
    )
}

/// The state after some results and everything that was shown of them, joined.
pub open spec fn show_all(shown: Seq<char>, rs: Seq<ResponseView>) -> (Seq<char>, Seq<char>)
    decreases rs.len(),
{
    if rs.len() == 0 {
        (shown, Seq::empty())
    } else {
        let (s, text) = show_all(shown, rs.drop_last());
        let (t, out) = show_spec(s, rs.last());
        (
            t,
            text + (match out {
                Some(o) => o.text,
                None => Seq::empty(),
            }),
        )
    }
}

/// The texts joined.
pub open spec fn join_texts(texts: Seq<Seq<char>>) -> Seq<char>
    decreases texts.len(),
{
    if texts.len() == 0 {
        Seq::empty()
    } else {
        join_texts(texts.drop_last()) + texts.last()
    }
}

proof fn lemma_show_pieces(texts: Seq<Seq<char>>, two_pass: bool)
    ensures
        show_all(Seq::empty(), spoken_pieces(texts, two_pass)) == (
            join_texts(texts),
            join_texts(texts),
        ),
    decreases texts.len(),
{
    let rs = spoken_pieces(texts, two_pass);
    if texts.len() > 0 {
        lemma_show_pieces(texts.drop_last(), two_pass);
        assert(rs.drop_last() =~= spoken_pieces(texts.drop_last(), two_pass));
        if texts.last().len() == 0 {
            assert(join_texts(texts.drop_last()) + texts.last() =~= join_texts(texts.drop_last())
                + Seq::<char>::empty());
        }
    }
}

/// A sentence that is shown piece by piece and then ends is shown exactly once and completely:
/// the pieces and what is added at its end are the sentence.
pub proof fn law_sentence_is_shown_once(texts: Seq<Seq<char>>, two_pass: bool, sentence: Seq<char>)
    requires
        join_texts(texts).is_prefix_of(sentence),
    ensures
        ({
            let end = ResponseView {
                mode: if two_pass {
                    ModeView::TwoPassOnline
                } else {
                    ModeView::Online
                },
                text: sentence,
                is_final: true,
            };
            let (s, text) = show_all(Seq::empty(), spoken_pieces(texts, two_pass).push(end));
            text == sentence && s.len() == 0
        }),
{
    lemma_show_pieces(texts, two_pass);
    let end = ResponseView {
        mode: if two_pass {
            ModeView::TwoPassOnline
        } else {
            ModeView::Online
        },
        text: sentence,
        is_final: true,
    };
    let rs = spoken_pieces(texts, two_pass).push(end);
    assert(rs.drop_last() =~= spoken_pieces(texts, two_pass));
    let p = join_texts(texts);
    assert(p + sentence.skip(p.len() as int) =~= sentence);
}

/// What the client has on its screen: the sentences that are complete, and the one that is being
/// spoken.
pub ghost struct Screen {
    pub sentences: Seq<Seq<char>>,
    pub line: Seq<char>,
}

/// What a message does to the screen. A replacement takes the place of the line, anything else is
/// put behind it, and a final one completes the sentence.
pub open spec fn seen(s: Screen, out: Option<ShownView>) -> Screen {
    match out {
        None => s,
        Some(o) => {
            let line = if o.replace_last {
                o.text
            } else {
                s.line + o.text
            };
            if o.is_final {
                Screen { sentences: s.sentences.push(line), line: Seq::empty() }
            } else {
                Screen { sentences: s.sentences, line }
            }
        },
    }
}

/// The state after some results, and what the client then has on its screen.
pub open spec fn seen_all(shown: Seq<char>, s: Screen, rs: Seq<ResponseView>) -> (
    Seq<char>,
    Screen,
)
    decreases rs.len(),
{
    if rs.len() == 0 {
        (shown, s)
    } else {
        let (before, screen) = seen_all(shown, s, rs.drop_last());
        let (after, out) = show_spec(before, rs.last());
        (after, seen(screen, out))
    }
}

/// The pieces of a sentence grow the line of the client, and complete nothing.
proof fn lemma_pieces_are_seen(s: Screen, texts: Seq<Seq<char>>, two_pass: bool)
    requires
        s.line.len() == 0,
    ensures
        seen_all(Seq::empty(), s, spoken_pieces(texts, two_pass)) == (
            join_texts(texts),
            Screen { sentences: s.sentences, line: join_texts(texts) },
        ),
    decreases texts.len(),
{
    let rs = spoken_pieces(texts, two_pass);
    if texts.len() == 0 {
        assert(s.line =~= Seq::<char>::empty());
    } else {
        lemma_pieces_are_seen(s, texts.drop_last(), two_pass);
        assert(rs.drop_last() =~= spoken_pieces(texts.drop_last(), two_pass));
        if texts.last().len() == 0 {
            assert(join_texts(texts.drop_last()) + texts.last() =~= join_texts(texts.drop_last()));
        }
    }
}

/// While a sentence is spoken the client reads what was recognised of it so far: the line is the
/// pieces joined, whatever their number, and no sentence is complete.
pub proof fn law_line_grows_with_the_pieces(s: Screen, texts: Seq<Seq<char>>, two_pass: bool)
    requires
        s.line.len() == 0,
    ensures
        seen_all(Seq::empty(), s, spoken_pieces(texts, two_pass)).1.line == join_texts(texts),
        seen_all(Seq::empty(), s, spoken_pieces(texts, two_pass)).1.sentences == s.sentences,
{
    lemma_pieces_are_seen(s, texts, two_pass);
}

/// With two passes a sentence stands on the screen once, as the second pass corrected it:
/// whatever pieces the first pass showed of it, the correction takes their place, and the next
/// sentence starts on an empty line.
pub proof fn law_correction_replaces_the_pieces(
    s: Screen,
    texts: Seq<Seq<char>>,
    correction: ResponseView,
)
    requires
        s.line.len() == 0,
        correction.mode is TwoPassOffline,
    ensures
        seen_all(Seq::empty(), s, spoken_pieces(texts, true).push(correction)) == (
            Seq::<char>::empty(),
            Screen { sentences: s.sentences.push(correction.text), line: Seq::empty() },
        ),
{
    lemma_pieces_are_seen(s, texts, true);
    let rs = spoken_pieces(texts, true).push(correction);
    assert(rs.drop_last() =~= spoken_pieces(texts, true));
}

/// A result replaces what the client shows exactly where the second pass corrects the first, and
/// such a result is always sent, with all of its text.
pub proof fn law_only_corrections_replace(shown: Seq<char>, r: ResponseView)
    ensures
        ({
            let (after, out) = show_spec(shown, r);
            &&& (out matches Some(o) && o.replace_last) <==> r.mode is TwoPassOffline
            &&& r.mode is TwoPassOffline || r.mode is Offline ==> (out matches Some(o) && o.is_final
                && o.text == r.text) && after.len() == 0
        }),
{
}

/// A sentence that is recognised as a whole is one sentence on the screen.
pub proof fn law_whole_sentence_is_shown(s: Screen, shown: Seq<char>, r: ResponseView)
    requires
        s.line.len() == 0,
        r.mode is Offline,
    ensures
        seen(s, show_spec(shown, r).1) == (Screen {
            sentences: s.sentences.push(r.text),
            line: Seq::empty(),
        }),
{
    assert(s.line + r.text =~= r.text);
}

/// A sentence that was shown piece by piece and ends with its whole text stands on the screen
/// once, and the next one starts on an empty line.
pub proof fn law_sentence_is_completed(
    s: Screen,
    texts: Seq<Seq<char>>,
    two_pass: bool,
    end: ResponseView,
)
    requires
        s.line.len() == 0,
        end.mode is Online || end.mode is TwoPassOnline,
        end.is_final,
        join_texts(texts).is_prefix_of(end.text),
    ensures
        seen_all(Seq::empty(), s, spoken_pieces(texts, two_pass).push(end)) == (
            Seq::<char>::empty(),
            Screen { sentences: s.sentences.push(end.text), line: Seq::empty() },
        ),
{
    lemma_pieces_are_seen(s, texts, two_pass);
    let rs = spoken_pieces(texts, two_pass).push(end);
    assert(rs.drop_last() =~= spoken_pieces(texts, two_pass));
    let p = join_texts(texts);
    assert(p + end.text.skip(p.len() as int) =~= end.text);
}

/// What the receiving side does with an event of the recogniser.
pub enum RecvAction {
    /// Wait for the next event.
    Wait,
    /// Send this to the client and wait.
    Send(VoicePayload),
    /// Send this to the client and stop.
    SendAndStop(VoicePayload),
    Stop,
}

/// The message with which the client is told of an error.
pub open spec fn error_payload_spec(session_id: Seq<char>, message: Seq<char>) -> PayloadView {
    PayloadView::AsrPartial {
        session_id,
        text: "[error] "@ + message,
        is_final: true,
        replace_last: false,
    }
}

/// The message with which the client is told of an error.
pub fn error_payload(session_id: &str, message: &str) -> (r: VoicePayload)
    ensures
        r@ == error_payload_spec(session_id@, message@),
{
    VoicePayload::AsrPartial {
        session_id: session_id.to_string(),
        text: concat("[error] ", message),
        is_final: true,
        replace_last: false,
    }
}

/// The message with which the client is told whether the recogniser is connected.
pub fn ack_payload(session_id: &str, success: bool, message: &str) -> (r: VoicePayload)
    ensures
        r@ == (PayloadView::SessionAck {
            session_id: session_id@,
            success,
            message: message@,
        }),
{
    VoicePayload::SessionAck {
        session_id: session_id.to_string(),
        success,
        message: message.to_string(),
    }
}

/// What is done with an event of the recogniser.
pub fn drive_recv(view: &mut ResultView, session_id: &str, event: FunasrEvent) -> (r: RecvAction)
    ensures
        match event {
            FunasrEvent::Message(m) => ({
                let (shown, out) = show_spec(old(view)@, m@);
                &&& final(view)@ == shown
                &&& match out {
                    Some(s) => r matches RecvAction::Send(p) && p@ == (PayloadView::AsrPartial {
                        session_id: session_id@,
                        text: s.text,
                        is_final: s.is_final,
                        replace_last: s.replace_last,
                    }),
                    None => r is Wait,
                }
            }),
            FunasrEvent::Close(_) => r is Stop && final(view)@ == old(view)@,
            FunasrEvent::Error(e) => (r matches RecvAction::SendAndStop(p) && p@
                == error_payload_spec(session_id@, error_text(e))) && final(view)@ == old(view)@,
        },
{
    match event {
        FunasrEvent::Message(m) => match view.show(m) {
            Some(s) => RecvAction::Send(
                VoicePayload::AsrPartial {
                    session_id: session_id.to_string(),
                    text: s.text,
                    is_final: s.is_final,
                    replace_last: s.replace_last,
                },
            ),
            None => RecvAction::Wait,
        },
        FunasrEvent::Close(_) => RecvAction::Stop,
        FunasrEvent::Error(e) => RecvAction::SendAndStop(
            error_payload(session_id, e.to_string().as_str()),
        ),
    }
}

/// A client starts a session: how the recogniser is set up, or what the client is told where the
/// session exists already. The recording is named after the session.
pub fn on_session_start(
    exists: bool,
    cfg: &AsrLiveCfg,
    session_id: &str,
    sample_rate: u32,
    channels: u16,
) -> (r: Result<FunasrConfig, &'static str>)
    ensures
        exists ==> (r matches Err(m) && m@ == "session already started"@),
        !exists ==> (r matches Ok(c) && client_config_matches(
            c,
            *cfg,
            Some(session_id@),
            sample_rate,
            channels,
        )),
{
    if exists {
        return Err("session already started");
    }
    match cfg.into_client_config(Some(session_id), sample_rate, channels) {
        Some(c) => Ok(c),
        None => Err("asr_live 配置模板 endpoint 为空"),
    }
}

/// What the client is told when its message needs a session and there is none.
pub fn without_session(command: &LiveCommand) -> (r: Option<&'static str>)
    ensures
        *command is Audio ==> (r matches Some(m) && m@ == "尚未 start，音频被丢弃"@),
        !(*command is Audio) ==> r is None,
{
    match command {
        LiveCommand::Audio { .. } => Some("尚未 start，音频被丢弃"),
        _ => None,
    }
}

/// What a message of the client means to live recognition.
pub enum LiveCommand {
    Start { sample_rate: u32, channels: u16 },
    Audio { data: Vec<u8>, is_last: bool },
    End,
    Ignore,
}

pub ghost enum LiveCommandView {
    Start { sample_rate: u32, channels: u16 },
    Audio { data: Seq<u8>, is_last: bool },
    End,
    Ignore,
}

impl View for LiveCommand {
    type V = LiveCommandView;

    open spec fn view(&self) -> LiveCommandView {
        match *self {
            LiveCommand::Start { sample_rate, channels } => LiveCommandView::Start {
                sample_rate,
                channels,
            },
            LiveCommand::Audio { data, is_last } => LiveCommandView::Audio { data: data@, is_last },
            LiveCommand::End => LiveCommandView::End,
            LiveCommand::Ignore => LiveCommandView::Ignore,
        }
    }
}

/// What a message of the client means.
pub open spec fn dispatch_spec(p: PayloadView) -> LiveCommandView {
    match p {
        PayloadView::SessionStart { sample_rate, channels, .. } => LiveCommandView::Start {
            sample_rate,
            channels: channels as u16,
        },
        PayloadView::AudioChunk { data, is_last, .. } => LiveCommandView::Audio { data, is_last },
        PayloadView::SessionEnd { .. } => LiveCommandView::End,
        PayloadView::Interrupt => LiveCommandView::End,
        _ => LiveCommandView::Ignore,
    }
}

/// What a client says reaches its session: the format of its audio, the audio itself, and that it
/// is done, for which an interruption stands as well; nothing else does.
pub proof fn law_client_is_understood(p: PayloadView)
    ensures
        p matches PayloadView::SessionStart { sample_rate, channels, .. } ==> (dispatch_spec(
            p,
        ) matches LiveCommandView::Start { sample_rate: r, channels: c } && r == sample_rate && c
            == channels),
        p matches PayloadView::AudioChunk { data, is_last, .. } ==> dispatch_spec(p) == (
        LiveCommandView::Audio { data, is_last }),
        dispatch_spec(p) is End <==> p is SessionEnd || p is Interrupt,
        dispatch_spec(p) is Audio <==> p is AudioChunk,
        dispatch_spec(p) is Start <==> p is SessionStart,
{
}

/// What a message of the client means. An interruption ends the session, since nothing is being
/// answered.
pub fn dispatch(payload: VoicePayload) -> (r: LiveCommand)
    ensures
        match payload {
            VoicePayload::SessionStart { sample_rate, channels, .. } => r == (LiveCommand::Start {
                sample_rate,
                channels: channels as u16,
            }),
            VoicePayload::AudioChunk { data, is_last, .. } => r matches LiveCommand::Audio {
                data: d,
                is_last: l,
            } && d@ == data@ && l == is_last,
            VoicePayload::SessionEnd { .. } => r is End,
            VoicePayload::Interrupt => r is End,
            _ => r is Ignore,
        },
        r@ == dispatch_spec(payload@),
{
    match payload {
        VoicePayload::SessionStart { sample_rate, channels, .. } => LiveCommand::Start {
            sample_rate,
            channels: channels as u16,
        },
        VoicePayload::AudioChunk { data, is_last, .. } => LiveCommand::Audio { data, is_last },
        VoicePayload::SessionEnd { .. } => LiveCommand::End,
        VoicePayload::Interrupt => LiveCommand::End,
        _ => LiveCommand::Ignore,
    }
}

/// The state after some inputs, the audio that was taken and the audio that went on.
pub open spec fn live_run(s: LiveView, inputs: Seq<LiveInput>) -> (LiveView, Seq<u8>, Seq<u8>)
    decreases inputs.len(),
{
    if inputs.len() == 0 {
        (s, Seq::empty(), Seq::empty())
    } else {
        let (t, taken, sent) = live_run(s, inputs.drop_last());
        let i = inputs.last();
        (live_step(t, i).0, taken + accepted(t, i), sent + live_step(t, i).1)
    }
}

/// The recogniser gets all that was said, in order, whenever it was connected: at the end of a
/// session the audio that went on is the audio that was taken, and until then what is missing
/// waits.
pub proof fn law_recogniser_hears_everything(s: LiveView, inputs: Seq<LiveInput>)
    requires
        s.pending.len() == 0,
    ensures
        ({
            let (t, taken, sent) = live_run(s, inputs);
            &&& taken == sent + t.pending
            &&& t.finished && !s.finished ==> taken == sent
        }),
    decreases inputs.len(),
{
    if inputs.len() == 0 {
        assert(Seq::<u8>::empty() + s.pending =~= Seq::<u8>::empty());
    } else {
        law_recogniser_hears_everything(s, inputs.drop_last());
        let (t, taken, sent) = live_run(s, inputs.drop_last());
        let i = inputs.last();
        law_audio_is_conserved(t, i);
        let (u, more) = live_step(t, i);
        let new = accepted(t, i);
        assert(taken + new =~= sent + (t.pending + new));
        assert(sent + (more + u.pending) =~= sent + more + u.pending);
        if u.finished && !s.finished {
            if t.finished {
                assert(new =~= Seq::<u8>::empty());
                assert(more =~= Seq::<u8>::empty());
                assert(taken + new =~= taken);
                assert(sent + more =~= sent);
            } else {
                assert(u.pending =~= Seq::<u8>::empty());
                assert(sent + more + u.pending =~= sent + more);
            }
        }
    }
}

/// A client that is done is done whether the recogniser was connected before or is connected after:
/// either way the session ends with all that was said.
pub proof fn law_end_and_connection_in_any_order(s: LiveView)
    requires
        !s.ready,
        !s.failed,
        !s.finished,
    ensures
        ({
            let (a, first) = live_step(s, LiveInput::End);
            let (b, second) = live_step(a, LiveInput::Connected);
            b.finished && b.pending.len() == 0 && first + second == s.pending
        }),
        !s.pending_last ==> ({
            let (a, first) = live_step(s, LiveInput::Connected);
            let (b, second) = live_step(a, LiveInput::End);
            b.finished && b.pending.len() == 0 && first + second == s.pending
        }),
{
    let n = CHUNK_BYTES as int;
    law_pieces_make_up_the_audio(s.pending, n);
    assert(Seq::<u8>::empty() + joined(pieces(s.pending, n)) =~= s.pending);
}

/// What the client asks for and what is configured is what the recogniser is asked for: the rate
/// and the channels of the client where it names them, the mode, and every text that says
/// something.
pub proof fn law_recogniser_is_set_up_as_asked(
    c: FunasrConfig,
    cfg: AsrLiveCfg,
    wav_name: Option<Seq<char>>,
    sample_rate: u32,
    channels: u16,
)
    requires
        client_config_matches(c, cfg, wav_name, sample_rate, channels),
    ensures
        sample_rate > 0 ==> c.sample_rate == sample_rate,
        channels > 0 ==> c.channels == channels,
        opt_view(cfg.mode) == Some("offline"@) ==> c.mode == FunasrMode::Offline,
        opt_view(cfg.mode) == Some("online"@) ==> c.mode == FunasrMode::Online,
        opt_view(cfg.mode) == Some("2pass"@) ==> c.mode == FunasrMode::TwoPass,
        wav_name matches Some(w) ==> trim_spec(w).len() > 0 ==> c.wav_name@ == trim_spec(w),
        cfg.endpoint matches Some(e) ==> trim_spec(e@).len() > 0 ==> c.endpoint@ == trim_spec(e@),
        cfg.itn matches Some(b) ==> c.itn == b,
        cfg.svs_itn matches Some(b) ==> c.svs_itn == b,
        cfg.timeout_secs matches Some(n) ==> c.timeout_secs == n,
        cfg.keepalive_secs matches Some(n) ==> c.keepalive_secs == n,
        c.extra_headers@ == cfg.headers@,
        cfg.chunk_size matches Some(v) ==> v@.len() == 3 ==> vec_opt(c.chunk_size) == Some(v@),
{
    reveal_strlit("offline");
    reveal_strlit("online");
    reveal_strlit("2pass");
    assert("offline"@.len() == 7 && "online"@.len() == 6 && "2pass"@.len() == 5);
}

/// The audio that waits is cut into pieces of one size, of which only the last may be shorter, and
/// none is empty.
pub proof fn law_pieces_have_one_size(s: Seq<u8>, n: int, i: int)
    requires
        n > 0,
        0 <= i < pieces(s, n).len(),
    ensures
        0 < pieces(s, n)[i].len() <= n,
        i < pieces(s, n).len() - 1 ==> pieces(s, n)[i].len() == n,
    decreases s.len(),
{
    if s.len() > n {
        let rest = s.skip(n);
        if i > 0 {
            law_pieces_have_one_size(rest, n, i - 1);
            assert(pieces(s, n)[i] == pieces(rest, n)[i - 1]);
        }
    }
}

/// A sentence that ends otherwise than it was shown is shown whole; and a result of a mode that is
/// not known is shown as it came, ended or not, and changes nothing of what was shown.
pub proof fn law_nothing_recognised_is_hidden(shown: Seq<char>, r: ResponseView)
    ensures
        (r.mode is Online || r.mode is TwoPassOnline) && r.is_final && !shown.is_prefix_of(r.text) ==> (
        show_spec(shown, r).1 matches Some(o) && o.text == r.text && o.is_final),
        r.mode is Other ==> (show_spec(shown, r).1 matches Some(o) && o.text == r.text && o.is_final
            == r.is_final && !o.replace_last) && show_spec(shown, r).0 == shown,
        (r.mode is Online || r.mode is TwoPassOnline) && !r.is_final && r.text.len() > 0 ==> (show_spec(
            shown,
            r,
        ).1 matches Some(o) && o.text == r.text && !o.is_final),
{
}

/// An error reaches the client as a message of its own: marked, ended, in the words of the error,
/// and in place of nothing.
pub proof fn law_errors_reach_the_client(id: Seq<char>, message: Seq<char>)
    ensures
        error_payload_spec(id, message) matches PayloadView::AsrPartial {
            session_id,
            text,
            is_final,
            replace_last,
        } && session_id == id && is_final && !replace_last && message.is_suffix_of(text)
            && "[error] "@.is_prefix_of(text),
{
    let text = "[error] "@ + message;
    assert(text.subrange(text.len() - message.len(), text.len() as int) =~= message);
    assert(text.subrange(0, "[error] "@.len() as int) =~= "[error] "@);
}

} // verus!

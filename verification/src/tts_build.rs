//! The speech client that a configuration asks for.

use vstd::prelude::*;

use crate::config::{own_or, provider_view, resolve_spec, websocket_base, ProviderConfig, TtsConfig};
use crate::string_map::sent_of;
use crate::text::{copy_opt, opt_view, same};
use crate::tts::{fallback_voice, pairs_view, push_pairs, some_text, HttpTtsClient};
use crate::tts_ws::TtsWsConfig;
use crate::voices::{check_sample_rate, rate_fits, rate_message};

verus! {

/// A speech client.
pub enum TtsTransport {
    Http(HttpTtsClient),
    WebSocket(TtsWsConfig),
}

/// The client over WebSocket that a configuration asks for.
pub open spec fn ws_matches(w: TtsWsConfig, cfg: TtsConfig, provider: Option<&ProviderConfig>) -> bool {
    let p = resolve_spec(
        cfg.api_base@,
        cfg.api_key@,
        cfg.timeout_ms,
        cfg.headers@,
        provider_view(provider),
    );
    &&& w.endpoint@ == cfg.endpoint_spec(p.api_base)
    &&& opt_view(w.api_key) == some_text(p.api_key)
    &&& opt_view(w.voice) == some_text(cfg.voice@)
    &&& opt_view(w.task_type) == opt_view(cfg.task_type)
    &&& opt_view(w.language) == opt_view(cfg.language)
    &&& opt_view(w.instructions) == opt_view(cfg.instructions)
    &&& w.response_format@ == own_or(cfg.response_format@, "pcm"@)
    &&& w.sample_rate == cfg.sample_rate
    &&& w.channels == cfg.channels
    &&& opt_view(w.speed) == opt_view(cfg.speed)
    &&& opt_view(w.ref_audio) == opt_view(cfg.ref_audio)
    &&& opt_view(w.ref_text) == opt_view(cfg.ref_text)
    &&& w.max_new_tokens == cfg.max_new_tokens
    &&& w.stream_audio == (opt_view(cfg.stream_format) == Some("audio"@))
    &&& pairs_view(w.extra_headers@) == pairs_view(cfg.headers.entries_spec())
    &&& w.timeout_ms == p.timeout_ms
    &&& w.max_connections == cfg.max_connections
}

/// The client over HTTP that a configuration asks for.
pub open spec fn http_matches(c: HttpTtsClient, cfg: TtsConfig, provider: Option<&ProviderConfig>) -> bool {
    let p = resolve_spec(
        cfg.api_base@,
        cfg.api_key@,
        cfg.timeout_ms,
        cfg.headers@,
        provider_view(provider),
    );
    &&& c.base_url@ == p.api_base
    &&& c.path@ == "/audio/speech"@
    &&& opt_view(c.api_key) == Some(p.api_key)
    &&& c.model@ == cfg.model@
    &&& c.voice_short@ == own_or(cfg.voice@, fallback_voice())
    &&& c.response_format@ == cfg.response_format@
    &&& c.stream == cfg.stream
    &&& c.sample_rate == cfg.sample_rate
    &&& c.channels == cfg.channels
    &&& opt_view(c.speed) == opt_view(cfg.speed)
    &&& opt_view(c.task_type) == opt_view(cfg.task_type)
    &&& opt_view(c.language) == opt_view(cfg.language)
    &&& opt_view(c.instructions) == opt_view(cfg.instructions)
    &&& c.max_new_tokens == cfg.max_new_tokens
    &&& c.initial_codec_chunk_frames == cfg.initial_codec_chunk_frames
    &&& c.non_streaming_mode == cfg.non_streaming_mode
    &&& opt_view(c.stream_format) == opt_view(cfg.stream_format)
    &&& opt_view(c.ref_audio) == opt_view(cfg.ref_audio)
    &&& opt_view(c.ref_text) == opt_view(cfg.ref_text)
    &&& c.x_vector_only_mode == cfg.x_vector_only_mode
    &&& sent_of(c.extra_headers@, p.headers)
    &&& c.timeout_ms == p.timeout_ms
}

/// The configured rate does not fit the configured format. Only HTTP is checked.
pub open spec fn rate_refused(cfg: TtsConfig) -> bool {
    cfg.transport_spec() != "websocket"@ && cfg.sample_rate is Some && !rate_fits(
        cfg.sample_rate->0,
        cfg.response_format@,
    )
}

fn some_if_any(s: &str) -> (r: Option<String>)
    ensures
        opt_view(r) == some_text(s@),
{
    if s.is_empty() {
        None
    } else {
        Some(s.to_string())
    }
}

/// The speech client that a configuration asks for. Over HTTP, a configured rate that the format
/// does not support is refused.
pub fn build_tts_client(cfg: &TtsConfig, provider: Option<&ProviderConfig>) -> (r: Result<
    TtsTransport,
    String,
>)
    ensures
        r is Err <==> rate_refused(*cfg),
        r is Err ==> r->Err_0@ == rate_message(cfg.sample_rate->0, cfg.response_format@),
        r is Ok ==> match r->Ok_0 {
            TtsTransport::WebSocket(w) => cfg.transport_spec() == "websocket"@ && ws_matches(
                w,
                *cfg,
                provider,
            ),
            TtsTransport::Http(c) => cfg.transport_spec() != "websocket"@ && http_matches(
                c,
                *cfg,
                provider,
            ),
        },
{
    let (resolved, path) = cfg.resolved(provider);
    let format = cfg.model_format();
    if same(cfg.transport_kind(), "websocket") {
        let stream_audio = match &cfg.stream_format {
            Some(f) => same(f.as_str(), "audio"),
            None => false,
        };
        let mut extra_headers: Vec<(String, String)> = Vec::new();
        let ghost none = pairs_view(extra_headers@);
        push_pairs(&mut extra_headers, cfg.headers.entries());
        assert(none + pairs_view(cfg.headers.entries_spec()) =~= pairs_view(
            cfg.headers.entries_spec(),
        ));
        return Ok(
            TtsTransport::WebSocket(
                TtsWsConfig {
                    endpoint: cfg.resolved_endpoint(provider),
                    api_key: some_if_any(resolved.api_key.as_str()),
                    voice: some_if_any(cfg.voice.as_str()),
                    task_type: copy_opt(&cfg.task_type),
                    language: copy_opt(&cfg.language),
                    instructions: copy_opt(&cfg.instructions),
                    response_format: if cfg.response_format.as_str().is_empty() {
                        "pcm".to_string()
                    } else {
                        cfg.response_format.clone()
                    },
                    sample_rate: format.sample_rate,
                    channels: format.channels,
                    speed: copy_opt(&cfg.speed),
                    ref_audio: copy_opt(&cfg.ref_audio),
                    ref_text: copy_opt(&cfg.ref_text),
                    max_new_tokens: cfg.max_new_tokens,
                    stream_audio,
                    extra_headers,
                    timeout_ms: resolved.timeout(),
                    max_connections: cfg.max_connections,
                },
            ),
        );
    }
    if let Some(rate) = format.sample_rate {
        match check_sample_rate(rate, cfg.response_format.as_str()) {
            Ok(()) => {},
            Err(m) => {
                return Err(m);
            },
        }
    }
    let extra_headers = resolved.to_header_map();
    let timeout_ms: u64 = resolved.timeout();
    Ok(
        TtsTransport::Http(
            HttpTtsClient::new(
                HttpTtsClient {
                    base_url: resolved.api_base,
                    path,
                    api_key: Some(resolved.api_key),
                    model: cfg.model.clone(),
                    voice_short: cfg.voice.clone(),
                    response_format: cfg.response_format.clone(),
                    stream: cfg.stream,
                    sample_rate: format.sample_rate,
                    channels: format.channels,
                    speed: copy_opt(&cfg.speed),
                    task_type: copy_opt(&cfg.task_type),
                    language: copy_opt(&cfg.language),
                    instructions: copy_opt(&cfg.instructions),
                    max_new_tokens: cfg.max_new_tokens,
                    initial_codec_chunk_frames: cfg.initial_codec_chunk_frames,
                    non_streaming_mode: cfg.non_streaming_mode,
                    stream_format: copy_opt(&cfg.stream_format),
                    ref_audio: copy_opt(&cfg.ref_audio),
                    ref_text: copy_opt(&cfg.ref_text),
                    x_vector_only_mode: cfg.x_vector_only_mode,
                    extra_headers,
                    timeout_ms,
                },
            ),
        ),
    )
}

impl TtsTransport {
    /// The name of the default voice.
    pub fn default_voice_short(&self) -> (r: &str)
        ensures
            r@ == (match *self {
                TtsTransport::Http(c) => c.voice_short@,
                TtsTransport::WebSocket(w) => match w.voice {
                    Some(v) => v@,
                    None => fallback_voice(),
                },
            }),
    {
        match self {
            TtsTransport::Http(c) => c.default_voice_short(),
            TtsTransport::WebSocket(w) => w.default_voice_short(),
        }
    }

    /// Sample rate and channels of the output as they are configured.
    pub fn output_format(&self) -> (r: (Option<u32>, u8))
        ensures
            r == (match *self {
                TtsTransport::Http(c) => (c.sample_rate, c.channels),
                TtsTransport::WebSocket(w) => (w.sample_rate, w.channels),
            }),
    {
        match self {
            TtsTransport::Http(c) => c.output_format(),
            TtsTransport::WebSocket(w) => w.output_format(),
        }
    }

    /// Whether text can be spoken piece by piece over one connection. Only WebSocket can.
    pub fn open_input_session(&self) -> (r: bool)
        ensures
            r == (*self is WebSocket),
    {
        match self {
            TtsTransport::Http(_) => false,
            TtsTransport::WebSocket(_) => true,
        }
    }
}

/// What is configured reaches the service: a request over HTTP asks for the configured model,
/// voice, format and rate, and for every option as it is configured; it goes to the configured
/// address with the configured key, which the provider stands in for where the section has none.
pub proof fn law_configuration_reaches_the_request(
    c: HttpTtsClient,
    cfg: TtsConfig,
    provider: Option<&ProviderConfig>,
    text: Seq<char>,
)
    requires
        http_matches(c, cfg, provider),
    ensures
        ({
            let r = c.request_spec(text, None, None);
            &&& r.input == Some(text)
            &&& cfg.model@.len() > 0 ==> r.model == Some(cfg.model@)
            &&& cfg.voice@.len() > 0 ==> r.voice == Some(cfg.voice@)
            &&& cfg.response_format@.len() > 0 ==> r.response_format == Some(cfg.response_format@)
            &&& r.sample_rate == cfg.sample_rate
            &&& cfg.speed is Some ==> r.speed == opt_view(cfg.speed)
            &&& cfg.task_type is Some ==> r.task_type == opt_view(cfg.task_type)
            &&& cfg.language is Some ==> r.language == opt_view(cfg.language)
            &&& cfg.instructions is Some ==> r.instructions == opt_view(cfg.instructions)
            &&& cfg.max_new_tokens is Some ==> r.max_new_tokens == cfg.max_new_tokens
            &&& r.initial_codec_chunk_frames == cfg.initial_codec_chunk_frames
            &&& r.non_streaming_mode == cfg.non_streaming_mode
            &&& r.stream_format == opt_view(cfg.stream_format)
            &&& r.ref_audio == opt_view(cfg.ref_audio)
            &&& r.ref_text == opt_view(cfg.ref_text)
            &&& r.x_vector_only_mode == cfg.x_vector_only_mode
            &&& cfg.stream ==> r.stream == Some(true)
        }),
        cfg.api_base@.len() > 0 ==> c.base_url@ == cfg.api_base@,
        cfg.api_base@.len() == 0 ==> c.base_url@ == provider_view(provider).api_base,
        cfg.api_key@.len() > 0 ==> opt_view(c.api_key) == Some(cfg.api_key@),
        cfg.api_key@.len() == 0 ==> opt_view(c.api_key) == Some(provider_view(provider).api_key),
        cfg.timeout_ms matches Some(t) ==> c.timeout_ms == t,
        cfg.timeout_ms is None ==> c.timeout_ms == provider_view(provider).timeout_ms,
{
}

/// The same over a socket: the address is that of the service over a socket, and every setting of a
/// session is the configured one.
pub proof fn law_configuration_reaches_the_session(
    w: TtsWsConfig,
    cfg: TtsConfig,
    provider: Option<&ProviderConfig>,
)
    requires
        ws_matches(w, cfg, provider),
        cfg.transport@ == "websocket"@,
    ensures
        cfg.api_base@.len() > 0 ==> w.endpoint@ == websocket_base(cfg.api_base@)
            + "/audio/speech/stream"@,
        cfg.api_key@.len() > 0 ==> opt_view(w.api_key) == Some(cfg.api_key@),
        cfg.voice@.len() > 0 ==> opt_view(w.voice) == Some(cfg.voice@),
        cfg.response_format@.len() > 0 ==> w.response_format@ == cfg.response_format@,
        opt_view(w.task_type) == opt_view(cfg.task_type),
        opt_view(w.language) == opt_view(cfg.language),
        opt_view(w.instructions) == opt_view(cfg.instructions),
        opt_view(w.speed) == opt_view(cfg.speed),
        opt_view(w.ref_audio) == opt_view(cfg.ref_audio),
        opt_view(w.ref_text) == opt_view(cfg.ref_text),
        w.max_new_tokens == cfg.max_new_tokens,
        w.sample_rate == cfg.sample_rate,
        w.max_connections == cfg.max_connections,
        cfg.timeout_ms matches Some(t) ==> w.timeout_ms == t,
        cfg.stream_format is None ==> !w.stream_audio,
{
}

/// A rate that the format does not support is refused over HTTP and only there.
pub proof fn law_unsupported_rate_is_refused(cfg: TtsConfig)
    ensures
        cfg.transport@ == "websocket"@ ==> !rate_refused(cfg),
        cfg.sample_rate is None ==> !rate_refused(cfg),
        cfg.transport@ != "websocket"@ && (cfg.sample_rate matches Some(r) && cfg.response_format@.len()
            > 0 && crate::voices::rates_spec(cfg.response_format@).len() > 0
            && !crate::voices::rates_spec(cfg.response_format@).contains(r)) ==> rate_refused(cfg),
{
    reveal_strlit("websocket");
    reveal_strlit("http");
    assert("websocket"@.len() != "http"@.len());
}

} // verus!

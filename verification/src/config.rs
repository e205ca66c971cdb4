//! Configuration: the sections of the file, what a section takes over from the provider, and
//! what environment variables override.

use vstd::prelude::*;

use crate::json::{json_node, json_texts, read_texts, Document, JsonNode, NodeView};
use crate::string_map::{sendable, sent_of, StringMap};
use crate::text::{
    concat, concat3, lower_spec, opt_view, parse_spec, parse_uint, same, starts_with, strip_prefix,
    to_ascii_lowercase, trim, trim_spec,
};

verus! {

/// Prefix of every key in Redis.
pub const REDIS_KEY_PREFIX: &'static str = "voice:";

/// Namespace of the conversation memory behind the prefix.
pub const MEMORY_NAMESPACE: &'static str = "memory:";

pub const DEFAULT_TIMEOUT_MS: u64 = 30000;

pub const DEFAULT_PORT: u16 = 8080;

pub const DEFAULT_WORKERS: usize = 3;

pub const DEFAULT_MEMORY_WINDOW: usize = 20;

pub const DEFAULT_REDIS_TTL_SECS: u64 = 3600;

pub const DEFAULT_TTS_CONNECTIONS: usize = 4;

/// Path of the speech endpoint behind the base address.
pub open spec fn speech_path() -> Seq<char> {
    "/audio/speech"@
}

/// Where the log goes and how much of it.
#[derive(Debug, Clone)]
pub struct LogConfig {
    pub level: String,
    pub file: String,
    pub format: String,
}

/// Port and number of workers.
#[derive(Debug, Clone)]
pub struct ServerConfig {
    pub port: u16,
    pub worker_num: usize,
}

/// Redis connection, shared by everything that needs it.
#[derive(Debug, Clone)]
pub struct RedisConfig {
    /// None where Redis is not used.
    pub url: Option<String>,
    pub default_ttl_secs: u64,
}

/// Conversation memory.
#[derive(Debug, Clone)]
pub struct AgentConfig {
    /// `in_memory` or `redis`.
    pub memory_backend: String,
    /// How many messages are kept.
    pub memory_window: usize,
    /// None takes over `redis.default_ttl_secs`.
    pub memory_ttl_secs: Option<u64>,
}

/// Connection to a service.
#[derive(Debug, Clone)]
pub struct ProviderConfig {
    pub api_base: String,
    /// A bare token or `Bearer <token>`.
    pub api_key: String,
    pub timeout_ms: u64,
    pub headers: StringMap,
}

/// Speech recognition.
#[derive(Debug, Clone)]
pub struct AsrConfig {
    pub api_base: String,
    pub api_key: String,
    pub timeout_ms: Option<u64>,
    pub headers: StringMap,
    pub model: String,
    pub language: Option<String>,
    pub response_format: Option<String>,
    pub spk: Option<bool>,
    pub tags: Option<bool>,
}

/// Language model.
#[derive(Debug, Clone)]
pub struct LlmConfig {
    pub api_base: String,
    pub api_key: String,
    pub timeout_ms: Option<u64>,
    pub headers: StringMap,
    pub model: String,
    pub max_completion_tokens: Option<u32>,
    /// Written as a JSON number.
    pub temperature: Option<String>,
    /// Written as a JSON number.
    pub top_p: Option<String>,
    pub reasoning_effort: Option<String>,
    pub include_usage: bool,
}

/// Speech synthesis.
#[derive(Debug, Clone)]
pub struct TtsConfig {
    pub api_base: String,
    pub api_key: String,
    pub timeout_ms: Option<u64>,
    pub headers: StringMap,
    pub model: String,
    /// Name of the default voice.
    pub voice: String,
    /// `mp3`, `wav`, `pcm`, `opus`, ...
    pub response_format: String,
    pub stream: bool,
    /// Output sample rate in Hz; None leaves it to the service.
    pub sample_rate: Option<u32>,
    pub channels: u8,
    /// `http` or `websocket`.
    pub transport: String,
    /// Written as a JSON number.
    pub speed: Option<String>,
    pub task_type: Option<String>,
    pub language: Option<String>,
    pub instructions: Option<String>,
    pub max_new_tokens: Option<u32>,
    pub initial_codec_chunk_frames: Option<u32>,
    pub non_streaming_mode: Option<bool>,
    pub stream_format: Option<String>,
    pub ref_audio: Option<String>,
    pub ref_text: Option<String>,
    pub x_vector_only_mode: Option<bool>,
    pub max_connections: usize,
}

/// Sample rate and channels of synthesised speech.
#[derive(Debug, Clone, Copy, PartialEq, Eq, Structural)]
pub struct ModelFormat {
    pub sample_rate: Option<u32>,
    pub channels: u8,
}

/// The whole configuration.
#[derive(Debug, Clone)]
pub struct VoiceConfig {
    pub log: LogConfig,
    pub server: ServerConfig,
    /// What the sections below take over where they say nothing.
    pub provider: Option<ProviderConfig>,
    pub asr: AsrConfig,
    pub llm: LlmConfig,
    pub tts: TtsConfig,
    pub redis: RedisConfig,
    pub agent: AgentConfig,
}

/// What a connection is made with.
pub ghost struct ProviderView {
    pub api_base: Seq<char>,
    pub api_key: Seq<char>,
    pub timeout_ms: u64,
    pub headers: Map<Seq<char>, Seq<char>>,
}

impl View for ProviderConfig {
    type V = ProviderView;

    open spec fn view(&self) -> ProviderView {
        ProviderView {
            api_base: self.api_base@,
            api_key: self.api_key@,
            timeout_ms: self.timeout_ms,
            headers: self.headers@,
        }
    }
}

/// The provider where none is configured.
pub open spec fn no_provider() -> ProviderView {
    ProviderView {
        api_base: Seq::empty(),
        api_key: Seq::empty(),
        timeout_ms: DEFAULT_TIMEOUT_MS,
        headers: Map::empty(),
    }
}

pub open spec fn provider_view(p: Option<&ProviderConfig>) -> ProviderView {
    match p {
        Some(p) => p@,
        None => no_provider(),
    }
}

/// `own` where it says something, `other` where it is empty.
pub open spec fn own_or(own: Seq<char>, other: Seq<char>) -> Seq<char> {
    if own.len() == 0 {
        other
    } else {
        own
    }
}

/// What a section that says `base`, `key`, `timeout` and `headers` is connected with: whatever
/// it leaves out comes from the provider, and its headers come on top of the provider's.
pub open spec fn resolve_spec(
    base: Seq<char>,
    key: Seq<char>,
    timeout: Option<u64>,
    headers: Map<Seq<char>, Seq<char>>,
    p: ProviderView,
) -> ProviderView {
    ProviderView {
        api_base: own_or(base, p.api_base),
        api_key: own_or(key, p.api_key),
        timeout_ms: match timeout {
            Some(t) => t,
            None => p.timeout_ms,
        },
        headers: p.headers.union_prefer_right(headers),
    }
}

/// The token in a key that may be written as `Bearer <token>`.
pub open spec fn bare_token(key: Seq<char>) -> Seq<char> {
    if "Bearer "@.is_prefix_of(key) {
        key.skip("Bearer "@.len() as int)
    } else if "bearer "@.is_prefix_of(key) {
        key.skip("bearer "@.len() as int)
    } else {
        key
    }
}

/// The value of an `Authorization` header for a key.
pub open spec fn authorization_spec(key: Seq<char>) -> Seq<char> {
    if "Bearer "@.is_prefix_of(key) || "bearer "@.is_prefix_of(key) {
        key
    } else {
        "Bearer "@ + key
    }
}

/// The token in a key that may be written as `Bearer <token>`.
pub fn strip_bearer(key: &str) -> (r: String)
    ensures
        r@ == bare_token(key@),
{
    match strip_prefix(key, "Bearer ") {
        Some(t) => t,
        None => match strip_prefix(key, "bearer ") {
            Some(t) => t,
            None => key.to_string(),
        },
    }
}

/// The value of an `Authorization` header for a key.
pub fn authorization(key: &str) -> (r: String)
    ensures
        r@ == authorization_spec(key@),
{
    if starts_with(key, "Bearer ") || starts_with(key, "bearer ") {
        key.to_string()
    } else {
        concat("Bearer ", key)
    }
}

fn pick(own: &str, other: &str) -> (r: String)
    ensures
        r@ == own_or(own@, other@),
{
    if own.is_empty() {
        other.to_string()
    } else {
        own.to_string()
    }
}

/// Combines what a section says with the provider.
fn resolve(
    base: &str,
    key: &str,
    timeout: Option<u64>,
    headers: &StringMap,
    provider: Option<&ProviderConfig>,
) -> (r: ProviderConfig)
    ensures
        r@ == resolve_spec(base@, key@, timeout, headers@, provider_view(provider)),
{
    let none = ProviderConfig::default();
    let p: &ProviderConfig = match provider {
        Some(p) => p,
        None => &none,
    };
    ProviderConfig {
        api_base: pick(base, p.api_base.as_str()),
        api_key: pick(key, p.api_key.as_str()),
        timeout_ms: match timeout {
            Some(t) => t,
            None => p.timeout_ms,
        },
        headers: p.headers.merged(headers),
    }
}

impl LogConfig {
    /// The section where the file says nothing.
    pub open spec fn is_default(&self) -> bool {
        &&& self.level@ == "info"@
        &&& self.file@ == Seq::<char>::empty()
        &&& self.format@ == Seq::<char>::empty()
    }
}

impl Default for LogConfig {
    fn default() -> (r: Self)
        ensures
            r.is_default(),
    {
        LogConfig { level: "info".to_string(), file: String::new(), format: String::new() }
    }
}

impl ServerConfig {
    /// The section where the file says nothing.
    pub open spec fn is_default(&self) -> bool {
        &&& self.port == DEFAULT_PORT
        &&& self.worker_num == DEFAULT_WORKERS
    }
}

impl Default for ServerConfig {
    fn default() -> (r: Self)
        ensures
            r.is_default(),
    {
        ServerConfig { port: DEFAULT_PORT, worker_num: DEFAULT_WORKERS }
    }
}

impl RedisConfig {
    /// The section where the file says nothing.
    pub open spec fn is_default(&self) -> bool {
        &&& self.url is None
        &&& self.default_ttl_secs == DEFAULT_REDIS_TTL_SECS
    }
}

impl Default for RedisConfig {
    fn default() -> (r: Self)
        ensures
            r.is_default(),
    {
        RedisConfig { url: None, default_ttl_secs: DEFAULT_REDIS_TTL_SECS }
    }
}

impl AgentConfig {
    /// The section where the file says nothing.
    pub open spec fn is_default(&self) -> bool {
        &&& self.memory_backend@ == "in_memory"@
        &&& self.memory_window == DEFAULT_MEMORY_WINDOW
        &&& self.memory_ttl_secs is None
    }
}

impl Default for AgentConfig {
    fn default() -> (r: Self)
        ensures
            r.is_default(),
    {
        AgentConfig {
            memory_backend: "in_memory".to_string(),
            memory_window: DEFAULT_MEMORY_WINDOW,
            memory_ttl_secs: None,
        }
    }
}

impl Default for ProviderConfig {
    fn default() -> (r: Self)
        ensures
            r@ == no_provider(),
    {
        ProviderConfig {
            api_base: String::new(),
            api_key: String::new(),
            timeout_ms: DEFAULT_TIMEOUT_MS,
            headers: StringMap::new(),
        }
    }
}

impl AsrConfig {
    /// The section where the file says nothing.
    pub open spec fn is_default(&self) -> bool {
        &&& self.api_base@ == Seq::<char>::empty()
        &&& self.api_key@ == Seq::<char>::empty()
        &&& self.timeout_ms is None
        &&& self.headers@ == Map::<Seq<char>, Seq<char>>::empty()
        &&& self.model@ == "sensevoice"@
        &&& self.language is None
        &&& self.response_format is None
        &&& self.spk is None
        &&& self.tags is None
    }
}

impl Default for AsrConfig {
    fn default() -> (r: Self)
        ensures
            r.is_default(),
    {
        AsrConfig {
            api_base: String::new(),
            api_key: String::new(),
            timeout_ms: None,
            headers: StringMap::new(),
            model: "sensevoice".to_string(),
            language: None,
            response_format: None,
            spk: None,
            tags: None,
        }
    }
}

impl LlmConfig {
    /// The section where the file says nothing.
    pub open spec fn is_default(&self) -> bool {
        &&& self.api_base@ == Seq::<char>::empty()
        &&& self.api_key@ == Seq::<char>::empty()
        &&& self.timeout_ms is None
        &&& self.headers@ == Map::<Seq<char>, Seq<char>>::empty()
        &&& self.model@ == Seq::<char>::empty()
        &&& self.max_completion_tokens is None
        &&& self.temperature is None
        &&& self.top_p is None
        &&& self.reasoning_effort is None
        &&& !self.include_usage
    }
}

impl Default for LlmConfig {
    fn default() -> (r: Self)
        ensures
            r.is_default(),
    {
        LlmConfig {
            api_base: String::new(),
            api_key: String::new(),
            timeout_ms: None,
            headers: StringMap::new(),
            model: String::new(),
            max_completion_tokens: None,
            temperature: None,
            top_p: None,
            reasoning_effort: None,
            include_usage: false,
        }
    }
}

impl TtsConfig {
    /// The section where the file says nothing.
    pub open spec fn is_default(&self) -> bool {
        &&& self.api_base@ == Seq::<char>::empty()
        &&& self.api_key@ == Seq::<char>::empty()
        &&& self.timeout_ms is None
        &&& self.headers@ == Map::<Seq<char>, Seq<char>>::empty()
        &&& self.model@ == Seq::<char>::empty()
        &&& self.voice@ == Seq::<char>::empty()
        &&& self.response_format@ == Seq::<char>::empty()
        &&& !self.stream
        &&& self.sample_rate is None
        &&& self.channels == 1
        &&& self.transport@ == "http"@
        &&& self.speed is None
        &&& self.task_type is None
        &&& self.language is None
        &&& self.instructions is None
        &&& self.max_new_tokens is None
        &&& self.initial_codec_chunk_frames is None
        &&& self.non_streaming_mode is None
        &&& self.stream_format is None
        &&& self.ref_audio is None
        &&& self.ref_text is None
        &&& self.x_vector_only_mode is None
        &&& self.max_connections == DEFAULT_TTS_CONNECTIONS
    }
}

impl Default for TtsConfig {
    fn default() -> (r: Self)
        ensures
            r.is_default(),
    {
        TtsConfig {
            api_base: String::new(),
            api_key: String::new(),
            timeout_ms: None,
            headers: StringMap::new(),
            model: String::new(),
            voice: String::new(),
            response_format: String::new(),
            stream: false,
            sample_rate: None,
            channels: 1,
            transport: "http".to_string(),
            speed: None,
            task_type: None,
            language: None,
            instructions: None,
            max_new_tokens: None,
            initial_codec_chunk_frames: None,
            non_streaming_mode: None,
            stream_format: None,
            ref_audio: None,
            ref_text: None,
            x_vector_only_mode: None,
            max_connections: DEFAULT_TTS_CONNECTIONS,
        }
    }
}

impl Default for VoiceConfig {
    fn default() -> (r: Self)
        ensures
            r.provider is None,
            r.log.is_default(),
            r.server.is_default(),
            r.asr.is_default(),
            r.llm.is_default(),
            r.tts.is_default(),
            r.redis.is_default(),
            r.agent.is_default(),
    {
        VoiceConfig {
            log: LogConfig::default(),
            server: ServerConfig::default(),
            provider: None,
            asr: AsrConfig::default(),
            llm: LlmConfig::default(),
            tts: TtsConfig::default(),
            redis: RedisConfig::default(),
            agent: AgentConfig::default(),
        }
    }
}

impl ProviderConfig {
    /// Base address and token for a client that takes the two; what is empty is left out.
    pub fn to_openai_config(&self) -> (r: (Option<String>, Option<String>))
        ensures
            opt_view(r.0) == (if self.api_base@.len() == 0 {
                None::<Seq<char>>
            } else {
                Some(self.api_base@)
            }),
            opt_view(r.1) == (if self.api_key@.len() == 0 {
                None::<Seq<char>>
            } else {
                Some(bare_token(self.api_key@))
            }),
    {
        let base = if self.api_base.as_str().is_empty() { None } else { Some(self.api_base.clone()) };
        let token = if self.api_key.as_str().is_empty() {
            None
        } else {
            Some(strip_bearer(self.api_key.as_str()))
        };
        (base, token)
    }

    /// The configured headers that can be sent, with their names in lower case.
    pub fn to_header_map(&self) -> (r: StringMap)
        ensures
            r@ == sendable(self.headers.entries_spec()),
            sent_of(r@, self.headers@),
    {
        self.headers.to_headers()
    }

    /// How long a request may take, in milliseconds.
    pub fn timeout(&self) -> (r: u64)
        ensures
            r == self.timeout_ms,
    {
        self.timeout_ms
    }
}

impl AsrConfig {
    /// What this section is connected with.
    pub fn resolved(&self, provider: Option<&ProviderConfig>) -> (r: ProviderConfig)
        ensures
            r@ == resolve_spec(
                self.api_base@,
                self.api_key@,
                self.timeout_ms,
                self.headers@,
                provider_view(provider),
            ),
    {
        resolve(
            self.api_base.as_str(),
            self.api_key.as_str(),
            self.timeout_ms,
            &self.headers,
            provider,
        )
    }
}

impl LlmConfig {
    /// What this section is connected with.
    pub fn resolved(&self, provider: Option<&ProviderConfig>) -> (r: ProviderConfig)
        ensures
            r@ == resolve_spec(
                self.api_base@,
                self.api_key@,
                self.timeout_ms,
                self.headers@,
                provider_view(provider),
            ),
    {
        resolve(
            self.api_base.as_str(),
            self.api_key.as_str(),
            self.timeout_ms,
            &self.headers,
            provider,
        )
    }
}

/// Base address and token for the language model.
pub fn llm_openai(cfg: &LlmConfig, provider: Option<&ProviderConfig>) -> (r: (
    Option<String>,
    Option<String>,
))
    ensures
        ({
            let p = resolve_spec(
                cfg.api_base@,
                cfg.api_key@,
                cfg.timeout_ms,
                cfg.headers@,
                provider_view(provider),
            );
            &&& opt_view(r.0) == (if p.api_base.len() == 0 { None::<Seq<char>> } else { Some(p.api_base) })
            &&& opt_view(r.1) == (if p.api_key.len() == 0 {
                None::<Seq<char>>
            } else {
                Some(bare_token(p.api_key))
            })
        }),
{
    cfg.resolved(provider).to_openai_config()
}

/// Base address, token and path for speech synthesis.
pub fn tts_parts(cfg: &TtsConfig, provider: Option<&ProviderConfig>) -> (r: (
    (Option<String>, Option<String>),
    String,
))
    ensures
        ({
            let p = resolve_spec(
                cfg.api_base@,
                cfg.api_key@,
                cfg.timeout_ms,
                cfg.headers@,
                provider_view(provider),
            );
            let (parts, path) = r;
            &&& opt_view(parts.0) == (if p.api_base.len() == 0 {
                None::<Seq<char>>
            } else {
                Some(p.api_base)
            })
            &&& opt_view(parts.1) == (if p.api_key.len() == 0 {
                None::<Seq<char>>
            } else {
                Some(bare_token(p.api_key))
            })
            &&& path@ == speech_path()
        }),
{
    let (resolved, path) = cfg.resolved(provider);
    (resolved.to_openai_config(), path)
}

/// `http` in front of a base address turned into `ws`, and `https` into `wss`.
pub open spec fn websocket_base(base: Seq<char>) -> Seq<char> {
    if "https://"@.is_prefix_of(base) {
        "wss://"@ + base.skip("https://"@.len() as int)
    } else if "http://"@.is_prefix_of(base) {
        "ws://"@ + base.skip("http://"@.len() as int)
    } else {
        base
    }
}

impl TtsConfig {
    /// What this section is connected with, and the path of the speech endpoint.
    pub fn resolved(&self, provider: Option<&ProviderConfig>) -> (r: (ProviderConfig, String))
        ensures
            r.0@ == resolve_spec(
                self.api_base@,
                self.api_key@,
                self.timeout_ms,
                self.headers@,
                provider_view(provider),
            ),
            r.1@ == speech_path(),
    {
        (
            resolve(
                self.api_base.as_str(),
                self.api_key.as_str(),
                self.timeout_ms,
                &self.headers,
                provider,
            ),
            "/audio/speech".to_string(),
        )
    }

    /// The transport: `websocket` where it is configured, `http` otherwise.
    pub open spec fn transport_spec(&self) -> Seq<char> {
        if self.transport@ == "websocket"@ {
            "websocket"@
        } else {
            "http"@
        }
    }

    /// The transport: `websocket` where it is configured, `http` otherwise.
    pub fn transport_kind(&self) -> (r: &'static str)
        ensures
            r@ == self.transport_spec(),
    {
        if same(self.transport.as_str(), "websocket") {
            "websocket"
        } else {
            "http"
        }
    }

    /// The address that requests go to.
    pub open spec fn endpoint_spec(&self, base: Seq<char>) -> Seq<char> {
        if self.transport@ == "websocket"@ {
            websocket_base(base) + "/audio/speech/stream"@
        } else {
            base + speech_path()
        }
    }

    /// The address that requests go to.
    pub fn resolved_endpoint(&self, provider: Option<&ProviderConfig>) -> (r: String)
        ensures
            r@ == self.endpoint_spec(own_or(self.api_base@, provider_view(provider).api_base)),
    {
        let (resolved, path) = self.resolved(provider);
        if same(self.transport.as_str(), "websocket") {
            let base = match strip_prefix(resolved.api_base.as_str(), "https://") {
                Some(rest) => concat("wss://", rest.as_str()),
                None => match strip_prefix(resolved.api_base.as_str(), "http://") {
                    Some(rest) => concat("ws://", rest.as_str()),
                    None => resolved.api_base,
                },
            };
            concat(base.as_str(), "/audio/speech/stream")
        } else {
            concat(resolved.api_base.as_str(), path.as_str())
        }
    }

    /// Sample rate and channels of the output.
    pub fn model_format(&self) -> (r: ModelFormat)
        ensures
            r == (ModelFormat { sample_rate: self.sample_rate, channels: self.channels }),
    {
        ModelFormat { sample_rate: self.sample_rate, channels: self.channels }
    }
}

/// A section that says nothing is connected as the provider is.
pub proof fn law_empty_section_takes_over(p: ProviderView)
    ensures
        resolve_spec(Seq::empty(), Seq::empty(), None, Map::empty(), p) == p,
{
    assert(p.headers.union_prefer_right(Map::empty()) =~= p.headers);
}

/// Address, key and time limit that a section says itself do not depend on the provider, and
/// none of its headers is lost to it.
pub proof fn law_section_wins(
    base: Seq<char>,
    key: Seq<char>,
    timeout: u64,
    headers: Map<Seq<char>, Seq<char>>,
    p: ProviderView,
)
    requires
        base.len() > 0,
        key.len() > 0,
    ensures
        ({
            let r = resolve_spec(base, key, Some(timeout), headers, p);
            &&& r.api_base == base
            &&& r.api_key == key
            &&& r.timeout_ms == timeout
            &&& forall|k: Seq<char>| #[trigger]
                headers.contains_key(k) ==> r.headers.contains_key(k) && r.headers[k] == headers[k]
            &&& forall|k: Seq<char>| #[trigger]
                p.headers.contains_key(k) && !headers.contains_key(k) ==> r.headers.contains_key(k)
                    && r.headers[k] == p.headers[k]
        }),
{
}

/// Resolving against what was already resolved changes nothing.
pub proof fn law_resolve_is_idempotent(
    base: Seq<char>,
    key: Seq<char>,
    timeout: Option<u64>,
    headers: Map<Seq<char>, Seq<char>>,
    p: ProviderView,
)
    ensures
        resolve_spec(base, key, timeout, headers, resolve_spec(base, key, timeout, headers, p))
            == resolve_spec(base, key, timeout, headers, p),
{
    let once = resolve_spec(base, key, timeout, headers, p);
    assert(once.headers.union_prefer_right(headers) =~= once.headers);
}

/// Writing a key with or without `Bearer ` comes to the same `Authorization` header.
pub proof fn law_bearer_is_optional(token: Seq<char>)
    requires
        !"Bearer "@.is_prefix_of(token),
        !"bearer "@.is_prefix_of(token),
    ensures
        authorization_spec(token) == authorization_spec("Bearer "@ + token),
        bare_token("Bearer "@ + token) == bare_token(token),
{
    let full = "Bearer "@ + token;
    assert(full.subrange(0, "Bearer "@.len() as int) =~= "Bearer "@);
    assert(full.skip("Bearer "@.len() as int) =~= token);
}

// ---- environment variables ----

/// The value of a variable.
pub open spec fn env_var(env: Map<Seq<char>, Seq<char>>, name: Seq<char>) -> Option<Seq<char>> {
    if env.contains_key(name) {
        Some(env[name])
    } else {
        None
    }
}

/// A text after its variable was looked at.
pub open spec fn env_text(env: Map<Seq<char>, Seq<char>>, name: Seq<char>, now: Seq<char>) -> Seq<char> {
    match env_var(env, name) {
        Some(v) => v,
        None => now,
    }
}

/// An optional text after its variable was looked at.
pub open spec fn env_opt_text(
    env: Map<Seq<char>, Seq<char>>,
    name: Seq<char>,
    now: Option<Seq<char>>,
) -> Option<Seq<char>> {
    match env_var(env, name) {
        Some(v) => Some(v),
        None => now,
    }
}

/// The number in a variable; what cannot be read as one counts as unset.
pub open spec fn env_number(env: Map<Seq<char>, Seq<char>>, name: Seq<char>, max: nat) -> Option<nat> {
    match env_var(env, name) {
        Some(v) => parse_spec(v, max),
        None => None,
    }
}

/// The truth value that a text writes.
pub open spec fn env_bool_spec(s: Seq<char>) -> Option<bool> {
    let t = lower_spec(trim_spec(s));
    if t == "true"@ || t == "1"@ || t == "yes"@ || t == "on"@ {
        Some(true)
    } else if t == "false"@ || t == "0"@ || t == "no"@ || t == "off"@ {
        Some(false)
    } else {
        None
    }
}

/// An optional truth value after its variable was looked at.
pub open spec fn env_opt_bool(
    env: Map<Seq<char>, Seq<char>>,
    name: Seq<char>,
    now: Option<bool>,
) -> Option<bool> {
    match env_var(env, name) {
        Some(v) => match env_bool_spec(v) {
            Some(b) => Some(b),
            None => now,
        },
        None => now,
    }
}

/// The truth value that a text writes, in any case and with white space around it.
pub fn parse_env_bool(s: &str) -> (r: Option<bool>)
    ensures
        r == env_bool_spec(s@),
{
    let t = to_ascii_lowercase(trim(s).as_str());
    let t = t.as_str();
    if same(t, "true") || same(t, "1") || same(t, "yes") || same(t, "on") {
        Some(true)
    } else if same(t, "false") || same(t, "0") || same(t, "no") || same(t, "off") {
        Some(false)
    } else {
        None
    }
}

/// Overrides a text.
pub fn override_text(slot: &mut String, env: &StringMap, name: &str)
    ensures
        final(slot)@ == env_text(env@, name@, old(slot)@),
{
    if let Some(v) = env.get(name) {
        *slot = v;
    }
}

/// Overrides an optional text.
pub fn override_opt_text(slot: &mut Option<String>, env: &StringMap, name: &str)
    ensures
        opt_view(*final(slot)) == env_opt_text(env@, name@, opt_view(*old(slot))),
{
    if let Some(v) = env.get(name) {
        *slot = Some(v);
    }
}

/// Overrides an optional truth value.
pub fn override_opt_bool(slot: &mut Option<bool>, env: &StringMap, name: &str)
    ensures
        *final(slot) == env_opt_bool(env@, name@, *old(slot)),
{
    if let Some(v) = env.get(name) {
        if let Some(b) = parse_env_bool(v.as_str()) {
            *slot = Some(b);
        }
    }
}

/// The number in a variable.
pub fn number_from_env(env: &StringMap, name: &str, max: u64) -> (r: Option<u64>)
    ensures
        match env_number(env@, name@, max as nat) {
            Some(n) => r == Some(n as u64) && n <= max,
            None => r is None,
        },
{
    match env.get(name) {
        Some(v) => parse_uint(v.as_str(), max),
        None => None,
    }
}

/// What the variables make of a log section.
pub open spec fn log_overridden(new: LogConfig, old: LogConfig, env: Map<Seq<char>, Seq<char>>) -> bool {
    &&& new.level@ == env_text(env, "VOICE_LOG_LEVEL"@, old.level@)
    &&& new.file@ == env_text(env, "VOICE_LOG_FILE"@, old.file@)
    &&& new.format == old.format
}

/// What the variables make of a server section.
pub open spec fn server_overridden(new: ServerConfig, old: ServerConfig, env: Map<Seq<char>, Seq<char>>) -> bool {
    &&& new.port == (match env_number(env, "VOICE_PORT"@, u16::MAX as nat) {
        Some(n) => n as u16,
        None => match env_number(env, "HTTP_PORT"@, u16::MAX as nat) {
            Some(n) => n as u16,
            None => old.port,
        },
    })
    &&& new.worker_num == old.worker_num
}

/// What the variables make of a provider section.
pub open spec fn provider_overridden(
    new: ProviderConfig,
    old: ProviderConfig,
    env: Map<Seq<char>, Seq<char>>,
) -> bool {
    &&& new.api_base@ == env_text(env, "VOICE_PROVIDER_API_BASE"@, old.api_base@)
    &&& new.api_key@ == env_text(env, "VOICE_PROVIDER_API_KEY"@, old.api_key@)
    &&& new.timeout_ms == old.timeout_ms
    &&& new.headers == old.headers
}

/// What the variables make of a recognition section.
pub open spec fn asr_overridden(new: AsrConfig, old: AsrConfig, env: Map<Seq<char>, Seq<char>>) -> bool {
    &&& new.api_key@ == env_text(env, "VOICE_ASR_API_KEY"@, old.api_key@)
    &&& new.model@ == env_text(env, "VOICE_ASR_MODEL"@, old.model@)
    &&& opt_view(new.language) == env_opt_text(env, "VOICE_ASR_LANGUAGE"@, opt_view(old.language))
    &&& opt_view(new.response_format) == env_opt_text(
        env,
        "VOICE_ASR_RESPONSE_FORMAT"@,
        opt_view(old.response_format),
    )
    &&& new.spk == env_opt_bool(env, "VOICE_ASR_SPK"@, old.spk)
    &&& new.tags == env_opt_bool(env, "VOICE_ASR_TAGS"@, old.tags)
    &&& new.api_base == old.api_base
    &&& new.timeout_ms == old.timeout_ms
    &&& new.headers == old.headers
}

/// The number that a text writes in JSON.
pub open spec fn json_number(s: Seq<char>) -> Option<Seq<char>> {
    match json_node(vstd::utf8::encode_utf8(s), ""@) {
        Some(NodeView::Number(n)) => Some(n),
        _ => None,
    }
}

/// An optional number, kept as it is written, after its variable was looked at.
pub open spec fn env_opt_number_text(
    env: Map<Seq<char>, Seq<char>>,
    name: Seq<char>,
    now: Option<Seq<char>>,
) -> Option<Seq<char>> {
    match env_var(env, name) {
        Some(v) => match json_number(v) {
            Some(n) => Some(n),
            None => now,
        },
        None => now,
    }
}

/// Headers with those on top that a variable holds as a JSON object of texts; anything else in it
/// is ignored.
pub open spec fn env_headers(
    env: Map<Seq<char>, Seq<char>>,
    name: Seq<char>,
    now: Map<Seq<char>, Seq<char>>,
) -> Map<Seq<char>, Seq<char>> {
    if env.contains_key(name) {
        match json_texts(env[name]) {
            Some(more) => now.union_prefer_right(more),
            None => now,
        }
    } else {
        now
    }
}

/// Puts the headers that a variable holds on top of others.
pub fn override_headers(slot: &mut StringMap, env: &StringMap, name: &str)
    ensures
        final(slot)@ == env_headers(env@, name@, old(slot)@),
{
    if let Some(text) = env.get(name) {
        if let Some(pairs) = read_texts(text.as_str()) {
            slot.put_all(&pairs);
        }
    }
}

/// What the variables make of a language model section.
pub open spec fn llm_overridden(new: LlmConfig, old: LlmConfig, env: Map<Seq<char>, Seq<char>>) -> bool {
    &&& new.api_base@ == env_text(env, "VOICE_LLM_API_BASE"@, old.api_base@)
    &&& new.api_key@ == env_text(env, "VOICE_LLM_API_KEY"@, old.api_key@)
    &&& new.model@ == env_text(env, "VOICE_LLM_MODEL"@, old.model@)
    &&& new.timeout_ms == (match env_number(env, "VOICE_LLM_TIMEOUT_MS"@, u64::MAX as nat) {
        Some(n) => Some(n as u64),
        None => old.timeout_ms,
    })
    &&& new.max_completion_tokens == (match env_number(
        env,
        "VOICE_LLM_MAX_COMPLETION_TOKENS"@,
        u32::MAX as nat,
    ) {
        Some(n) => Some(n as u32),
        None => old.max_completion_tokens,
    })
    &&& opt_view(new.temperature) == env_opt_number_text(
        env,
        "VOICE_LLM_TEMPERATURE"@,
        opt_view(old.temperature),
    )
    &&& opt_view(new.top_p) == env_opt_number_text(env, "VOICE_LLM_TOP_P"@, opt_view(old.top_p))
    &&& opt_view(new.reasoning_effort) == env_opt_text(
        env,
        "VOICE_LLM_REASONING_EFFORT"@,
        opt_view(old.reasoning_effort),
    )
    &&& new.include_usage == (match env_opt_bool(env, "VOICE_LLM_INCLUDE_USAGE"@, None) {
        Some(b) => b,
        None => old.include_usage,
    })
    &&& new.headers@ == env_headers(env, "VOICE_LLM_HEADERS"@, old.headers@)
}

/// What the variables make of a synthesis section.
pub open spec fn tts_overridden(new: TtsConfig, old: TtsConfig, env: Map<Seq<char>, Seq<char>>) -> bool {
    &&& new.api_key@ == env_text(env, "VOICE_TTS_API_KEY"@, old.api_key@)
    &&& new.model@ == env_text(env, "VOICE_TTS_MODEL"@, old.model@)
    &&& new.voice@ == env_text(env, "VOICE_TTS_VOICE"@, old.voice@)
    &&& new.sample_rate == (match env_var(env, "VOICE_TTS_SAMPLE_RATE"@) {
        Some(v) => match parse_spec(trim_spec(v), u32::MAX as nat) {
            Some(n) => Some(n as u32),
            None => old.sample_rate,
        },
        None => old.sample_rate,
    })
    &&& new == (TtsConfig {
        api_key: new.api_key,
        model: new.model,
        voice: new.voice,
        sample_rate: new.sample_rate,
        ..old
    })
}

/// What the variables make of a Redis section.
pub open spec fn redis_overridden(new: RedisConfig, old: RedisConfig, env: Map<Seq<char>, Seq<char>>) -> bool {
    &&& opt_view(new.url) == env_opt_text(env, "VOICE_REDIS_URL"@, opt_view(old.url))
    &&& new.default_ttl_secs == (match env_number(
        env,
        "VOICE_REDIS_DEFAULT_TTL_SECS"@,
        u64::MAX as nat,
    ) {
        Some(n) => n as u64,
        None => old.default_ttl_secs,
    })
}

/// What the variables make of a memory section.
pub open spec fn agent_overridden(new: AgentConfig, old: AgentConfig, env: Map<Seq<char>, Seq<char>>) -> bool {
    &&& new.memory_backend@ == env_text(env, "VOICE_AGENT_MEMORY_BACKEND"@, old.memory_backend@)
    &&& new.memory_window == (match env_number(
        env,
        "VOICE_AGENT_MEMORY_WINDOW"@,
        usize::MAX as nat,
    ) {
        Some(n) => n as usize,
        None => old.memory_window,
    })
    &&& new.memory_ttl_secs == (match env_number(
        env,
        "VOICE_AGENT_MEMORY_TTL_SECS"@,
        u64::MAX as nat,
    ) {
        Some(n) => Some(n as u64),
        None => old.memory_ttl_secs,
    })
}

fn apply_redis_env(c: &mut RedisConfig, env: &StringMap)
    ensures
        redis_overridden(*final(c), *old(c), env@),
{
    override_opt_text(&mut c.url, env, "VOICE_REDIS_URL");
    if let Some(n) = number_from_env(env, "VOICE_REDIS_DEFAULT_TTL_SECS", u64::MAX) {
        c.default_ttl_secs = n;
    }
}

fn apply_agent_env(c: &mut AgentConfig, env: &StringMap)
    ensures
        agent_overridden(*final(c), *old(c), env@),
{
    override_text(&mut c.memory_backend, env, "VOICE_AGENT_MEMORY_BACKEND");
    if let Some(n) = number_from_env(env, "VOICE_AGENT_MEMORY_WINDOW", usize::MAX as u64) {
        c.memory_window = n as usize;
    }
    if let Some(n) = number_from_env(env, "VOICE_AGENT_MEMORY_TTL_SECS", u64::MAX) {
        c.memory_ttl_secs = Some(n);
    }
}

fn apply_section_env(c: &mut AsrConfig, env: &StringMap)
    ensures
        asr_overridden(*final(c), *old(c), env@),
{
    override_text(&mut c.api_key, env, "VOICE_ASR_API_KEY");
    override_text(&mut c.model, env, "VOICE_ASR_MODEL");
    override_opt_text(&mut c.language, env, "VOICE_ASR_LANGUAGE");
    override_opt_text(&mut c.response_format, env, "VOICE_ASR_RESPONSE_FORMAT");
    override_opt_bool(&mut c.spk, env, "VOICE_ASR_SPK");
    override_opt_bool(&mut c.tags, env, "VOICE_ASR_TAGS");
}

/// Overrides an optional number that is kept as it is written.
fn override_opt_number(slot: &mut Option<String>, env: &StringMap, name: &str)
    ensures
        opt_view(*final(slot)) == env_opt_number_text(env@, name@, opt_view(*old(slot))),
{
    if let Some(v) = env.get(name) {
        let doc = Document { bytes: v.as_str().as_bytes() };
        if let Some(JsonNode::Number(n)) = doc.node("") {
            *slot = Some(n);
        }
    }
}

fn apply_section_env_llm(c: &mut LlmConfig, env: &StringMap)
    ensures
        llm_overridden(*final(c), *old(c), env@),
{
    override_text(&mut c.api_base, env, "VOICE_LLM_API_BASE");
    override_text(&mut c.api_key, env, "VOICE_LLM_API_KEY");
    override_text(&mut c.model, env, "VOICE_LLM_MODEL");
    if let Some(n) = number_from_env(env, "VOICE_LLM_TIMEOUT_MS", u64::MAX) {
        c.timeout_ms = Some(n);
    }
    if let Some(n) = number_from_env(env, "VOICE_LLM_MAX_COMPLETION_TOKENS", u32::MAX as u64) {
        c.max_completion_tokens = Some(n as u32);
    }
    override_opt_number(&mut c.temperature, env, "VOICE_LLM_TEMPERATURE");
    override_opt_number(&mut c.top_p, env, "VOICE_LLM_TOP_P");
    override_opt_text(&mut c.reasoning_effort, env, "VOICE_LLM_REASONING_EFFORT");
    let mut usage: Option<bool> = None;
    override_opt_bool(&mut usage, env, "VOICE_LLM_INCLUDE_USAGE");
    if let Some(b) = usage {
        c.include_usage = b;
    }
    override_headers(&mut c.headers, env, "VOICE_LLM_HEADERS");
}

fn apply_section_env_tts(c: &mut TtsConfig, env: &StringMap)
    ensures
        tts_overridden(*final(c), *old(c), env@),
{
    override_text(&mut c.api_key, env, "VOICE_TTS_API_KEY");
    override_text(&mut c.model, env, "VOICE_TTS_MODEL");
    override_text(&mut c.voice, env, "VOICE_TTS_VOICE");
    if let Some(v) = env.get("VOICE_TTS_SAMPLE_RATE") {
        if let Some(n) = parse_uint(trim(v.as_str()).as_str(), u32::MAX as u64) {
            c.sample_rate = Some(n as u32);
        }
    }
}

impl LogConfig {
    /// Overrides the section with what the environment says.
    pub fn apply_env_overrides(&mut self, env: &StringMap)
        ensures
            log_overridden(*final(self), *old(self), env@),
    {
        override_text(&mut self.level, env, "VOICE_LOG_LEVEL");
        override_text(&mut self.file, env, "VOICE_LOG_FILE");
    }
}

impl VoiceConfig {
    /// Overrides the configuration with what the environment says. The provider is overridden
    /// only where one is configured; a number or truth value that cannot be read is ignored.
    pub fn apply_env_overrides(&mut self, env: &StringMap)
        ensures
            log_overridden(final(self).log, old(self).log, env@),
            server_overridden(final(self).server, old(self).server, env@),
            final(self).provider is Some <==> old(self).provider is Some,
            old(self).provider is Some ==> provider_overridden(
                final(self).provider->0,
                old(self).provider->0,
                env@,
            ),
            asr_overridden(final(self).asr, old(self).asr, env@),
            llm_overridden(final(self).llm, old(self).llm, env@),
            tts_overridden(final(self).tts, old(self).tts, env@),
            redis_overridden(final(self).redis, old(self).redis, env@),
            agent_overridden(final(self).agent, old(self).agent, env@),
    {
        self.log.apply_env_overrides(env);
        match number_from_env(env, "VOICE_PORT", u16::MAX as u64) {
            Some(p) => {
                self.server.port = p as u16;
            },
            None => {
                if let Some(p) = number_from_env(env, "HTTP_PORT", u16::MAX as u64) {
                    self.server.port = p as u16;
                }
            },
        }
        if let Some(p) = self.provider.as_mut() {
            override_text(&mut p.api_base, env, "VOICE_PROVIDER_API_BASE");
            override_text(&mut p.api_key, env, "VOICE_PROVIDER_API_KEY");
        }
        apply_section_env(&mut self.asr, env);
        apply_section_env_llm(&mut self.llm, env);
        apply_section_env_tts(&mut self.tts, env);
        apply_redis_env(&mut self.redis, env);
        apply_agent_env(&mut self.agent, env);
    }
}

// ---- command line and memory backend ----

/// What the command line asks for.
#[derive(Debug, Clone)]
pub struct CliOverrides {
    pub port: Option<u16>,
    pub log_level: Option<String>,
    pub log_file: Option<String>,
}

impl VoiceConfig {
    /// Applies the command line, which wins over everything else.
    pub fn apply_cli(&mut self, cli: CliOverrides)
        ensures
            final(self).server.port == (match cli.port {
                Some(p) => p,
                None => old(self).server.port,
            }),
            final(self).log.level@ == (match cli.log_level {
                Some(l) => l@,
                None => old(self).log.level@,
            }),
            final(self).log.file@ == (match cli.log_file {
                Some(f) => f@,
                None => old(self).log.file@,
            }),
            *final(self) == (VoiceConfig {
                server: final(self).server,
                log: final(self).log,
                ..*old(self)
            }),
            final(self).server.worker_num == old(self).server.worker_num,
            final(self).log.format == old(self).log.format,
    {
        if let Some(p) = cli.port {
            self.server.port = p;
        }
        if let Some(l) = cli.log_level {
            self.log.level = l;
        }
        if let Some(f) = cli.log_file {
            self.log.file = f;
        }
    }
}

/// Where the conversation memory is kept.
#[derive(Debug)]
pub enum MemoryBackend {
    /// In this process.
    InMemory { window: usize },
    /// In Redis, shared by several processes.
    Redis { url: String, window: usize, key_prefix: String, ttl_secs: u64 },
}

/// Why no memory backend could be chosen.
#[derive(Debug)]
pub enum BackendError {
    /// Redis is asked for and has no address.
    NoRedisUrl,
    /// There is no such backend.
    Unknown(String),
}

impl BackendError {
    pub open spec fn text_spec(&self) -> Seq<char> {
        match *self {
            BackendError::NoRedisUrl =>
                "agent.memory_backend=redis 但 redis.url 未配置（yaml redis.url 或 env VOICE_REDIS_URL）"@,
            BackendError::Unknown(b) => "未知 agent.memory_backend: "@ + b@
                + "（合法值：in_memory | redis）"@,
        }
    }

    /// The error as one line of text.
    pub fn to_string(&self) -> (r: String)
        ensures
            r@ == self.text_spec(),
    {
        match self {
            BackendError::NoRedisUrl =>
                "agent.memory_backend=redis 但 redis.url 未配置（yaml redis.url 或 env VOICE_REDIS_URL）".to_string(),
            BackendError::Unknown(b) => concat3(
                "未知 agent.memory_backend: ",
                b.as_str(),
                "（合法值：in_memory | redis）",
            ),
        }
    }
}

impl VoiceConfig {
    /// Chooses where the conversation memory is kept.
    pub fn memory_backend(&self) -> (r: Result<MemoryBackend, BackendError>)
        ensures
            ({
                let backend = self.agent.memory_backend@;
                if backend == "in_memory"@ {
                    r matches Ok(MemoryBackend::InMemory { window }) && window
                        == self.agent.memory_window
                } else if backend == "redis"@ {
                    match self.redis.url {
                        Some(u) => r matches Ok(
                            MemoryBackend::Redis { url, window, key_prefix, ttl_secs },
                        ) && url@ == u@ && window == self.agent.memory_window && key_prefix@
                            == "voice:memory:"@ && ttl_secs == (match self.agent.memory_ttl_secs {
                            Some(t) => t,
                            None => self.redis.default_ttl_secs,
                        }),
                        None => r matches Err(BackendError::NoRedisUrl),
                    }
                } else {
                    r matches Err(BackendError::Unknown(b)) && b@ == backend
                }
            }),
    {
        let backend = self.agent.memory_backend.as_str();
        if same(backend, "in_memory") {
            Ok(MemoryBackend::InMemory { window: self.agent.memory_window })
        } else if same(backend, "redis") {
            match &self.redis.url {
                Some(u) => {
                    let ttl_secs = match self.agent.memory_ttl_secs {
                        Some(t) => t,
                        None => self.redis.default_ttl_secs,
                    };
                    let key_prefix = concat(REDIS_KEY_PREFIX, MEMORY_NAMESPACE);
                    proof {
                        reveal_strlit("voice:");
                        reveal_strlit("memory:");
                        reveal_strlit("voice:memory:");
                        assert(key_prefix@ =~= "voice:memory:"@);
                    }
                    Ok(
                        MemoryBackend::Redis {
                            url: u.clone(),
                            window: self.agent.memory_window,
                            key_prefix,
                            ttl_secs,
                        },
                    )
                },
                None => Err(BackendError::NoRedisUrl),
            }
        } else {
            Err(BackendError::Unknown(self.agent.memory_backend.clone()))
        }
    }
}

} // verus!

//! What the environment makes of a configuration: a variable that is set counts, one that is not
//! changes nothing.

use vstd::prelude::*;

use crate::asr_stream::{canonical_model, model_spec, overridden, StreamCfgView};
use crate::config::{
    agent_overridden, asr_overridden, env_bool_spec, env_headers, env_number, env_opt_bool,
    env_opt_text, env_text, llm_overridden, log_overridden, provider_overridden, redis_overridden,
    server_overridden, tts_overridden, websocket_base, AgentConfig, AsrConfig, LlmConfig,
    LogConfig, ProviderConfig, RedisConfig, ServerConfig, TtsConfig,
};
use crate::json::json_texts;
use crate::live_asr::{live_overridden, taken_text, AsrLiveCfg};
use crate::text::{decimal, law_number_is_read_back, lower_spec, opt_view, parse_spec, trim_spec};

verus! {

/// A variable has this value.
pub open spec fn is_set(env: Map<Seq<char>, Seq<char>>, name: Seq<char>, value: Seq<char>) -> bool {
    env.contains_key(name) && env[name] == value
}

/// A variable that is set is the text; one that is not leaves it as it was, whatever else is set.
pub proof fn law_set_text_counts(
    env: Map<Seq<char>, Seq<char>>,
    name: Seq<char>,
    other: Seq<char>,
    value: Seq<char>,
    now: Seq<char>,
)
    ensures
        env_text(env.insert(name, value), name, now) == value,
        env_opt_text(env.insert(name, value), name, Some(now)) == Some(value),
        env_text(env.remove(name), name, now) == now,
        env_opt_text(env.remove(name), name, Some(now)) == Some(now),
        other != name ==> env_text(env.insert(other, value), name, now) == env_text(env, name, now),
{
}

/// A number that is written in digits is taken; one that is too large, and anything else, is not.
pub proof fn law_set_number_counts(
    env: Map<Seq<char>, Seq<char>>,
    name: Seq<char>,
    n: nat,
    max: nat,
)
    ensures
        n <= max ==> env_number(env.insert(name, decimal(n)), name, max) == Some(n),
        n > max ==> env_number(env.insert(name, decimal(n)), name, max) is None,
        env_number(env.remove(name), name, max) is None,
{
    law_number_is_read_back(n, max);
}

/// Truth values are read in any case and with white space around them, yes and no alike; what is
/// neither is as if it were not set.
pub proof fn law_set_truth_counts(
    env: Map<Seq<char>, Seq<char>>,
    name: Seq<char>,
    value: Seq<char>,
    now: Option<bool>,
)
    ensures
        ({
            let word = lower_spec(trim_spec(value));
            let yes = word == "true"@ || word == "1"@ || word == "yes"@ || word == "on"@;
            let no = word == "false"@ || word == "0"@ || word == "no"@ || word == "off"@;
            let after = env_opt_bool(env.insert(name, value), name, now);
            &&& yes ==> after == Some(true)
            &&& no ==> after == Some(false)
            &&& !yes && !no ==> after == now
        }),
        env_opt_bool(env.remove(name), name, now) == now,
{
    reveal_strlit("true");
    reveal_strlit("1");
    reveal_strlit("yes");
    reveal_strlit("on");
    reveal_strlit("false");
    reveal_strlit("0");
    reveal_strlit("no");
    reveal_strlit("off");
    assert("true"@.len() == 4 && "false"@.len() == 5 && "yes"@.len() == 3 && "off"@.len() == 3);
    assert("1"@[0] != "0"@[0]);
    assert("on"@[0] != "no"@[0]);
    assert("yes"@[0] != "off"@[0]);
}

/// Headers in a variable come on top of those that are there: none that it names is lost, and none
/// that it does not name is changed.
pub proof fn law_set_headers_count(
    env: Map<Seq<char>, Seq<char>>,
    name: Seq<char>,
    now: Map<Seq<char>, Seq<char>>,
    more: Map<Seq<char>, Seq<char>>,
    k: Seq<char>,
)
    requires
        env.contains_key(name),
        json_texts(env[name]) == Some(more),
    ensures
        ({
            let after = env_headers(env, name, now);
            &&& more.contains_key(k) ==> after.contains_key(k) && after[k] == more[k]
            &&& !more.contains_key(k) ==> after.contains_key(k) == now.contains_key(k) && (
            now.contains_key(k) ==> after[k] == now[k])
        }),
{
}

/// The address of a service that streams is that of the service, over a socket; a secure address
/// stays secure.
pub proof fn law_socket_address(rest: Seq<char>)
    ensures
        websocket_base("https://"@ + rest) == "wss://"@ + rest,
        websocket_base("http://"@ + rest) == "ws://"@ + rest,
{
    reveal_strlit("https://");
    reveal_strlit("http://");
    let a = "https://"@ + rest;
    let b = "http://"@ + rest;
    assert(a.take("https://"@.len() as int) =~= "https://"@);
    assert(a.skip("https://"@.len() as int) =~= rest);
    assert(b.take("http://"@.len() as int) =~= "http://"@);
    assert(b.skip("http://"@.len() as int) =~= rest);
    assert(b[4] == ':');
    assert("https://"@[4] == 's');
    if "https://"@.is_prefix_of(b) {
        assert(b.take("https://"@.len() as int)[4] == "https://"@[4]);
    }
}

/// Every variable of the section on log file and the level of the log counts where it is set, each for its own setting, and
/// a setting without a variable stays as it was configured.
pub proof fn law_log_variables_count(new: LogConfig, before: LogConfig, env: Map<Seq<char>, Seq<char>>)
    requires
        log_overridden(new, before, env),
    ensures
        new.level@ == (if env.contains_key("VOICE_LOG_LEVEL"@) {
            env["VOICE_LOG_LEVEL"@]
        } else {
            before.level@
        }),
        new.file@ == (if env.contains_key("VOICE_LOG_FILE"@) {
            env["VOICE_LOG_FILE"@]
        } else {
            before.file@
        }),
        new.format == before.format,
{
}

/// Every variable of the section on the provider counts where it is set, each for its own setting, and
/// a setting without a variable stays as it was configured.
pub proof fn law_provider_variables_count(new: ProviderConfig, before: ProviderConfig, env: Map<Seq<char>, Seq<char>>)
    requires
        provider_overridden(new, before, env),
    ensures
        new.api_base@ == (if env.contains_key("VOICE_PROVIDER_API_BASE"@) {
            env["VOICE_PROVIDER_API_BASE"@]
        } else {
            before.api_base@
        }),
        new.api_key@ == (if env.contains_key("VOICE_PROVIDER_API_KEY"@) {
            env["VOICE_PROVIDER_API_KEY"@]
        } else {
            before.api_key@
        }),
        new.timeout_ms == before.timeout_ms,
        new.headers == before.headers,
{
}

/// Every variable of the section on recognition counts where it is set, each for its own setting, and
/// a setting without a variable stays as it was configured.
pub proof fn law_recognition_variables_count(new: AsrConfig, before: AsrConfig, env: Map<Seq<char>, Seq<char>>)
    requires
        asr_overridden(new, before, env),
    ensures
        new.api_key@ == (if env.contains_key("VOICE_ASR_API_KEY"@) {
            env["VOICE_ASR_API_KEY"@]
        } else {
            before.api_key@
        }),
        new.model@ == (if env.contains_key("VOICE_ASR_MODEL"@) {
            env["VOICE_ASR_MODEL"@]
        } else {
            before.model@
        }),
        opt_view(new.language) == (if env.contains_key("VOICE_ASR_LANGUAGE"@) {
            Some(env["VOICE_ASR_LANGUAGE"@])
        } else {
            opt_view(before.language)
        }),
        opt_view(new.response_format) == (if env.contains_key("VOICE_ASR_RESPONSE_FORMAT"@) {
            Some(env["VOICE_ASR_RESPONSE_FORMAT"@])
        } else {
            opt_view(before.response_format)
        }),
        is_set(env, "VOICE_ASR_SPK"@, "true"@) ==> new.spk == Some(true),
        is_set(env, "VOICE_ASR_SPK"@, "false"@) ==> new.spk == Some(false),
        !env.contains_key("VOICE_ASR_SPK"@) ==> new.spk == before.spk,
        is_set(env, "VOICE_ASR_TAGS"@, "true"@) ==> new.tags == Some(true),
        is_set(env, "VOICE_ASR_TAGS"@, "false"@) ==> new.tags == Some(false),
        !env.contains_key("VOICE_ASR_TAGS"@) ==> new.tags == before.tags,
        new.api_base == before.api_base,
        new.timeout_ms == before.timeout_ms,
        new.headers == before.headers,
{
    lemma_truth_words();
}

/// Every variable of the section on the language model counts where it is set, each for its own setting, and
/// a setting without a variable stays as it was configured.
pub proof fn law_model_variables_count(new: LlmConfig, before: LlmConfig, env: Map<Seq<char>, Seq<char>>, n: nat)
    requires
        llm_overridden(new, before, env),
    ensures
        new.api_base@ == (if env.contains_key("VOICE_LLM_API_BASE"@) {
            env["VOICE_LLM_API_BASE"@]
        } else {
            before.api_base@
        }),
        new.api_key@ == (if env.contains_key("VOICE_LLM_API_KEY"@) {
            env["VOICE_LLM_API_KEY"@]
        } else {
            before.api_key@
        }),
        new.model@ == (if env.contains_key("VOICE_LLM_MODEL"@) {
            env["VOICE_LLM_MODEL"@]
        } else {
            before.model@
        }),
        n <= u64::MAX && is_set(env, "VOICE_LLM_TIMEOUT_MS"@, decimal(n)) ==> new.timeout_ms == Some(n as u64),
        !env.contains_key("VOICE_LLM_TIMEOUT_MS"@) ==> new.timeout_ms == before.timeout_ms,
        n <= u32::MAX && is_set(env, "VOICE_LLM_MAX_COMPLETION_TOKENS"@, decimal(n)) ==> new.max_completion_tokens == Some(n as u32),
        !env.contains_key("VOICE_LLM_MAX_COMPLETION_TOKENS"@) ==> new.max_completion_tokens == before.max_completion_tokens,
        opt_view(new.reasoning_effort) == (if env.contains_key("VOICE_LLM_REASONING_EFFORT"@) {
            Some(env["VOICE_LLM_REASONING_EFFORT"@])
        } else {
            opt_view(before.reasoning_effort)
        }),
        is_set(env, "VOICE_LLM_INCLUDE_USAGE"@, "true"@) ==> new.include_usage,
        is_set(env, "VOICE_LLM_INCLUDE_USAGE"@, "false"@) ==> !new.include_usage,
        !env.contains_key("VOICE_LLM_INCLUDE_USAGE"@) ==> new.include_usage == before.include_usage,
        !env.contains_key("VOICE_LLM_TEMPERATURE"@) ==> opt_view(new.temperature) == opt_view(before.temperature),
        !env.contains_key("VOICE_LLM_TOP_P"@) ==> opt_view(new.top_p) == opt_view(before.top_p),
        !env.contains_key("VOICE_LLM_HEADERS"@) ==> new.headers@ == before.headers@,
{
    law_number_is_read_back(n, u32::MAX as nat);
    law_number_is_read_back(n, u64::MAX as nat);
    lemma_truth_words();
}

/// Every variable of the section on synthesis counts where it is set, each for its own setting, and
/// a setting without a variable stays as it was configured.
pub proof fn law_synthesis_variables_count(new: TtsConfig, before: TtsConfig, env: Map<Seq<char>, Seq<char>>)
    requires
        tts_overridden(new, before, env),
    ensures
        new.api_key@ == (if env.contains_key("VOICE_TTS_API_KEY"@) {
            env["VOICE_TTS_API_KEY"@]
        } else {
            before.api_key@
        }),
        new.model@ == (if env.contains_key("VOICE_TTS_MODEL"@) {
            env["VOICE_TTS_MODEL"@]
        } else {
            before.model@
        }),
        new.voice@ == (if env.contains_key("VOICE_TTS_VOICE"@) {
            env["VOICE_TTS_VOICE"@]
        } else {
            before.voice@
        }),
        !env.contains_key("VOICE_TTS_SAMPLE_RATE"@) ==> new.sample_rate == before.sample_rate,
        new.api_base == before.api_base,
        new.transport == before.transport,
        new.headers == before.headers,
        new.response_format == before.response_format,
        new.channels == before.channels,
{
}

/// Every variable of the section on the store counts where it is set, each for its own setting, and
/// a setting without a variable stays as it was configured.
pub proof fn law_store_variables_count(new: RedisConfig, before: RedisConfig, env: Map<Seq<char>, Seq<char>>, n: nat)
    requires
        redis_overridden(new, before, env),
    ensures
        opt_view(new.url) == (if env.contains_key("VOICE_REDIS_URL"@) {
            Some(env["VOICE_REDIS_URL"@])
        } else {
            opt_view(before.url)
        }),
        n <= u64::MAX && is_set(env, "VOICE_REDIS_DEFAULT_TTL_SECS"@, decimal(n)) ==> new.default_ttl_secs == (n as u64),
        !env.contains_key("VOICE_REDIS_DEFAULT_TTL_SECS"@) ==> new.default_ttl_secs == before.default_ttl_secs,
{
    law_number_is_read_back(n, u64::MAX as nat);
}

/// Every variable of the section on what is remembered counts where it is set, each for its own setting, and
/// a setting without a variable stays as it was configured.
pub proof fn law_memory_variables_count(new: AgentConfig, before: AgentConfig, env: Map<Seq<char>, Seq<char>>, n: nat)
    requires
        agent_overridden(new, before, env),
    ensures
        new.memory_backend@ == (if env.contains_key("VOICE_AGENT_MEMORY_BACKEND"@) {
            env["VOICE_AGENT_MEMORY_BACKEND"@]
        } else {
            before.memory_backend@
        }),
        n <= usize::MAX && is_set(env, "VOICE_AGENT_MEMORY_WINDOW"@, decimal(n)) ==> new.memory_window == (n as usize),
        !env.contains_key("VOICE_AGENT_MEMORY_WINDOW"@) ==> new.memory_window == before.memory_window,
        n <= u64::MAX && is_set(env, "VOICE_AGENT_MEMORY_TTL_SECS"@, decimal(n)) ==> new.memory_ttl_secs == Some(n as u64),
        !env.contains_key("VOICE_AGENT_MEMORY_TTL_SECS"@) ==> new.memory_ttl_secs == before.memory_ttl_secs,
{
    law_number_is_read_back(n, u64::MAX as nat);
    law_number_is_read_back(n, usize::MAX as nat);
}

proof fn lemma_truth_words()
    ensures
        env_bool_spec("true"@) == Some(true),
        env_bool_spec("false"@) == Some(false),
{
    reveal_strlit("true");
    reveal_strlit("false");
    reveal_strlit("1");
    reveal_strlit("yes");
    reveal_strlit("on");
    let a = "true"@;
    let b = "false"@;
    assert(trim_spec(a) =~= a);
    assert(trim_spec(b) =~= b);
    assert(lower_spec(a) =~= a);
    assert(lower_spec(b) =~= b);
    assert(b.len() == 5 && a.len() == 4);
}

/// The port is the one that the variable of this server names, else the one that the variable of
/// all servers names, else the configured one.
pub proof fn law_port_variables_count(
    new: ServerConfig,
    before: ServerConfig,
    env: Map<Seq<char>, Seq<char>>,
    n: nat,
)
    requires
        server_overridden(new, before, env),
        n <= u16::MAX,
    ensures
        is_set(env, "VOICE_PORT"@, decimal(n)) ==> new.port == n,
        !env.contains_key("VOICE_PORT"@) && is_set(env, "HTTP_PORT"@, decimal(n)) ==> new.port == n,
        !env.contains_key("VOICE_PORT"@) && !env.contains_key("HTTP_PORT"@) ==> new.port == before.port,
        new.worker_num == before.worker_num,
{
    law_number_is_read_back(n, u16::MAX as nat);
}

/// A variable that says something counts, a blank one is as if it were not set.
pub proof fn law_filled_text_counts(
    env: Map<Seq<char>, Seq<char>>,
    name: Seq<char>,
    value: Seq<char>,
    now: Option<Seq<char>>,
)
    ensures
        trim_spec(value).len() > 0 ==> taken_text(env.insert(name, value), name, now) == Some(value),
        trim_spec(value).len() == 0 ==> taken_text(env.insert(name, value), name, now) == now,
        taken_text(env.remove(name), name, now) == now,
{
}

/// The text of a variable where it says something, else what was configured.
pub open spec fn said_or(
    env: Map<Seq<char>, Seq<char>>,
    name: Seq<char>,
    now: Option<Seq<char>>,
) -> Option<Seq<char>> {
    if env.contains_key(name) && trim_spec(env[name]).len() > 0 {
        Some(env[name])
    } else {
        now
    }
}

/// Each variable of streamed recognition counts for its own setting; the key has a variable of its
/// own, which wins over the one that is shared.
pub proof fn law_stream_variables_count(c: StreamCfgView, env: Map<Seq<char>, Seq<char>>)
    ensures
        ({
            let o = overridden(c, env);
            let own = said_or(env, "VOICE_ASR_STREAM_API_KEY"@, None);
            &&& own is Some ==> o.api_key == own
            &&& own is None ==> o.api_key == said_or(env, "DASHSCOPE_API_KEY"@, c.api_key)
            &&& o.model == said_or(env, "VOICE_ASR_STREAM_MODEL"@, c.model)
            &&& o.workspace_id == said_or(env, "VOICE_ASR_STREAM_WORKSPACE_ID"@, c.workspace_id)
            &&& o.region == said_or(env, "VOICE_ASR_STREAM_REGION"@, c.region)
            &&& o.endpoint == said_or(env, "VOICE_ASR_STREAM_ENDPOINT"@, c.endpoint)
            &&& o.sample_rate == c.sample_rate
        }),
{
}

/// A model that is configured is used.
pub proof fn law_configured_model_is_used(m: Seq<char>)
    ensures
        m.len() > 0 ==> model_spec(Some(m)) == m,
        model_spec(None) == model_spec(Some(Seq::empty())),
        model_spec(None) == canonical_model(),
{
}

/// Each variable of live recognition counts for its own setting.
pub proof fn law_live_variables_count(
    new: AsrLiveCfg,
    before: AsrLiveCfg,
    env: Map<Seq<char>, Seq<char>>,
)
    requires
        live_overridden(new, before, env),
    ensures
        opt_view(new.endpoint) == said_or(env, "VOICE_ASR_LIVE_ENDPOINT"@, opt_view(before.endpoint)),
        opt_view(new.mode) == said_or(env, "VOICE_ASR_LIVE_MODE"@, opt_view(before.mode)),
        opt_view(new.wav_name) == said_or(env, "VOICE_ASR_LIVE_WAV_NAME"@, opt_view(before.wav_name)),
        opt_view(new.wav_format) == said_or(
            env,
            "VOICE_ASR_LIVE_WAV_FORMAT"@,
            opt_view(before.wav_format),
        ),
        opt_view(new.hotwords) == said_or(env, "VOICE_ASR_LIVE_HOTWORDS"@, opt_view(before.hotwords)),
        opt_view(new.svs_lang) == said_or(env, "VOICE_ASR_LIVE_SVS_LANG"@, opt_view(before.svs_lang)),
        !env.contains_key("VOICE_ASR_LIVE_TIMEOUT_SECS"@) ==> new.timeout_secs == before.timeout_secs,
        !env.contains_key("VOICE_ASR_LIVE_KEEPALIVE_SECS"@) ==> new.keepalive_secs
            == before.keepalive_secs,
{
}

/// The rate of speech is the one that its variable names, with white space around it or without; a
/// variable that names no rate changes nothing.
pub proof fn law_rate_variable_counts(
    new: TtsConfig,
    before: TtsConfig,
    env: Map<Seq<char>, Seq<char>>,
    n: nat,
)
    requires
        tts_overridden(new, before, env),
        n <= u32::MAX,
        env.contains_key("VOICE_TTS_SAMPLE_RATE"@),
    ensures
        trim_spec(env["VOICE_TTS_SAMPLE_RATE"@]) == decimal(n) ==> new.sample_rate == Some(n as u32),
        parse_spec(trim_spec(env["VOICE_TTS_SAMPLE_RATE"@]), u32::MAX as nat) is None ==> new.sample_rate
            == before.sample_rate,
{
    law_number_is_read_back(n, u32::MAX as nat);
}

} // verus!

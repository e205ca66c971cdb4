use voice_server::config::TtsConfig;
use voice_server::error::ClientError;
use voice_server::string_map::StringMap;
use voice_server::tts::{
    answer_kind, parse_voice_list, whole_audio, HttpTtsClient, TtsAnswer, TtsRequest, TtsSseDecoder,
};
use voice_server::tts_build::{build_tts_client, TtsTransport};
use voice_server::tts_session::{NextWait, SessionEvent, SessionRequest, TtsWsInputSession};
use voice_server::tts_ws::{
    control_message, input_text, on_read, parse_control_message, Acquired, Lease, ServerMessage,
    TtsWsConfig, TtsWsPool, WsRead, IDLE_LIMIT_SECS,
};
use voice_server::voices::{
    default_sample_rate, is_supported_voice, lookup_voice, supported_sample_rates,
    supported_voice_shorts, supported_voices, validate_sample_rate_override,
};

fn parsed(s: &str) -> serde_json::Value {
    serde_json::from_str(s).unwrap()
}

#[test]
fn tts_transport_info_resolves_http_and_websocket_endpoints() {
    let mut cfg = TtsConfig::default();
    cfg.api_base = "http://127.0.0.1:8091/v1".into();

    assert_eq!(cfg.transport_kind(), "http");
    assert_eq!(cfg.resolved_endpoint(None), "http://127.0.0.1:8091/v1/audio/speech");

    cfg.transport = "websocket".into();
    assert_eq!(cfg.transport_kind(), "websocket");
    assert_eq!(
        cfg.resolved_endpoint(None),
        "ws://127.0.0.1:8091/v1/audio/speech/stream"
    );
}

#[test]
fn supported_sample_rates_opus() {
    assert_eq!(supported_sample_rates("opus"), &[48000]);
    assert_eq!(supported_sample_rates("OPUS"), &[48000]);
}

#[test]
fn supported_sample_rates_wav_pcm() {
    assert_eq!(
        supported_sample_rates("wav"),
        &[8000, 16000, 24000, 32000, 44100]
    );
    assert_eq!(supported_sample_rates("pcm"), supported_sample_rates("wav"));
    assert_eq!(supported_sample_rates("WAV"), supported_sample_rates("wav"));
}

#[test]
fn supported_sample_rates_mp3() {
    assert_eq!(supported_sample_rates("mp3"), &[32000, 44100]);
}

#[test]
fn supported_sample_rates_unknown_is_empty() {
    assert!(supported_sample_rates("flac").is_empty());
    assert!(supported_sample_rates("aac").is_empty());
    assert!(supported_sample_rates("").is_empty());
}

#[test]
fn default_sample_rate_opus() {
    assert_eq!(default_sample_rate("opus"), Some(48000));
    assert_eq!(default_sample_rate("OPUS"), Some(48000));
}

#[test]
fn default_sample_rate_wav_pcm_mp3() {
    assert_eq!(default_sample_rate("wav"), Some(44100));
    assert_eq!(default_sample_rate("pcm"), Some(44100));
    assert_eq!(default_sample_rate("mp3"), Some(44100));
}

#[test]
fn default_sample_rate_unknown_is_none() {
    assert_eq!(default_sample_rate("flac"), None);
    assert_eq!(default_sample_rate(""), None);
}

#[test]
fn build_tts_client_rejects_incompatible_sample_rate() {
    let mut cfg = TtsConfig::default();
    cfg.api_base = "http://127.0.0.1:0".to_string();
    cfg.model = "m".to_string();
    cfg.voice = "alex".to_string();
    cfg.response_format = "opus".to_string();
    cfg.sample_rate = Some(16000);

    match build_tts_client(&cfg, None) {
        Err(e) => {
            let msg = e.to_string();
            assert!(
                msg.contains("16000") && msg.contains("opus"),
                "expected error to mention both rate and format; got: {}",
                msg
            );
        }
        Ok(_) => panic!("expected build_tts_client to fail for opus + 16000Hz"),
    }
}

#[test]
fn build_tts_client_rejects_unsupported_sample_rate_for_mp3() {
    let mut cfg = TtsConfig::default();
    cfg.api_base = "http://127.0.0.1:0".to_string();
    cfg.model = "m".to_string();
    cfg.voice = "alex".to_string();
    cfg.response_format = "mp3".to_string();
    cfg.sample_rate = Some(24000);

    match build_tts_client(&cfg, None) {
        Err(e) => {
            let msg = e.to_string();
            assert!(
                msg.contains("24000") && msg.contains("mp3"),
                "expected error to mention both rate and format; got: {}",
                msg
            );
        }
        Ok(_) => panic!("expected build_tts_client to fail for mp3 + 24000Hz"),
    }
}

#[test]
fn build_tts_client_accepts_supported_sample_rate() {
    let mut cfg = TtsConfig::default();
    cfg.api_base = "http://127.0.0.1:0".to_string();
    cfg.model = "m".to_string();
    cfg.voice = "alex".to_string();
    cfg.response_format = "wav".to_string();
    cfg.sample_rate = Some(16000);

    let _client = build_tts_client(&cfg, None).expect("should accept 16000 for wav");
}

#[test]
fn build_tts_client_passes_through_when_response_format_empty() {
    let mut cfg = TtsConfig::default();
    cfg.api_base = "http://127.0.0.1:0".to_string();
    cfg.model = "m".to_string();
    cfg.voice = "alex".to_string();
    cfg.sample_rate = Some(12345);

    let _client = build_tts_client(&cfg, None)
        .expect("should pass through when response_format is empty");
}

#[test]
fn build_tts_client_accepts_model_specific_voice() {
    let mut cfg = TtsConfig::default();
    cfg.api_base = "http://127.0.0.1:0".to_string();
    cfg.model = "m".to_string();
    cfg.voice = "snake_oil".to_string();
    cfg.response_format = "pcm".to_string();

    let client = build_tts_client(&cfg, None).expect("model-specific voice should be accepted");
    assert_eq!(client.default_voice_short(), "snake_oil");
}

#[test]
fn validate_override_none_passes() {
    assert!(validate_sample_rate_override(None, "wav").is_ok());
    assert!(validate_sample_rate_override(None, "").is_ok());
    assert!(validate_sample_rate_override(None, "flac").is_ok());
}

#[test]
fn validate_override_compatible_rate_passes() {
    for fmt in ["wav", "pcm", "WAV", "PCM"] {
        for sr in [8000u32, 16000, 24000, 32000, 44100] {
            assert!(
                validate_sample_rate_override(Some(sr), fmt).is_ok(),
                "{fmt} + {sr} should pass"
            );
        }
    }
    assert!(validate_sample_rate_override(Some(48000), "opus").is_ok());
    for sr in [32000u32, 44100] {
        assert!(validate_sample_rate_override(Some(sr), "mp3").is_ok());
    }
}

#[test]
fn validate_override_incompatible_rate_bails() {
    let err = validate_sample_rate_override(Some(16000), "opus").unwrap_err();
    let msg = err.to_string();
    assert!(msg.contains("16000"), "msg should mention rate: {msg}");
    assert!(msg.contains("opus"), "msg should mention format: {msg}");
    let err = validate_sample_rate_override(Some(24000), "mp3").unwrap_err();
    assert!(err.to_string().contains("24000"));
    let err = validate_sample_rate_override(Some(48000), "wav").unwrap_err();
    assert!(err.to_string().contains("48000"));
}

#[test]
fn validate_override_empty_response_format_passes_through() {
    assert!(validate_sample_rate_override(Some(12345), "").is_ok());
}

#[test]
fn validate_override_unknown_response_format_passes_through() {
    assert!(validate_sample_rate_override(Some(12345), "flac").is_ok());
    assert!(validate_sample_rate_override(Some(12345), "aac").is_ok());
}

#[test]
fn supported_voices_matches_doc_list() {
    let expected = vec![
        "aiden", "alex", "anna", "bella", "benjamin", "charles", "claire", "david", "diana",
        "dylan", "eric", "ono_anna", "ryan", "serena", "sohee", "uncle_fu", "vivian",
    ];
    let actual = supported_voice_shorts();
    assert_eq!(actual, expected);
}

#[test]
fn lookup_voice_returns_wire_voice_for_known_shorts() {
    for (short, wire_voice) in [
        ("alex", "fnlp/MOSS-TTSD-v0.5:alex"),
        ("anna", "fnlp/MOSS-TTSD-v0.5:anna"),
        ("diana", "fnlp/MOSS-TTSD-v0.5:diana"),
    ] {
        let entry = lookup_voice(short).unwrap_or_else(|| panic!("{short} missing"));
        assert_eq!(entry.short, short);
        assert_eq!(entry.wire_voice, wire_voice);
    }
}

#[test]
fn lookup_voice_unknown_returns_none() {
    assert!(lookup_voice("snake_oil").is_none());
    assert!(lookup_voice("nobody").is_none());
    assert!(lookup_voice("").is_none());
    assert!(lookup_voice("ALEX").is_none());
    assert!(lookup_voice("fnlp/MOSS-TTSD-v0.5:alex").is_none());
}

#[test]
fn supported_voice_shorts_is_sorted() {
    let first = supported_voice_shorts();
    let second = supported_voice_shorts();
    assert_eq!(first, second);
    let mut sorted = first.clone();
    sorted.sort();
    assert_eq!(first, sorted);
}

#[test]
fn is_supported_voice_accepts_whitelist_and_rejects_others() {
    for entry in supported_voices() {
        let short = entry.short;
        assert!(is_supported_voice(short), "{short} should be supported");
    }
    assert!(!is_supported_voice(""));
    assert!(!is_supported_voice("ALEX"));
    assert!(!is_supported_voice("alex "));
    assert!(!is_supported_voice("snake_oil"));
    assert!(!is_supported_voice("FunAudioLLM/CosyVoice2-0.5B:alex"));
}

#[test]
fn vllm_omni_request_serializes_extension_fields() {
    let req = TtsRequest {
        input: Some("hello".into()),
        model: Some("Qwen/Qwen3-TTS-12Hz-1.7B-CustomVoice".into()),
        voice: Some("vivian".into()),
        response_format: Some("pcm".into()),
        speed: Some("1.25".into()),
        task_type: Some("CustomVoice".into()),
        language: Some("English".into()),
        instructions: Some("warm".into()),
        max_new_tokens: Some(128),
        initial_codec_chunk_frames: Some(1),
        non_streaming_mode: Some(false),
        stream: Some(true),
        stream_format: Some("sse".into()),
        ref_audio: Some("https://example.test/ref.wav".into()),
        ref_text: Some("reference".into()),
        x_vector_only_mode: Some(true),
        sample_rate: None,
    };
    let value = parsed(&req.to_json());
    assert_eq!(value["voice"], "vivian");
    assert_eq!(value["task_type"], "CustomVoice");
    assert_eq!(value["stream_format"], "sse");
    assert_eq!(value["initial_codec_chunk_frames"], 1);
    assert_eq!(value["x_vector_only_mode"], true);
    assert_eq!(value["speed"], 1.25);
    assert!(value.get("sample_rate").is_none());
}

#[test]
fn incremental_tts_session_interface_defaults_to_none() {
    let mut cfg = TtsConfig::default();
    cfg.api_base = "http://127.0.0.1:0".into();
    cfg.model = "m".into();
    cfg.voice = "alex".into();

    let client = build_tts_client(&cfg, None).expect("HTTP TTS client should build");
    assert!(!client.open_input_session());
    cfg.transport = "websocket".into();
    let client = build_tts_client(&cfg, None).expect("WebSocket TTS client should build");
    assert!(client.open_input_session());
}

#[test]
fn parses_vllm_speech_audio_sse_events() {
    let mut input = String::new();
    input.push_str("event: speech.audio.delta\n");
    input.push_str("data: {\"type\":\"speech.audio.delta\",\"audio\":\"AQI=\",\"response_format\":\"pcm\"}\n\n");
    input.push_str("event: speech.audio.done\n");
    input.push_str("data: {\"type\":\"speech.audio.done\",\"usage\":{\"input_tokens\":1}}\n\n");
    let mut decoder = TtsSseDecoder::new();
    let mut stream = decoder.feed(input.as_bytes()).into_iter();
    let first = stream.next().expect("delta event").expect("valid delta");
    assert_eq!(first.data, vec![1, 2]);
    assert!(!first.is_last);
    let done = stream.next().expect("done event").expect("valid done");
    assert!(done.data.is_empty());
    assert!(done.is_last);
    assert!(stream.next().is_none());
}

#[test]
fn parses_vllm_speech_audio_error_event() {
    let input = "event: speech.audio.error\ndata: {\"type\":\"speech.audio.error\",\"error\":{\"message\":\"boom\"}}\n\n";
    let mut stream = TtsSseDecoder::new().feed(input.as_bytes()).into_iter();
    let err = stream.next().expect("error event").unwrap_err();
    assert!(err.to_string().contains("boom"));
}

#[test]
fn broken_audio_is_a_decode_error() {
    let input = "event: speech.audio.delta\ndata: {\"type\":\"speech.audio.delta\",\"audio\":\"###\"}\n";
    let events = TtsSseDecoder::new().feed(input.as_bytes());
    assert!(matches!(events[0], Err(ClientError::Decode(_))));
}

fn http_client() -> HttpTtsClient {
    let mut cfg = TtsConfig::default();
    cfg.api_base = "http://tts/v1".into();
    cfg.api_key = "k".into();
    cfg.model = "m".into();
    cfg.voice = "alex".into();
    cfg.response_format = "pcm".into();
    cfg.sample_rate = Some(16000);
    match build_tts_client(&cfg, None) {
        Ok(TtsTransport::Http(c)) => c,
        _ => panic!("an HTTP client"),
    }
}

#[test]
fn speech_request_has_url_headers_and_body() {
    let client = http_client();
    let call = client.synthesize("s-1", "你好", None, Some("anna"), None).unwrap();
    assert_eq!(call.url, "http://tts/v1/audio/speech");
    assert!(call.headers.iter().any(|(n, v)| n == "x-session-id" && v == "s-1"));
    assert!(call.headers.iter().any(|(n, v)| n == "Authorization" && v == "Bearer k"));
    let body = parsed(&call.body);
    assert_eq!(body["input"], "你好");
    assert_eq!(body["voice"], "anna");
    assert_eq!(body["sample_rate"], 16000);
    assert_eq!(body["task_type"], "CustomVoice");
    assert_eq!(body["max_new_tokens"], 2048);
    let changed = client.synthesize("s-1", "x", Some(8000), None, None).unwrap();
    assert_eq!(parsed(&changed.body)["sample_rate"], 8000);
    assert_eq!(parsed(&changed.body)["voice"], "alex");
    assert!(matches!(
        client.synthesize("s-1", "x", Some(48000), None, None),
        Err(ClientError::Config(_))
    ));
}

#[test]
fn speech_answers_are_read_by_content_type() {
    assert!(matches!(answer_kind("text/event-stream"), TtsAnswer::Stream));
    assert!(matches!(answer_kind("application/x-ndjson"), TtsAnswer::Stream));
    assert!(matches!(answer_kind("audio/wav"), TtsAnswer::Audio));
    let e = whole_audio(vec![1, 2, 3]);
    assert_eq!((e.seq, e.data, e.is_last), (1, vec![1, 2, 3], true));
}

#[test]
fn voice_lists_are_read() {
    let voices = parse_voice_list(br#"{"voices":["a","b"]}"#).unwrap();
    assert_eq!(voices, vec!["a", "b"]);
    assert!(parse_voice_list(b"nonsense").is_err());
}

#[test]
fn session_config_contains_vllm_fields() {
    let cfg = TtsWsConfig {
        voice: Some("vivian".into()),
        language: Some("English".into()),
        response_format: "pcm".into(),
        stream_audio: true,
        ..Default::default()
    };
    let value = parsed(&cfg.session_config_with(None, None));
    assert_eq!(value["type"], "session.config");
    assert_eq!(value["voice"], "vivian");
    assert_eq!(value["stream_audio"], true);
}

#[test]
fn builds_input_control_messages() {
    assert_eq!(input_text("hello"), r#"{"type":"input.text","text":"hello"}"#);
    assert_eq!(control_message("input.done"), r#"{"type":"input.done"}"#);
}

#[test]
fn parses_server_control_messages() {
    assert!(matches!(
        parse_control_message(r#"{"type":"audio.start"}"#).unwrap(),
        ServerMessage::AudioStart
    ));
    assert!(matches!(
        parse_control_message(r#"{"type":"session.done"}"#).unwrap(),
        ServerMessage::SessionDone
    ));
    assert!(matches!(
        parse_control_message(r#"{"type":"audio.done","error":true}"#).unwrap(),
        ServerMessage::AudioDone { error: true }
    ));
    assert!(matches!(
        parse_control_message(r#"{"type":"error","message":"no"}"#).unwrap(),
        ServerMessage::Error(m) if m == "no"
    ));
    assert!(parse_control_message(r#"{"type":"other"}"#).is_err());
    assert!(parse_control_message("{").is_err());
}

#[test]
fn reads_of_a_connection() {
    assert!(on_read(WsRead::Ping).is_none());
    assert!(matches!(
        on_read(WsRead::Binary(vec![7])),
        Some(Ok(ServerMessage::Audio(b))) if b == vec![7]
    ));
    assert!(matches!(on_read(WsRead::Close), Some(Err(ClientError::Ws(_)))));
    assert!(matches!(on_read(WsRead::Ended), Some(Err(ClientError::Ws(_)))));
}

// ---- the pool ----

fn reused(a: Acquired) -> Lease {
    match a {
        Acquired::Reuse(l) => l,
        _ => panic!("a connection that is reused"),
    }
}

fn opened(a: Acquired) -> Lease {
    match a {
        Acquired::Connect(l) => l,
        _ => panic!("a connection that is opened"),
    }
}

#[test]
fn websocket_pool_clamps_zero_capacity() {
    assert_eq!(TtsWsPool::new(0).max_connections(), 1);
}

#[test]
fn pool_assigns_distinct_idle_entries_to_concurrent_owners() {
    let mut pool = TtsWsPool::new(2);
    let a = opened(pool.acquire("one"));
    pool.connected(&a);
    let b = opened(pool.acquire("two"));
    pool.connected(&b);
    assert!(pool.release(&a, 1));
    assert!(pool.release(&b, 1));

    let first = reused(pool.acquire("session-a"));
    let second = reused(pool.acquire("session-b"));
    assert_ne!(first.id, second.id);
    assert!(matches!(pool.acquire("session-c"), Acquired::Wait));
    assert!(pool.check_owner(&first).is_ok());
    assert!(pool.check_owner(&a).is_err());
}

#[test]
fn pool_waiter_observes_a_racing_release_notification() {
    let mut pool = TtsWsPool::new(1);
    let a = opened(pool.acquire("owner"));
    pool.connected(&a);
    assert!(matches!(pool.acquire("waiting-session"), Acquired::Wait));
    assert!(pool.release(&a, 1));
    let lease = reused(pool.acquire("waiting-session"));
    assert_eq!(lease.id, a.id);
    assert_eq!(lease.session_id, "waiting-session");
}

#[test]
fn idle_reaper_removes_connection_after_twenty_seconds() {
    let mut pool = TtsWsPool::new(1);
    let a = opened(pool.acquire("owner"));
    pool.connected(&a);
    assert!(pool.release(&a, 100));
    assert!(!pool.reap(a.id, a.lease_id, 99 + IDLE_LIMIT_SECS * 1000));
    assert_eq!(pool.len(), 1);
    assert!(pool.reap(a.id, a.lease_id, 100 + IDLE_LIMIT_SECS * 1000));
    assert_eq!(pool.len(), 0);
}

#[test]
fn stale_idle_reaper_cannot_remove_a_reassigned_connection() {
    let mut pool = TtsWsPool::new(1);
    let a = opened(pool.acquire("owner"));
    pool.connected(&a);
    assert!(pool.release(&a, 0));
    let b = reused(pool.acquire("new-owner"));
    assert!(!pool.reap(a.id, a.lease_id, 30_000));
    assert_eq!(pool.len(), 1);
    assert!(pool.check_owner(&b).is_ok());
}

#[test]
fn closed_pool_holds_nothing() {
    let mut pool = TtsWsPool::new(2);
    let a = opened(pool.acquire("owner"));
    pool.connected(&a);
    pool.invalidate(a.id);
    assert_eq!(pool.len(), 0);
    let b = opened(pool.acquire("owner"));
    assert_ne!(a.id, b.id);
    pool.close();
    assert!(pool.ids().is_empty());
}

// ---- a session ----

/// Answers the requests of a session until an operation is over; returns the frames.
fn drive(
    session: &mut TtsWsInputSession,
    first: SessionRequest,
    pool: &mut TtsWsPool,
    cfg: &TtsWsConfig,
) -> Vec<String> {
    let mut frames = Vec::new();
    let mut request = first;
    loop {
        request = match request {
            SessionRequest::Acquire { give_up, send_config } => {
                if let Some(id) = give_up {
                    pool.invalidate(id);
                }
                let lease = match pool.acquire("protocol-session") {
                    Acquired::Reuse(l) => l,
                    Acquired::Connect(l) => {
                        pool.connected(&l);
                        l
                    }
                    Acquired::Wait => panic!("no room"),
                };
                if send_config {
                    frames.push(cfg.session_config_with(None, None));
                }
                session.acquired(Ok(lease))
            }
            SessionRequest::Send { frame, .. } => {
                frames.push(frame);
                session.sent(Ok(()), 5)
            }
            SessionRequest::Done(r) => {
                r.unwrap();
                return frames;
            }
        };
    }
}

#[test]
fn websocket_protocol_keeps_session_config_first_and_reuses_connection() {
    let cfg = TtsWsConfig { voice: Some("vivian".into()), ..Default::default() };
    let mut pool = TtsWsPool::new(cfg.max_connections);
    let mut session = TtsWsInputSession::new();
    let mut messages = Vec::new();
    for text in ["第一句。", "第二句。"] {
        let request = session.send_text(text);
        messages.extend(drive(&mut session, request, &mut pool, &cfg));
        let request = session.flush();
        messages.extend(drive(&mut session, request, &mut pool, &cfg));
        let answers = vec![
            ServerMessage::AudioStart,
            ServerMessage::Audio(vec![1, 0, 2, 0]),
            ServerMessage::AudioDone { error: false },
            ServerMessage::SessionDone,
        ];
        let mut last = false;
        let mut audio = Vec::new();
        for answer in answers {
            if let SessionEvent::Event(e) = session.next_event(Ok(answer)) {
                audio.extend(e.data);
                last = e.is_last;
            }
        }
        assert!(last);
        assert_eq!(audio, vec![1, 0, 2, 0]);
    }
    let lease = session.finish().unwrap();
    assert!(pool.release(&lease, 9));
    assert_eq!(pool.len(), 1);
    assert_eq!(
        messages,
        vec![
            r#"{"type":"session.config","voice":"vivian","response_format":"pcm"}"#,
            r#"{"type":"input.text","text":"第一句。"}"#,
            r#"{"type":"input.done"}"#,
            r#"{"type":"input.text","text":"第二句。"}"#,
            r#"{"type":"input.done"}"#,
        ]
    );
}

#[test]
fn broken_connection_is_replaced_once() {
    let mut session = TtsWsInputSession::new();
    let lease = |id: u64| Lease { id, lease_id: 1, session_id: "s".to_string() };
    assert!(matches!(
        session.send_text("你好"),
        SessionRequest::Acquire { give_up: None, .. }
    ));
    assert!(matches!(session.acquired(Ok(lease(1))), SessionRequest::Send { connection: 1, .. }));
    let broken = ClientError::Ws("gone".to_string());
    let again = session.sent(Err(broken), 0);
    assert!(matches!(again, SessionRequest::Acquire { give_up: Some(1), send_config: true }));
    assert!(matches!(session.acquired(Ok(lease(2))), SessionRequest::Send { connection: 2, .. }));
    let failed = session.sent(Err(ClientError::Ws("gone".to_string())), 0);
    assert!(matches!(failed, SessionRequest::Done(Err(ClientError::Ws(_)))));
}

#[test]
fn waiting_for_speech_has_an_end() {
    let session = TtsWsInputSession::new();
    assert!(matches!(session.next_wait(0, 1000), NextWait::Ended));
}

#[test]
fn http_headers_of_the_configuration_are_sent() {
    let mut client = http_client();
    let mut headers = StringMap::new();
    headers.insert("x-region".to_string(), "cn".to_string());
    client.extra_headers = headers;
    let call = client.list_voices();
    assert!(call.headers.iter().any(|(n, v)| n == "x-region" && v == "cn"));
}

use voice_server::asr_stream::{
    self, error_line, parse_client_text, realtime_event_line, AsrStream, AsrStreamCfg,
    ClientCommand, RealtimeEvent, StreamAction, StreamEvent,
};
use voice_server::config::{
    AsrConfig, BackendError, CliOverrides, MemoryBackend, ProviderConfig, VoiceConfig,
};
use voice_server::funasr::{FunasrClose, FunasrEvent, FunasrMode, FunasrResponse, FunasrResponseMode};
use voice_server::live_asr::{
    self, dispatch, drive_recv, on_session_start, AfterSend, AsrLiveCfg, ChunkAction, EndAction,
    LiveAsrState, LiveCommand, RecvAction, ResultView, SetupAction, CHUNK_BYTES,
};
use voice_server::payload::VoicePayload;
use voice_server::string_map::StringMap;

fn env(vars: &[(&str, &str)]) -> StringMap {
    let mut m = StringMap::new();
    for (k, v) in vars {
        m.insert(k.to_string(), v.to_string());
    }
    m
}

// ---- configuration of live recognition ----

#[test]
fn cfg_defaults_local_two_pass_16k() {
    let cfg = AsrLiveCfg::default();
    assert_eq!(cfg.endpoint(), "ws://127.0.0.1:10095/");
    assert_eq!(cfg.mode(), FunasrMode::TwoPass);
    assert_eq!(cfg.wav_format(), "pcm");
    assert!(cfg.itn());
    assert!(cfg.svs_itn());
    assert!(cfg.chunk_size().is_none());
}

#[test]
fn cfg_mode_parses_doc_values() {
    let cfg = AsrLiveCfg {
        mode: Some("offline".into()),
        ..Default::default()
    };
    assert_eq!(cfg.mode(), FunasrMode::Offline);
    let cfg = AsrLiveCfg {
        mode: Some("online".into()),
        ..Default::default()
    };
    assert_eq!(cfg.mode(), FunasrMode::Online);
    let cfg = AsrLiveCfg {
        mode: Some("2pass".into()),
        ..Default::default()
    };
    assert_eq!(cfg.mode(), FunasrMode::TwoPass);
    let cfg = AsrLiveCfg {
        mode: Some("bogus".into()),
        ..Default::default()
    };
    assert_eq!(cfg.mode(), FunasrMode::TwoPass);
}

#[test]
fn cfg_endpoint_falls_back_to_local_default() {
    let cfg = AsrLiveCfg::default();
    assert_eq!(cfg.endpoint(), "ws://127.0.0.1:10095/");
    let cfg = AsrLiveCfg {
        endpoint: Some("ws://my-funasr.local:9999/".into()),
        ..Default::default()
    };
    assert_eq!(cfg.endpoint(), "ws://my-funasr.local:9999/");
}

#[test]
fn cfg_chunk_size_requires_len_3() {
    let cfg = AsrLiveCfg {
        chunk_size: Some(vec![5, 10, 5]),
        ..Default::default()
    };
    assert_eq!(cfg.chunk_size(), Some(vec![5, 10, 5]));
    let cfg = AsrLiveCfg {
        chunk_size: Some(vec![5, 10]),
        ..Default::default()
    };
    assert!(cfg.chunk_size().is_none());
    let cfg = AsrLiveCfg {
        chunk_size: Some(vec![5, 10, 5, 6]),
        ..Default::default()
    };
    assert!(cfg.chunk_size().is_none());
}

#[test]
fn cfg_into_client_config_default_local() {
    let cfg = AsrLiveCfg::default();
    let c = cfg.into_client_config(None, 0, 0).unwrap();
    assert_eq!(c.endpoint, "ws://127.0.0.1:10095/");
    assert_eq!(c.mode, FunasrMode::TwoPass);
    assert_eq!(c.sample_rate, 16000);
    assert_eq!(c.channels, 1);
    assert_eq!(c.wav_format, "pcm");
    assert!(c.itn);
    assert!(c.svs_itn);
    assert_eq!(c.chunk_size, Some(vec![5, 10, 5]));
    assert_eq!(c.wav_name, "default");
}

#[test]
fn cfg_into_client_config_uses_browser_sample_rate() {
    let cfg = AsrLiveCfg {
        ..Default::default()
    };
    let c = cfg.into_client_config(Some("browser-1"), 8000, 2).unwrap();
    assert_eq!(c.sample_rate, 8000);
    assert_eq!(c.channels, 2);
    assert_eq!(c.wav_name, "browser-1");
}

#[test]
fn cfg_into_client_config_falls_back_when_browser_zero() {
    let cfg = AsrLiveCfg::default();
    let c = cfg.into_client_config(Some("x"), 0, 0).unwrap();
    assert_eq!(c.sample_rate, 16000);
    assert_eq!(c.channels, 1);
}

#[test]
fn cfg_into_client_config_wav_name_resolution() {
    let cfg = AsrLiveCfg {
        wav_name: Some("from-config".into()),
        ..Default::default()
    };
    let c = cfg.into_client_config(Some("from-browser"), 0, 0).unwrap();
    assert_eq!(c.wav_name, "from-browser");
    let c = cfg.into_client_config(None, 0, 0).unwrap();
    assert_eq!(c.wav_name, "from-config");
    let c = cfg.into_client_config(Some("   "), 0, 0).unwrap();
    assert_eq!(c.wav_name, "from-config");
    let cfg = AsrLiveCfg::default();
    let c = cfg.into_client_config(None, 0, 0).unwrap();
    assert_eq!(c.wav_name, "default");
}

#[test]
fn cfg_into_client_config_with_hotwords_and_chunk() {
    let cfg = AsrLiveCfg {
        endpoint: Some("ws://funasr.local:10095/".into()),
        mode: Some("online".into()),
        wav_name: Some("live-x".into()),
        wav_format: Some("pcm".into()),
        chunk_size: Some(vec![3, 6, 3]),
        hotwords: Some(r#"{"阿里巴巴":20}"#.into()),
        svs_lang: Some("zh".into()),
        itn: Some(false),
        svs_itn: Some(false),
        ..Default::default()
    };
    let c = cfg.into_client_config(None, 8000, 1).unwrap();
    assert_eq!(c.endpoint, "ws://funasr.local:10095/");
    assert_eq!(c.mode, FunasrMode::Online);
    assert_eq!(c.wav_name, "live-x");
    assert_eq!(c.sample_rate, 8000);
    assert_eq!(c.channels, 1);
    assert_eq!(c.wav_format, "pcm");
    assert_eq!(c.chunk_size, Some(vec![3, 6, 3]));
    assert_eq!(c.hotwords.as_deref(), Some(r#"{"阿里巴巴":20}"#));
    assert_eq!(c.svs_lang.as_deref(), Some("zh"));
    assert!(!c.itn);
    assert!(!c.svs_itn);
}

#[test]
fn cfg_into_client_config_uses_default_when_endpoint_blank() {
    let cfg = AsrLiveCfg {
        endpoint: Some("   ".into()),
        ..Default::default()
    };
    let c = cfg.into_client_config(None, 0, 0).expect("blank endpoint 应回落到本地默认");
    assert_eq!(c.endpoint, "ws://127.0.0.1:10095/");
}

// ---- recognition for a browser ----

#[test]
fn realtime_event_line_shapes() {
    assert_eq!(
        realtime_event_line(&RealtimeEvent::Partial { text: "你好".into() }),
        r#"{"text":"你好","type":"partial"}"#
    );
    assert_eq!(
        realtime_event_line(&RealtimeEvent::Final { text: "你好。".into() }),
        r#"{"text":"你好。","type":"final"}"#
    );
    assert_eq!(
        realtime_event_line(&RealtimeEvent::SpeechStarted),
        r#"{"type":"speech_started"}"#
    );
    assert_eq!(
        realtime_event_line(&RealtimeEvent::SpeechStopped),
        r#"{"type":"speech_stopped"}"#
    );
    assert_eq!(
        realtime_event_line(&RealtimeEvent::Finished),
        r#"{"type":"finished"}"#
    );
}

#[test]
fn error_line_shape() {
    assert_eq!(
        error_line("boom"),
        r#"{"message":"boom","type":"error"}"#
    );
}

#[test]
fn env_overrides_yaml() {
    let vars = env(&[
        ("DASHSCOPE_API_KEY", "sk-dash"),
        ("VOICE_ASR_STREAM_API_KEY", "sk-precise"),
        ("VOICE_ASR_STREAM_MODEL", "qwen3-asr-flash-realtime-2026-02-10"),
        ("VOICE_ASR_STREAM_WORKSPACE_ID", "llm-env"),
        ("VOICE_ASR_STREAM_REGION", "ap-southeast-1"),
    ]);
    let mut cfg = AsrStreamCfg {
        api_key: Some("sk-yaml".into()),
        model: Some("qwen3-asr-flash-realtime".into()),
        ..Default::default()
    };
    cfg.apply_env_overrides(&vars);

    assert_eq!(cfg.api_key.as_deref(), Some("sk-precise"));
    assert_eq!(cfg.model.as_deref(), Some("qwen3-asr-flash-realtime-2026-02-10"));
    assert_eq!(cfg.workspace_id.as_deref(), Some("llm-env"));
    assert_eq!(cfg.region.as_deref(), Some("ap-southeast-1"));
}

#[test]
fn stream_configuration_has_defaults() {
    let cfg = asr_stream::load_cfg(AsrStreamCfg::default(), &env(&[("DASHSCOPE_API_KEY", "  ")]));
    assert_eq!(cfg.model(), "qwen3-asr-flash-realtime");
    assert_eq!(cfg.sample_rate(), 16000);
    assert_eq!(cfg.api_key, None);
    assert!(cfg.checked_key().unwrap_err().starts_with("asr_stream.api_key 未配置"));
    let cfg = asr_stream::load_cfg(cfg, &env(&[("DASHSCOPE_API_KEY", "k")]));
    assert_eq!(cfg.checked_key().unwrap(), "k");
}

#[test]
fn client_commands_are_read() {
    assert!(matches!(parse_client_text(r#"{"type":"start"}"#), ClientCommand::Start));
    assert!(matches!(parse_client_text(r#"{"type":"finish"}"#), ClientCommand::Finish));
    assert!(matches!(parse_client_text(r#"{"type":"stop"}"#), ClientCommand::Stop));
    assert!(matches!(parse_client_text(r#"{"type":"x"}"#), ClientCommand::Unknown(Some(t)) if t == "x"));
    assert!(matches!(parse_client_text("[1]"), ClientCommand::Unknown(None)));
    assert!(matches!(parse_client_text("{"), ClientCommand::Invalid(_)));
}

#[test]
fn browser_session_from_start_to_end() {
    let mut s = AsrStream::new();
    let step = s.step(StreamEvent::Audio(vec![1]));
    assert_eq!(step.line.unwrap(), error_line("尚未 start，音频帧被丢弃"));
    let step = s.handle_client_text(r#"{"type":"finish"}"#);
    assert_eq!(step.line.unwrap(), error_line("尚未 start，无法 finish"));
    let step = s.handle_client_text(r#"{"type":"start"}"#);
    assert!(matches!(step.action, StreamAction::Start(name) if name == "asr-stream-1"));
    let step = s.step(StreamEvent::Started);
    assert_eq!(step.line.unwrap(), r#"{"session_id":"asr-stream-1","type":"started"}"#);
    let step = s.handle_client_text(r#"{"type":"start"}"#);
    assert_eq!(step.line.unwrap(), error_line("会话已在进行中，先 stop 或 finish"));
    let step = s.step(StreamEvent::Audio(vec![1, 2]));
    assert!(matches!(step.action, StreamAction::Send(b) if b == vec![1, 2]));
    let step = s.step(StreamEvent::Service(RealtimeEvent::Partial { text: "你".into() }));
    assert_eq!(step.line.unwrap(), r#"{"text":"你","type":"partial"}"#);
    assert!(matches!(s.handle_client_text(r#"{"type":"finish"}"#).action, StreamAction::Finish));
    let step = s.step(StreamEvent::Service(RealtimeEvent::Finished));
    assert_eq!(step.line.unwrap(), r#"{"type":"finished"}"#);
    assert!(!s.is_active());
    assert!(s.step(StreamEvent::ServiceEnded).line.is_none());
    let step = s.handle_client_text(r#"{"type":"start"}"#);
    assert!(matches!(step.action, StreamAction::Start(name) if name == "asr-stream-2"));
    let step = s.step(StreamEvent::StartFailed("no key".into()));
    assert_eq!(step.line.unwrap(), error_line("no key"));
    let step = s.handle_client_text(r#"{}"#);
    assert_eq!(step.line.unwrap(), error_line("未知消息 type: <missing>"));
}

#[test]
fn browser_session_is_stopped_or_fails() {
    let mut s = AsrStream::new();
    assert!(s.handle_client_text(r#"{"type":"stop"}"#).line.is_none());
    s.handle_client_text(r#"{"type":"start"}"#);
    s.step(StreamEvent::Started);
    let step = s.handle_client_text(r#"{"type":"stop"}"#);
    assert_eq!(step.line.unwrap(), r#"{"type":"stopped"}"#);
    assert!(matches!(step.action, StreamAction::Abandon));
    assert!(s.step(StreamEvent::ServiceFailed("late".into())).line.is_none());
    s.handle_client_text(r#"{"type":"start"}"#);
    s.step(StreamEvent::Started);
    let step = s.step(StreamEvent::ServiceFailed("boom".into()));
    assert_eq!(step.line.unwrap(), error_line("boom"));
    assert!(!s.is_active());
}

// ---- live recognition ----

#[test]
fn live_configuration_takes_the_environment() {
    let cfg = live_asr::load_cfg(
        AsrLiveCfg::default(),
        &env(&[
            ("VOICE_ASR_LIVE_MODE", "offline"),
            ("VOICE_ASR_LIVE_TIMEOUT_SECS", "x"),
            ("VOICE_ASR_LIVE_KEEPALIVE_SECS", "7"),
        ]),
    );
    assert_eq!(cfg.mode(), FunasrMode::Offline);
    assert_eq!(cfg.timeout_secs, None);
    assert_eq!(cfg.keepalive_secs, Some(7));
}

#[test]
fn audio_before_the_connection_is_kept() {
    let mut s = LiveAsrState::pending();
    assert!(matches!(s.on_audio_chunk(vec![1; CHUNK_BYTES], false), ChunkAction::Buffer));
    assert!(matches!(s.on_audio_chunk(vec![2; 5], true), ChunkAction::Buffer));
    match s.on_connected() {
        SetupAction::Finish(parts) => {
            assert_eq!(parts.len(), 2);
            assert_eq!(parts[0], vec![1; CHUNK_BYTES]);
            assert_eq!(parts[1], vec![2; 5]);
        }
        SetupAction::Ready => panic!("the last piece came already"),
    }
}

#[test]
fn audio_after_the_connection_is_sent_behind_what_was_kept() {
    let mut s = LiveAsrState::pending();
    assert!(matches!(s.on_audio_chunk(vec![1; CHUNK_BYTES + 1], false), ChunkAction::Buffer));
    assert!(matches!(s.on_connected(), SetupAction::Ready));
    match s.on_audio_chunk(vec![3; CHUNK_BYTES + 1], true) {
        ChunkAction::Send(parts) => {
            let sizes: Vec<usize> = parts.iter().map(|p| p.len()).collect();
            assert_eq!(sizes, vec![CHUNK_BYTES, 1, CHUNK_BYTES + 1]);
            assert_eq!(parts[2], vec![3; CHUNK_BYTES + 1]);
        }
        _ => panic!("audio is sent"),
    }
    assert!(matches!(s.on_sent(true, true), AfterSend::Finish));
}

#[test]
fn audio_after_a_failed_connection_is_dropped() {
    let mut s = LiveAsrState::pending();
    s.on_connect_failed();
    assert!(matches!(s.on_audio_chunk(vec![1], false), ChunkAction::Drop));
    assert!(matches!(s.on_session_end(), EndAction::Ignore | EndAction::Finish(_)));
}

fn result(mode: FunasrResponseMode, text: &str, is_final: bool) -> FunasrEvent {
    FunasrEvent::Message(FunasrResponse { mode, text: text.into(), is_final })
}

#[test]
fn results_are_shown_as_they_come() {
    let mut view = ResultView::new();
    let first = drive_recv(&mut view, "s", result(FunasrResponseMode::TwoPassOnline, "你好", false));
    assert!(matches!(
        first,
        RecvAction::Send(VoicePayload::AsrPartial { text, is_final: false, .. }) if text == "你好"
    ));
    let fixed = drive_recv(&mut view, "s", result(FunasrResponseMode::TwoPassOffline, "你好。", true));
    assert!(matches!(
        fixed,
        RecvAction::Send(VoicePayload::AsrPartial { text, is_final: true, .. }) if text == "你好。"
    ));
    assert!(matches!(
        drive_recv(&mut view, "s", FunasrEvent::Close(FunasrClose::normal())),
        RecvAction::Stop | RecvAction::SendAndStop(_)
    ));
}

#[test]
fn live_messages_are_told_apart() {
    assert!(matches!(
        dispatch(VoicePayload::AudioChunk { seq: 1, timestamp_ms: 0, data: vec![9], is_last: true }),
        LiveCommand::Audio { data, is_last: true } if data == vec![9]
    ));
    assert!(matches!(
        dispatch(VoicePayload::SessionEnd { reason: "bye".into() }),
        LiveCommand::End
    ));
    let cfg = AsrLiveCfg::default();
    let started = on_session_start(false, &cfg, "s-1", 8000, 1).unwrap();
    assert_eq!(started.sample_rate, 8000);
    assert!(on_session_start(true, &cfg, "s-1", 8000, 1).is_err());
}

// ---- the server's configuration ----

#[test]
fn apply_env_tts_sample_rate_override_and_invalid() {
    let mut cfg = VoiceConfig::default();
    cfg.apply_env_overrides(&env(&[("VOICE_TTS_SAMPLE_RATE", "24000")]));
    assert_eq!(cfg.tts.sample_rate, Some(24000));

    let mut cfg = VoiceConfig::default();
    cfg.apply_env_overrides(&env(&[("VOICE_TTS_SAMPLE_RATE", "not-a-number")]));
    assert_eq!(cfg.tts.sample_rate, None);
}

#[test]
fn section_takes_over_what_the_provider_says() {
    let mut provider = ProviderConfig::default();
    provider.api_base = "https://api/v1".into();
    provider.api_key = "sk".into();
    provider.headers.insert("X-Region".into(), "cn".into());
    let mut asr = AsrConfig::default();
    assert_eq!(asr.model, "sensevoice");
    let resolved = asr.resolved(Some(&provider));
    assert_eq!(resolved.api_base, "https://api/v1");
    assert!(resolved.headers.contains_key("X-Region"));
    asr.api_base = "http://own".into();
    assert_eq!(asr.resolved(Some(&provider)).api_base, "http://own");
    assert_eq!(asr.resolved(Some(&provider)).api_key, "sk");
}

#[test]
fn headers_that_cannot_be_sent_are_left_out() {
    let mut provider = ProviderConfig::default();
    provider.headers.insert("X-Good".into(), "yes".into());
    provider.headers.insert("bad name".into(), "x".into());
    provider.headers.insert("X-Bad".into(), "a\nb".into());
    let sent = provider.to_header_map();
    assert_eq!(sent.len(), 1);
    assert_eq!(sent.entries()[0].1, "yes");
}

#[test]
fn command_line_wins_over_the_environment() {
    let mut cfg = VoiceConfig::default();
    cfg.apply_env_overrides(&env(&[("VOICE_PORT", "9000"), ("VOICE_LOG_LEVEL", "debug")]));
    assert_eq!(cfg.server.port, 9000);
    cfg.apply_cli(CliOverrides { port: Some(9100), log_level: None, log_file: None });
    assert_eq!(cfg.server.port, 9100);
}

#[test]
fn memory_backend_is_chosen() {
    let mut cfg = VoiceConfig::default();
    assert!(matches!(cfg.memory_backend(), Ok(MemoryBackend::InMemory { window: 20 })));
    cfg.agent.memory_backend = "redis".into();
    assert!(matches!(cfg.memory_backend(), Err(BackendError::NoRedisUrl)));
    cfg.redis.url = Some("redis://x".into());
    match cfg.memory_backend() {
        Ok(MemoryBackend::Redis { url, key_prefix, ttl_secs, .. }) => {
            assert_eq!(url, "redis://x");
            assert_eq!(key_prefix, "voice:memory:");
            assert_eq!(ttl_secs, 3600);
        }
        _ => panic!("a redis store"),
    }
    cfg.agent.memory_backend = "tape".into();
    assert!(matches!(cfg.memory_backend(), Err(BackendError::Unknown(n)) if n == "tape"));
}

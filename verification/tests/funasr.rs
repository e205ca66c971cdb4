use async_tungstenite::tungstenite::protocol::frame::coding::CloseCode;

use voice_server::error::ClientError;
use voice_server::funasr::{
    build_first_frame, classify_mode, finish_frame, on_frame, parse_server_event, FrameRead,
    FunasrClient, FunasrClose, FunasrConfig, FunasrEvent, FunasrMode, FunasrResponse,
    FunasrResponseMode,
};
use voice_server::handshake::{handshake_with_key, HandshakeRequest};
use voice_server::string_map::StringMap;

fn parsed(s: &str) -> serde_json::Value {
    serde_json::from_str(s).unwrap()
}

fn header(req: &HandshakeRequest, name: &str) -> Option<String> {
    req.headers.entries().iter().find(|(n, _)| n.eq_ignore_ascii_case(name)).map(|(_, v)| v.clone())
}

#[test]
fn funasr_mode_as_str_matches_doc() {
    assert_eq!(FunasrMode::Offline.as_str(), "offline");
    assert_eq!(FunasrMode::Online.as_str(), "online");
    assert_eq!(FunasrMode::TwoPass.as_str(), "2pass");
}

#[test]
fn funasr_response_mode_classify_all_doc_values() {
    assert_eq!(classify_mode("online"), FunasrResponseMode::Online);
    assert_eq!(
        classify_mode("2pass-online"),
        FunasrResponseMode::TwoPassOnline
    );
    assert_eq!(
        classify_mode("2pass-offline"),
        FunasrResponseMode::TwoPassOffline
    );
    assert_eq!(classify_mode("offline"), FunasrResponseMode::Offline);
    match classify_mode("something-new") {
        FunasrResponseMode::Other(s) => assert_eq!(s, "something-new"),
        _ => panic!("unknown mode 应归 Other"),
    }
}

#[test]
fn funasr_response_mode_is_cumulative_and_correction() {
    assert!(FunasrResponseMode::Online.is_cumulative());
    assert!(FunasrResponseMode::TwoPassOnline.is_cumulative());
    assert!(!FunasrResponseMode::Offline.is_cumulative());
    assert!(!FunasrResponseMode::TwoPassOffline.is_cumulative());
    assert!(FunasrResponseMode::TwoPassOffline.is_correction());
    assert!(!FunasrResponseMode::Online.is_correction());
}

#[test]
fn funasr_parse_response_exposes_mode() {
    let resp = r#"{
        "mode": "2pass-online",
        "wav_name": "x",
        "text": "你",
        "is_final": false
    }"#;
    let bytes = resp.as_bytes();
    let out = parse_server_event(bytes).unwrap().unwrap();
    assert_eq!(out.mode, FunasrResponseMode::TwoPassOnline);
    assert_eq!(out.text, "你");
    assert!(!out.is_final);
}

#[test]
fn funasr_default_config_is_local_two_pass_16k() {
    let c = FunasrConfig::default();
    assert_eq!(c.endpoint, "ws://127.0.0.1:10095/");
    assert_eq!(c.mode, FunasrMode::TwoPass);
    assert_eq!(c.wav_format, "pcm");
    assert_eq!(c.sample_rate, 16000);
    assert_eq!(c.channels, 1);
    assert_eq!(c.itn, true);
    assert_eq!(c.svs_itn, true);
    assert!(c.chunk_size.is_some());
    assert!(c.hotwords.is_none());
    assert!(c.svs_lang.is_none());
}

#[test]
fn funasr_first_frame_two_pass_with_hotwords_and_svs() {
    let cfg = FunasrConfig {
        endpoint: "ws://127.0.0.1:10095/".into(),
        mode: FunasrMode::TwoPass,
        wav_name: "live-1".into(),
        wav_format: "pcm".into(),
        sample_rate: 16000,
        channels: 1,
        chunk_size: Some(vec![5, 10, 5]),
        hotwords: Some(r#"{"阿里巴巴":20,"通义实验室":30}"#.to_string()),
        itn: true,
        svs_lang: Some("zh".into()),
        svs_itn: true,
        extra_headers: Default::default(),
        timeout_secs: 30,
        keepalive_secs: 20,
    };
    let s = build_first_frame(&cfg);
    let v = parsed(&s);
    assert_eq!(v["mode"], "2pass");
    assert_eq!(v["wav_name"], "live-1");
    assert_eq!(v["is_speaking"], true);
    assert_eq!(v["wav_format"], "pcm");
    assert_eq!(v["audio_fs"], 16000);
    assert_eq!(v["chunk_size"], parsed("[5, 10, 5]"));
    assert_eq!(v["hotwords"], r#"{"阿里巴巴":20,"通义实验室":30}"#);
    assert_eq!(v["svs_lang"], "zh");
    assert_eq!(v["itn"], true);
    assert_eq!(v["svs_itn"], true);
}

#[test]
fn funasr_first_frame_offline_omits_chunk_size() {
    let cfg = FunasrConfig {
        mode: FunasrMode::Offline,
        chunk_size: None,
        ..Default::default()
    };
    let s = build_first_frame(&cfg);
    let v = parsed(&s);
    assert_eq!(v["mode"], "offline");
    assert!(v.get("chunk_size").is_none());
}

#[test]
fn funasr_first_frame_omits_none_optional_fields() {
    let cfg = FunasrConfig {
        chunk_size: None,
        hotwords: None,
        svs_lang: None,
        ..Default::default()
    };
    let s = build_first_frame(&cfg);
    let v = parsed(&s);
    assert!(v.get("chunk_size").is_none());
    assert!(v.get("hotwords").is_none());
    assert!(v.get("svs_lang").is_none());
}

#[test]
fn funasr_first_frame_8k_for_telephony() {
    let cfg = FunasrConfig {
        sample_rate: 8000,
        ..Default::default()
    };
    let s = build_first_frame(&cfg);
    let v = parsed(&s);
    assert_eq!(v["audio_fs"], 8000);
}

#[test]
fn funasr_parse_partial_2pass_online() {
    let resp = r#"{
        "mode": "2pass-online",
        "wav_name": "x",
        "text": "你好",
        "is_final": false,
        "timestamp": "[]",
        "stamp_sents": []
    }"#;
    let bytes = resp.as_bytes();
    let out = parse_server_event(bytes).unwrap().unwrap();
    assert_eq!(out.text, "你好");
    assert!(!out.is_final);
}

#[test]
fn funasr_parse_sentence_boundary_2pass_online_final() {
    let resp = r#"{
        "mode": "2pass-online",
        "wav_name": "x",
        "text": "你好世界。",
        "is_final": true
    }"#;
    let bytes = resp.as_bytes();
    let out = parse_server_event(bytes).unwrap().unwrap();
    assert_eq!(out.text, "你好世界。");
    assert!(out.is_final);
}

#[test]
fn funasr_parse_2pass_offline_is_correction_result() {
    let resp = r#"{
        "mode": "2pass-offline",
        "wav_name": "x",
        "text": "你好世界。",
        "is_final": true
    }"#;
    let bytes = resp.as_bytes();
    let out = parse_server_event(bytes).unwrap().unwrap();
    assert_eq!(out.text, "你好世界。");
    assert!(out.is_final);
}

#[test]
fn funasr_parse_offline_single_response() {
    let resp = r#"{
        "mode": "offline",
        "wav_name": "x",
        "text": "完整文本",
        "is_final": false
    }"#;
    let bytes = resp.as_bytes();
    let out = parse_server_event(bytes).unwrap().unwrap();
    assert_eq!(out.text, "完整文本");
    assert!(!out.is_final);
}

#[test]
fn funasr_parse_response_with_timestamp_and_stamp_sents() {
    let resp = r#"{
        "mode": "2pass-online",
        "wav_name": "x",
        "text": "你好",
        "is_final": false,
        "timestamp": "[[100,200],[200,500]]",
        "stamp_sents": [
            {"text_seg": "你", "punc": "", "start": 100, "end": 200, "ts_list": [[100,200]]}
        ]
    }"#;
    let bytes = resp.as_bytes();
    let out = parse_server_event(bytes).unwrap().unwrap();
    assert_eq!(out.text, "你好");
}

#[test]
fn funasr_parse_response_empty_mode_returns_none() {
    let resp = r#"{"text": "foo", "is_final": false}"#;
    let bytes = resp.as_bytes();
    assert!(parse_server_event(bytes).unwrap().is_none());
}

#[test]
fn funasr_parse_invalid_json_returns_err() {
    assert!(parse_server_event(b"not json").is_err());
}

#[test]
fn funasr_parse_response_missing_text_defaults_empty() {
    let resp = r#"{"mode": "2pass-online", "is_final": false}"#;
    let bytes = resp.as_bytes();
    let out = parse_server_event(bytes).unwrap().unwrap();
    assert_eq!(out.text, "");
    assert!(!out.is_final);
}

#[test]
fn funasr_parse_response_online_mode_partial() {
    let resp = r#"{
        "mode": "online",
        "wav_name": "x",
        "text": "你好",
        "is_final": false
    }"#;
    let bytes = resp.as_bytes();
    let out = parse_server_event(bytes).unwrap().unwrap();
    assert_eq!(out.text, "你好");
    assert!(!out.is_final);
}

#[test]
fn funasr_handshake_request_accepts_plain_ws_scheme() {
    let client = FunasrClient::new(FunasrConfig {
        endpoint: "ws://127.0.0.1:10095/".into(),
        ..Default::default()
    });
    let req = client.build_handshake_request().unwrap();
    assert_eq!(
        Some(req.scheme.as_str()),
        Some("ws"),
        "本地 FunASR 必须是 ws scheme"
    );
}

#[test]
fn funasr_handshake_request_accepts_wss_scheme() {
    let client = FunasrClient::new(FunasrConfig {
        endpoint: "wss://funasr.example.com/ws".into(),
        ..Default::default()
    });
    let req = client.build_handshake_request().unwrap();
    assert_eq!(Some(req.scheme.as_str()), Some("wss"));
}

#[test]
fn funasr_handshake_request_invalid_url_errors() {
    let client = FunasrClient::new(FunasrConfig {
        endpoint: "not a url".into(),
        ..Default::default()
    });
    assert!(client.build_handshake_request().is_err());
}

#[test]
fn funasr_handshake_request_applies_extra_headers() {
    let mut headers = StringMap::new();
    headers.insert("X-Custom".into(), "value".into());
    let client = FunasrClient::new(FunasrConfig {
        endpoint: "ws://127.0.0.1:10095/".into(),
        extra_headers: headers,
        ..Default::default()
    });
    let req = client.build_handshake_request().unwrap();
    assert_eq!(header(&req, "X-Custom").unwrap(), "value");
}

#[test]
fn funasr_handshake_request_sets_binary_subprotocol() {
    let client = FunasrClient::new(FunasrConfig {
        endpoint: "ws://127.0.0.1:10095/".into(),
        ..Default::default()
    });
    let req = client.build_handshake_request().unwrap();
    let sub = header(&req, "Sec-WebSocket-Protocol")
        .expect("Sec-WebSocket-Protocol 必须存在（FunASR server 要求 binary）");
    assert_eq!(sub, "binary");
}

#[test]
fn funasr_handshake_request_user_subprotocol_overrides_default() {
    let mut headers = StringMap::new();
    headers.insert("Sec-WebSocket-Protocol".into(), "custom-proto".into());
    let client = FunasrClient::new(FunasrConfig {
        endpoint: "ws://127.0.0.1:10095/".into(),
        extra_headers: headers,
        ..Default::default()
    });
    let req = client.build_handshake_request().unwrap();
    assert_eq!(header(&req, "Sec-WebSocket-Protocol").unwrap(), "custom-proto");
}

#[test]
fn funasr_funasr_close_normal_is_1000_empty_reason() {
    let c = FunasrClose::normal();
    assert_eq!(c.code, 1000);
    assert_eq!(c.reason, "");
}

#[test]
fn funasr_funasr_close_abnormal_is_1006() {
    let c = FunasrClose::abnormal();
    assert_eq!(c.code, 1006);
    assert!(!c.reason.is_empty());
}

#[test]
fn funasr_funasr_close_from_frame_carries_code_and_reason() {
    let code: u16 = CloseCode::Away.into();
    let c = FunasrClose::from_frame(code, "server shutting down");
    assert_eq!(c.code, 1001);
    assert_eq!(c.reason, "server shutting down");
}

#[test]
fn funasr_funasr_event_message_carries_response() {
    let resp = FunasrResponse {
        mode: FunasrResponseMode::Online,
        text: "hi".into(),
        is_final: false,
    };
    let evt = FunasrEvent::Message(resp);
    let _ = format!("{:?}", evt);
    match evt {
        FunasrEvent::Message(r) => {
            assert_eq!(r.text, "hi");
            assert!(!r.is_final);
        }
        _ => panic!("Message 变体应能 match 出 FunasrResponse"),
    }
}

#[test]
fn funasr_funasr_event_close_carries_code() {
    let evt = FunasrEvent::Close(FunasrClose {
        code: 1000,
        reason: "ok".into(),
    });
    let _ = format!("{:?}", evt);
    match evt {
        FunasrEvent::Close(c) => {
            assert_eq!(c.code, 1000);
            assert_eq!(c.reason, "ok");
        }
        _ => panic!("Close 变体应能 match 出 FunasrClose"),
    }
}

#[test]
fn funasr_funasr_event_error_carries_client_error() {
    let evt = FunasrEvent::Error(ClientError::Ws("test".into()));
    let _ = format!("{:?}", evt);
    match evt {
        FunasrEvent::Error(e) => {
            assert!(matches!(e, ClientError::Ws(_)));
        }
        _ => panic!("Error 变体应能 match 出 ClientError"),
    }
}

#[test]
fn mod_mode_as_str_matches_doc() {
    assert_eq!(FunasrMode::Offline.as_str(), "offline");
    assert_eq!(FunasrMode::Online.as_str(), "online");
    assert_eq!(FunasrMode::TwoPass.as_str(), "2pass");
}

#[test]
fn mod_default_config_is_local_two_pass_16k() {
    let c = FunasrConfig::default();
    assert_eq!(c.endpoint, "ws://127.0.0.1:10095/");
    assert_eq!(c.mode, FunasrMode::TwoPass);
    assert_eq!(c.wav_format, "pcm");
    assert_eq!(c.sample_rate, 16000);
    assert_eq!(c.channels, 1);
    assert_eq!(c.itn, true);
    assert_eq!(c.svs_itn, true);
    assert!(c.chunk_size.is_some());
    assert!(c.hotwords.is_none());
    assert!(c.svs_lang.is_none());
}

#[test]
fn mod_first_frame_two_pass_with_hotwords_and_svs() {
    let cfg = FunasrConfig {
        endpoint: "ws://127.0.0.1:10095/".into(),
        mode: FunasrMode::TwoPass,
        wav_name: "live-1".into(),
        wav_format: "pcm".into(),
        sample_rate: 16000,
        channels: 1,
        chunk_size: Some(vec![5, 10, 5]),
        hotwords: Some(r#"{"阿里巴巴":20,"通义实验室":30}"#.to_string()),
        itn: true,
        svs_lang: Some("zh".into()),
        svs_itn: true,
        extra_headers: Default::default(),
        timeout_secs: 30,
        keepalive_secs: 20,
    };
    let s = build_first_frame(&cfg);
    let v = parsed(&s);
    assert_eq!(v["mode"], "2pass");
    assert_eq!(v["wav_name"], "live-1");
    assert_eq!(v["is_speaking"], true);
    assert_eq!(v["wav_format"], "pcm");
    assert_eq!(v["audio_fs"], 16000);
    assert_eq!(v["chunk_size"], parsed("[5, 10, 5]"));
    assert_eq!(v["hotwords"], r#"{"阿里巴巴":20,"通义实验室":30}"#);
    assert_eq!(v["svs_lang"], "zh");
    assert_eq!(v["itn"], true);
    assert_eq!(v["svs_itn"], true);
}

#[test]
fn mod_first_frame_offline_omits_chunk_size() {
    let cfg = FunasrConfig {
        mode: FunasrMode::Offline,
        chunk_size: None,
        ..Default::default()
    };
    let s = build_first_frame(&cfg);
    let v = parsed(&s);
    assert_eq!(v["mode"], "offline");
    assert!(v.get("chunk_size").is_none());
}

#[test]
fn mod_first_frame_omits_none_optional_fields() {
    let cfg = FunasrConfig {
        chunk_size: None,
        hotwords: None,
        svs_lang: None,
        ..Default::default()
    };
    let s = build_first_frame(&cfg);
    let v = parsed(&s);
    assert!(v.get("chunk_size").is_none());
    assert!(v.get("hotwords").is_none());
    assert!(v.get("svs_lang").is_none());
}

#[test]
fn mod_first_frame_8k_for_telephony() {
    let cfg = FunasrConfig {
        sample_rate: 8000,
        ..Default::default()
    };
    let s = build_first_frame(&cfg);
    let v = parsed(&s);
    assert_eq!(v["audio_fs"], 8000);
}

#[test]
fn mod_handshake_request_accepts_plain_ws_scheme() {
    let client = FunasrClient::new(FunasrConfig {
        endpoint: "ws://127.0.0.1:10095/".into(),
        ..Default::default()
    });
    let req = client.build_handshake_request().unwrap();
    assert_eq!(
        Some(req.scheme.as_str()),
        Some("ws"),
        "本地 FunASR 必须是 ws scheme"
    );
}

#[test]
fn mod_handshake_request_accepts_wss_scheme() {
    let client = FunasrClient::new(FunasrConfig {
        endpoint: "wss://funasr.example.com/ws".into(),
        ..Default::default()
    });
    let req = client.build_handshake_request().unwrap();
    assert_eq!(Some(req.scheme.as_str()), Some("wss"));
}

#[test]
fn mod_handshake_request_invalid_url_errors() {
    let client = FunasrClient::new(FunasrConfig {
        endpoint: "not a url".into(),
        ..Default::default()
    });
    assert!(client.build_handshake_request().is_err());
}

#[test]
fn mod_handshake_request_applies_extra_headers() {
    let mut headers = StringMap::new();
    headers.insert("X-Custom".into(), "value".into());
    let client = FunasrClient::new(FunasrConfig {
        endpoint: "ws://127.0.0.1:10095/".into(),
        extra_headers: headers,
        ..Default::default()
    });
    let req = client.build_handshake_request().unwrap();
    assert_eq!(header(&req, "X-Custom").unwrap(), "value");
}

#[test]
fn mod_handshake_request_sets_binary_subprotocol() {
    let client = FunasrClient::new(FunasrConfig {
        endpoint: "ws://127.0.0.1:10095/".into(),
        ..Default::default()
    });
    let req = client.build_handshake_request().unwrap();
    let sub = header(&req, "Sec-WebSocket-Protocol")
        .expect("Sec-WebSocket-Protocol 必须存在（FunASR server 要求 binary）");
    assert_eq!(sub, "binary");
}

#[test]
fn mod_handshake_request_user_subprotocol_overrides_default() {
    let mut headers = StringMap::new();
    headers.insert("Sec-WebSocket-Protocol".into(), "custom-proto".into());
    let client = FunasrClient::new(FunasrConfig {
        endpoint: "ws://127.0.0.1:10095/".into(),
        extra_headers: headers,
        ..Default::default()
    });
    let req = client.build_handshake_request().unwrap();
    assert_eq!(
        header(&req, "Sec-WebSocket-Protocol").unwrap(),
        "custom-proto"
    );
}

#[test]
fn protocol_module_linked() {
    assert!(matches!(
        classify_mode("online"),
        FunasrResponseMode::Online
    ));
    let _ = FunasrResponse {
        mode: FunasrResponseMode::Online,
        text: "x".into(),
        is_final: false,
    };
    let _ = FunasrClose::normal();
    let _ = FunasrEvent::Close(FunasrClose::normal());
    let bytes = br#"{"mode": "online", "text": "x"}"#;
    let _ = parse_server_event(bytes);
}

#[test]
fn protocol_response_mode_classify_all_doc_values() {
    assert_eq!(classify_mode("online"), FunasrResponseMode::Online);
    assert_eq!(
        classify_mode("2pass-online"),
        FunasrResponseMode::TwoPassOnline
    );
    assert_eq!(
        classify_mode("2pass-offline"),
        FunasrResponseMode::TwoPassOffline
    );
    assert_eq!(classify_mode("offline"), FunasrResponseMode::Offline);
    match classify_mode("something-new") {
        FunasrResponseMode::Other(s) => assert_eq!(s, "something-new"),
        _ => panic!("unknown mode 应归 Other"),
    }
}

#[test]
fn protocol_response_mode_is_cumulative_and_correction() {
    assert!(FunasrResponseMode::Online.is_cumulative());
    assert!(FunasrResponseMode::TwoPassOnline.is_cumulative());
    assert!(!FunasrResponseMode::Offline.is_cumulative());
    assert!(!FunasrResponseMode::TwoPassOffline.is_cumulative());
    assert!(FunasrResponseMode::TwoPassOffline.is_correction());
    assert!(!FunasrResponseMode::Online.is_correction());
}

#[test]
fn protocol_parse_response_exposes_mode() {
    let resp = r#"{
        "mode": "2pass-online",
        "wav_name": "x",
        "text": "你",
        "is_final": false
    }"#;
    let bytes = resp.as_bytes();
    let out = parse_server_event(bytes).unwrap().unwrap();
    assert_eq!(out.mode, FunasrResponseMode::TwoPassOnline);
    assert_eq!(out.text, "你");
    assert!(!out.is_final);
}

#[test]
fn protocol_parse_partial_2pass_online() {
    let resp = r#"{
        "mode": "2pass-online",
        "wav_name": "x",
        "text": "你好",
        "is_final": false,
        "timestamp": "[]",
        "stamp_sents": []
    }"#;
    let bytes = resp.as_bytes();
    let out = parse_server_event(bytes).unwrap().unwrap();
    assert_eq!(out.text, "你好");
    assert!(!out.is_final);
}

#[test]
fn protocol_parse_sentence_boundary_2pass_online_final() {
    let resp = r#"{
        "mode": "2pass-online",
        "wav_name": "x",
        "text": "你好世界。",
        "is_final": true
    }"#;
    let bytes = resp.as_bytes();
    let out = parse_server_event(bytes).unwrap().unwrap();
    assert_eq!(out.text, "你好世界。");
    assert!(out.is_final);
}

#[test]
fn protocol_parse_2pass_offline_is_correction_result() {
    let resp = r#"{
        "mode": "2pass-offline",
        "wav_name": "x",
        "text": "你好世界。",
        "is_final": true
    }"#;
    let bytes = resp.as_bytes();
    let out = parse_server_event(bytes).unwrap().unwrap();
    assert_eq!(out.text, "你好世界。");
    assert!(out.is_final);
}

#[test]
fn protocol_parse_offline_single_response() {
    let resp = r#"{
        "mode": "offline",
        "wav_name": "x",
        "text": "完整文本",
        "is_final": false
    }"#;
    let bytes = resp.as_bytes();
    let out = parse_server_event(bytes).unwrap().unwrap();
    assert_eq!(out.text, "完整文本");
    assert!(!out.is_final);
}

#[test]
fn protocol_parse_response_with_timestamp_and_stamp_sents() {
    let resp = r#"{
        "mode": "2pass-online",
        "wav_name": "x",
        "text": "你好",
        "is_final": false,
        "timestamp": "[[100,200],[200,500]]",
        "stamp_sents": [
            {"text_seg": "你", "punc": "", "start": 100, "end": 200, "ts_list": [[100,200]]}
        ]
    }"#;
    let bytes = resp.as_bytes();
    let out = parse_server_event(bytes).unwrap().unwrap();
    assert_eq!(out.text, "你好");
}

#[test]
fn protocol_parse_response_empty_mode_returns_none() {
    let resp = r#"{"text": "foo", "is_final": false}"#;
    let bytes = resp.as_bytes();
    assert!(parse_server_event(bytes).unwrap().is_none());
}

#[test]
fn protocol_parse_invalid_json_returns_err() {
    assert!(parse_server_event(b"not json").is_err());
}

#[test]
fn protocol_parse_response_missing_text_defaults_empty() {
    let resp = r#"{"mode": "2pass-online", "is_final": false}"#;
    let bytes = resp.as_bytes();
    let out = parse_server_event(bytes).unwrap().unwrap();
    assert_eq!(out.text, "");
    assert!(!out.is_final);
}

#[test]
fn protocol_parse_response_online_mode_partial() {
    let resp = r#"{
        "mode": "online",
        "wav_name": "x",
        "text": "你好",
        "is_final": false
    }"#;
    let bytes = resp.as_bytes();
    let out = parse_server_event(bytes).unwrap().unwrap();
    assert_eq!(out.text, "你好");
    assert!(!out.is_final);
}

#[test]
fn protocol_funasr_close_normal_is_1000_empty_reason() {
    let c = FunasrClose::normal();
    assert_eq!(c.code, 1000);
    assert_eq!(c.reason, "");
}

#[test]
fn protocol_funasr_close_abnormal_is_1006() {
    let c = FunasrClose::abnormal();
    assert_eq!(c.code, 1006);
    assert!(!c.reason.is_empty());
}

#[test]
fn protocol_funasr_close_from_frame_carries_code_and_reason() {
    let code: u16 = CloseCode::Away.into();
    let c = FunasrClose::from_frame(code, "server shutting down");
    assert_eq!(c.code, 1001);
    assert_eq!(c.reason, "server shutting down");
}

#[test]
fn protocol_funasr_event_message_carries_response() {
    let resp = FunasrResponse {
        mode: FunasrResponseMode::Online,
        text: "hi".into(),
        is_final: false,
    };
    let evt = FunasrEvent::Message(resp);
    let _ = format!("{:?}", evt);
    match evt {
        FunasrEvent::Message(r) => {
            assert_eq!(r.text, "hi");
            assert!(!r.is_final);
        }
        _ => panic!("Message 变体应能 match 出 FunasrResponse"),
    }
}

#[test]
fn protocol_funasr_event_close_carries_code() {
    let evt = FunasrEvent::Close(FunasrClose {
        code: 1000,
        reason: "ok".into(),
    });
    let _ = format!("{:?}", evt);
    match evt {
        FunasrEvent::Close(c) => {
            assert_eq!(c.code, 1000);
            assert_eq!(c.reason, "ok");
        }
        _ => panic!("Close 变体应能 match 出 FunasrClose"),
    }
}

#[test]
fn protocol_funasr_event_error_carries_client_error() {
    let evt = FunasrEvent::Error(ClientError::Ws("test".into()));
    let _ = format!("{:?}", evt);
    match evt {
        FunasrEvent::Error(e) => {
            assert!(matches!(e, ClientError::Ws(_)));
        }
        _ => panic!("Error 变体应能 match 出 ClientError"),
    }
}

#[test]
fn first_frame_has_its_members_in_order() {
    let cfg = FunasrConfig { mode: FunasrMode::Online, chunk_size: None, ..Default::default() };
    let v = parsed(&build_first_frame(&cfg));
    assert_eq!(v["is_speaking"], true);
    assert_eq!(finish_frame(), r#"{"is_speaking":false}"#);
}

#[test]
fn frames_become_events_or_are_skipped() {
    assert!(on_frame(FrameRead::Other).is_none());
    assert!(on_frame(FrameRead::Text("not json".to_string())).is_none());
    assert!(on_frame(FrameRead::Text(r#"{"text":"meta"}"#.to_string())).is_none());
    let text = r#"{"mode":"online","text":"你"}"#.to_string();
    assert!(matches!(
        on_frame(FrameRead::Text(text)),
        Some(FunasrEvent::Message(m)) if m.text == "你"
    ));
    assert!(matches!(
        on_frame(FrameRead::Close(None)),
        Some(FunasrEvent::Close(c)) if c.code == 1000
    ));
    assert!(matches!(on_frame(FrameRead::Ended), Some(FunasrEvent::Close(c)) if c.code == 1006));
    assert!(matches!(
        on_frame(FrameRead::Failed("x".to_string())),
        Some(FunasrEvent::Error(ClientError::Ws(m))) if m == "recv: x"
    ));
    assert!(matches!(
        on_frame(FrameRead::TimedOut),
        Some(FunasrEvent::Error(ClientError::Ws(m))) if m == "next_event 超时"
    ));
}

#[test]
fn key_becomes_a_bearer_header() {
    let key = Some("k".to_string());
    let req = handshake_with_key("wss://host/x", &key, &Vec::new()).unwrap();
    assert_eq!(req.scheme, "wss");
    assert_eq!(header(&req, "authorization").unwrap(), "Bearer k");
    let extra = vec![("Authorization".to_string(), "mine".to_string())];
    let req = handshake_with_key("ws://host/x", &key, &extra).unwrap();
    assert_eq!(header(&req, "authorization").unwrap(), "mine");
    assert!(handshake_with_key("", &None, &Vec::new()).is_err());
}

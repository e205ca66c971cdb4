use voice_server::asr::{
    build_asr_client, extract_text, guess_audio_mime, push_opt_bool, push_opt_text, FormField,
};
use voice_server::audio::{find_wav_data, prepare_audio_for_asr, wrap_pcm_as_wav};
use voice_server::config::{AsrConfig, LlmConfig, ProviderConfig};
use voice_server::error::{
    api_err_to_response, format_err, parse_openai_error, status_error, ClientError, OpenAiError,
};
use voice_server::llm::{
    answer_kind, apply_auth_headers, apply_trace_header, build_llm_client, chat_messages,
    document_event, parse_non_stream_response, parse_sse_data_line, parse_stream_payload,
    ChatMessage, HttpLlmClient, LlmAnswer, LlmSseDecoder,
};
use voice_server::string_map::StringMap;

#[test]
fn wav_header_44_bytes() {
    let pcm = vec![0u8; 320];
    let wav = wrap_pcm_as_wav(&pcm, 16000, 1);
    assert_eq!(wav.len(), 44 + 320);
    assert_eq!(&wav[0..4], b"RIFF");
    assert_eq!(&wav[8..12], b"WAVE");
    assert_eq!(&wav[12..16], b"fmt ");
    assert_eq!(&wav[36..40], b"data");
    assert_eq!(u16::from_le_bytes([wav[20], wav[21]]), 1);
    assert_eq!(u16::from_le_bytes([wav[22], wav[23]]), 1);
    assert_eq!(u32::from_le_bytes([wav[24], wav[25], wav[26], wav[27]]), 16000);
    assert_eq!(u16::from_le_bytes([wav[34], wav[35]]), 16);
    assert_eq!(u32::from_le_bytes([wav[40], wav[41], wav[42], wav[43]]), 320);
    assert_eq!(&wav[44..], &pcm[..]);
}

#[test]
fn guess_audio_mime_known_extensions() {
    assert_eq!(guess_audio_mime("audio.wav"), "audio/wav");
    assert_eq!(guess_audio_mime("audio.mp3"), "audio/mpeg");
    assert_eq!(guess_audio_mime("audio.flac"), "audio/flac");
    assert_eq!(guess_audio_mime("audio.ogg"), "audio/ogg");
    assert_eq!(guess_audio_mime("audio.m4a"), "audio/mp4");
    assert_eq!(guess_audio_mime("audio.webm"), "audio/webm");
    assert_eq!(guess_audio_mime("AUDIO.WAV"), "audio/wav");
    assert_eq!(guess_audio_mime("audio.bin"), "application/octet-stream");
    assert_eq!(guess_audio_mime("noext"), "application/octet-stream");
}

#[test]
fn extract_text_json_format() {
    let body = r#"{"text": "你好"}"#;
    assert_eq!(extract_text(body, Some("json")).unwrap(), "你好");
}

#[test]
fn extract_text_json_default_format() {
    let body = r#"{"text": "hello"}"#;
    assert_eq!(extract_text(body, None).unwrap(), "hello");
}

#[test]
fn extract_text_text_format() {
    let body = "你好世界";
    assert_eq!(extract_text(body, Some("text")).unwrap(), "你好世界");
    let body = "  hello\n";
    assert_eq!(extract_text(body, Some("text")).unwrap(), "hello");
}

#[test]
fn extract_text_verbose_json_format() {
    let body = r#"{
        "task": "transcribe",
        "language": "zh",
        "duration": 2.37,
        "text": "你好，世界。",
        "segments": [{"id": 0, "start": 0.0, "end": 2.37, "text": "你好，世界。", "words": []}]
    }"#;
    assert_eq!(extract_text(body, Some("verbose_json")).unwrap(), "你好，世界。");
}

#[test]
fn extract_text_verbose_json_with_spk_segment() {
    let body = r#"{
        "text": "spk0 says hi, spk1 says bye",
        "language": "en",
        "duration": 3.0,
        "segments": [
            {"id": 0, "start": 0.0, "end": 1.5, "text": "spk0 says hi", "speaker": "spk0", "words": []},
            {"id": 1, "start": 1.5, "end": 3.0, "text": "spk1 says bye", "speaker": "spk1", "words": []}
        ]
    }"#;
    assert_eq!(
        extract_text(body, Some("verbose_json")).unwrap(),
        "spk0 says hi, spk1 says bye"
    );
}

#[test]
fn extract_text_unsupported_format_errors() {
    let body = "anything";
    assert!(extract_text(body, Some("xml")).is_err());
}

#[test]
fn extract_text_invalid_json_errors() {
    let body = "{not json}";
    assert!(extract_text(body, Some("json")).is_err());
    assert!(extract_text(body, Some("verbose_json")).is_err());
}

#[test]
fn parse_openai_error_full_envelope() {
    let body = r#"{
        "error": {
            "message": "model 'paraformer' is not supported",
            "type": "invalid_request_error",
            "param": "model",
            "code": "model_not_found"
        }
    }"#;
    let err = parse_openai_error(body).expect("should parse");
    assert_eq!(err.code, "model_not_found");
    assert_eq!(err.type_.as_deref(), Some("invalid_request_error"));
    assert_eq!(err.param.as_deref(), Some("model"));
    assert!(err.message.contains("paraformer"));
}

#[test]
fn parse_openai_error_without_param() {
    let body = r#"{
        "error": {
            "message": "internal boom",
            "type": "api_error",
            "code": "internal_error"
        }
    }"#;
    let err = parse_openai_error(body).expect("should parse without param");
    assert_eq!(err.code, "internal_error");
    assert_eq!(err.param, None);
}

#[test]
fn parse_openai_error_invalid_json_returns_none() {
    assert!(parse_openai_error("not json").is_none());
    assert!(parse_openai_error("").is_none());
    assert!(parse_openai_error(r#"{"text":"hi"}"#).is_none());
}

#[test]
fn parse_openai_error_missing_required_field_returns_none() {
    let body = r#"{"error":{"message":"x","type":"api_error"}}"#;
    assert!(parse_openai_error(body).is_none());
}

#[test]
fn render_api_envelope_round_trips_as_json() {
    let body = r#"{
        "error": {
            "message": "boom",
            "type": "api_error",
            "code": "internal_error"
        }
    }"#;
    let err = ClientError::Api {
        status: 500,
        error: parse_openai_error(body).unwrap(),
    };
    let (status, json) = err.render_api_envelope().expect("should render");
    assert_eq!(status, 500);
    let parsed: serde_json::Value = serde_json::from_str(&json).unwrap();
    assert_eq!(parsed["error"]["code"], "internal_error");
    assert_eq!(parsed["error"]["type"], "api_error");
}

#[test]
fn render_api_envelope_non_api_returns_none() {
    let err = ClientError::Status(400);
    assert!(err.render_api_envelope().is_none());
    let err = ClientError::Http("conn refused".into());
    assert!(err.render_api_envelope().is_none());
}

#[test]
fn to_string_short_for_api() {
    let body = r#"{"error":{"message":"x","type":"api_error","code":"internal_error"}}"#;
    let err = ClientError::Api {
        status: 500,
        error: parse_openai_error(body).unwrap(),
    };
    let s = err.to_string_short();
    assert!(s.contains("500"));
    assert!(s.contains("internal_error"));
}

#[test]
fn openai_error_display_with_param() {
    let e = OpenAiError {
        message: "model 'foo' not supported".into(),
        type_: Some("invalid_request_error".into()),
        param: Some("model".into()),
        code: "model_not_found".into(),
    };
    let s = e.to_string();
    assert!(s.contains("[model_not_found]"));
    assert!(s.contains("param=model"));
}

#[test]
fn openai_error_display_without_param() {
    let e = OpenAiError {
        message: "boom".into(),
        type_: Some("api_error".into()),
        param: None,
        code: "internal_error".into(),
    };
    let s = e.to_string();
    assert!(s.contains("[internal_error]"));
    assert!(!s.contains("param="));
}

#[test]
fn parses_standard_stream_content_and_finish_reason() {
    let payload = br#"{
        "id":"chatcmpl-1",
        "object":"chat.completion.chunk",
        "created":1,
        "model":"test-model",
        "choices":[{
            "index":0,
            "delta":{"content":"hello"},
            "logprobs":null,
            "finish_reason":"stop"
        }]
    }"#;

    let parsed = parse_stream_payload(payload).unwrap().unwrap();
    assert_eq!(parsed.delta, "hello");
    assert!(parsed.is_final);
    assert!(parsed.usage.is_none());
}

#[test]
fn parses_openai_sse_data_line() {
    let line = br#"data: {"id":"chatcmpl-sse","object":"chat.completion.chunk","created":1,"model":"test-model","choices":[{"index":0,"delta":{"content":"chunk"},"logprobs":null,"finish_reason":null}]}"#;

    let parsed = parse_sse_data_line(line).unwrap().unwrap();

    assert_eq!(parsed.delta, "chunk");
    assert!(!parsed.is_final);
}

#[test]
fn preserves_stream_reasoning_content_for_logging() {
    let payload = br#"{
        "id":"chatcmpl-reasoning-stream",
        "object":"chat.completion.chunk",
        "created":1,
        "model":"test-model",
        "choices":[{
            "index":0,
            "delta":{"content":null,"reasoning_content":"checking the answer"},
            "finish_reason":null
        }]
    }"#;

    let parsed = parse_stream_payload(payload).unwrap().unwrap();
    assert_eq!(
        parsed.reasoning_content.as_deref(),
        Some("checking the answer")
    );
    assert!(parsed.delta.is_empty());
}

#[test]
fn drops_blank_stream_reasoning_content() {
    let payload = br#"{
        "choices":[{
            "delta":{"reasoning_content":"  \n  "},
            "finish_reason":null
        }]
    }"#;

    let parsed = parse_stream_payload(payload).unwrap().unwrap();
    assert!(parsed.reasoning_content.is_none());
}

#[test]
fn parses_stream_refusal_as_visible_text() {
    let payload = br#"{
        "id":"chatcmpl-2",
        "object":"chat.completion.chunk",
        "created":1,
        "model":"test-model",
        "choices":[{
            "index":0,
            "delta":{"content":"","refusal":"cannot comply"},
            "logprobs":null,
            "finish_reason":"content_filter"
        }]
    }"#;

    let parsed = parse_stream_payload(payload).unwrap().unwrap();
    assert_eq!(parsed.delta, "cannot comply");
    assert!(parsed.is_final);
}

#[test]
fn preserves_stream_content_and_refusal_when_both_are_present() {
    let payload = br#"{
        "id":"chatcmpl-2b",
        "object":"chat.completion.chunk",
        "created":1,
        "model":"test-model",
        "choices":[{
            "index":0,
            "delta":{"content":"partial answer","refusal":"cannot continue"},
            "logprobs":null,
            "finish_reason":"content_filter"
        }]
    }"#;

    let parsed = parse_stream_payload(payload).unwrap().unwrap();
    assert_eq!(parsed.delta, "partial answer\ncannot continue");
    assert!(parsed.is_final);
}

#[test]
fn parses_usage_only_stream_chunk_without_a_choice() {
    let payload = br#"{
        "id":"chatcmpl-3",
        "object":"chat.completion.chunk",
        "created":1,
        "model":"test-model",
        "choices":[],
        "usage":{"prompt_tokens":12,"completion_tokens":4,"total_tokens":16}
    }"#;

    let parsed = parse_stream_payload(payload).unwrap().unwrap();
    assert_eq!(parsed.delta, "");
    assert!(!parsed.is_final);
    let usage = parsed.usage.unwrap();
    assert_eq!(usage.prompt_tokens, 12);
    assert_eq!(usage.completion_tokens, 4);
    assert_eq!(usage.total_tokens, 16);
}

#[test]
fn parses_standard_non_stream_response_message_content() {
    let body = br#"{
        "id":"chatcmpl-4",
        "object":"chat.completion",
        "created":1,
        "model":"test-model",
        "choices":[{
            "index":0,
            "message":{"role":"assistant","content":"complete answer","refusal":null},
            "logprobs":null,
            "finish_reason":"stop"
        }],
        "usage":{"prompt_tokens":8,"completion_tokens":2,"total_tokens":10}
    }"#;

    let parsed = parse_non_stream_response(body).unwrap();
    assert_eq!(parsed.delta, "complete answer");
    assert!(parsed.is_final);
    assert_eq!(parsed.usage.unwrap().total_tokens, 10);
}

#[test]
fn preserves_non_stream_reasoning_content_for_logging() {
    let body = br#"{
        "choices":[{
            "message":{
                "role":"assistant",
                "content":"complete answer",
                "reasoning_content":"checking the answer"
            },
            "finish_reason":"stop"
        }]
    }"#;

    let parsed = parse_non_stream_response(body).unwrap();
    assert_eq!(
        parsed.reasoning_content.as_deref(),
        Some("checking the answer")
    );
    assert_eq!(parsed.delta, "complete answer");
}

#[test]
fn parses_non_stream_refusal_when_content_is_empty() {
    let body = br#"{
        "choices":[{
            "message":{"role":"assistant","content":"","refusal":"cannot comply"},
            "finish_reason":"content_filter"
        }]
    }"#;

    let parsed = parse_non_stream_response(body).unwrap();
    assert_eq!(parsed.delta, "cannot comply");
    assert!(parsed.is_final);
}

#[test]
fn preserves_non_stream_content_and_refusal_when_both_are_present() {
    let body = br#"{
        "choices":[{
            "message":{
                "role":"assistant",
                "content":"partial answer",
                "refusal":"cannot continue"
            },
            "finish_reason":"content_filter"
        }]
    }"#;

    let parsed = parse_non_stream_response(body).unwrap();
    assert_eq!(parsed.delta, "partial answer\ncannot continue");
    assert!(parsed.is_final);
}

fn message(role: &str, content: &str) -> ChatMessage {
    ChatMessage { role: role.to_string(), content: content.to_string() }
}

#[test]
fn request_body_serializes_configured_openai_options() {
    let mut cfg = LlmConfig::default();
    cfg.model = "test-model".to_string();
    cfg.max_completion_tokens = Some(256);
    cfg.temperature = Some("0.2".to_string());
    cfg.top_p = Some("0.85".to_string());
    cfg.reasoning_effort = Some("low".to_string());
    cfg.include_usage = true;
    let client = HttpLlmClient::from_config(ProviderConfig::default(), &cfg);
    let messages = vec![message("user", "hello")];

    let body: serde_json::Value = serde_json::from_str(&client.request_body(&messages)).unwrap();
    let want: serde_json::Value = serde_json::from_str(
        r#"{
            "model": "test-model",
            "messages": [{"role": "user", "content": "hello"}],
            "stream": true,
            "max_completion_tokens": 256,
            "temperature": 0.2,
            "top_p": 0.85,
            "reasoning_effort": "low",
            "stream_options": {"include_usage": true}
        }"#,
    )
    .unwrap();
    assert_eq!(body, want);
}

#[test]
fn request_body_omits_unconfigured_optional_fields() {
    let client = HttpLlmClient::new(ProviderConfig::default(), "test-model".to_string());
    let messages = vec![message("user", "hello")];

    let body: serde_json::Value = serde_json::from_str(&client.request_body(&messages)).unwrap();
    let want: serde_json::Value = serde_json::from_str(
        r#"{
            "model": "test-model",
            "messages": [{"role": "user", "content": "hello"}],
            "stream": true
        }"#,
    )
    .unwrap();
    assert_eq!(body, want);
}

#[test]
fn llm_auth_uses_x_api_key_without_authorization() {
    let mut headers = StringMap::new();
    headers.insert("x-api-key".to_string(), "x-key".to_string());
    let sent = apply_auth_headers("legacy-key", &headers);
    assert_eq!(sent.get("x-api-key").unwrap(), "x-key");
    assert!(sent.get("authorization").is_none());
}

#[test]
fn llm_api_key_falls_back_to_x_api_key() {
    let sent = apply_auth_headers("Bearer legacy-key", &StringMap::new());
    assert_eq!(sent.get("x-api-key").unwrap(), "legacy-key");
    assert!(sent.get("authorization").is_none());
}

#[test]
fn push_opt_text_skips_none_and_empty() {
    let mut form: Vec<FormField> = Vec::new();
    push_opt_text(&mut form, "x", None);
    push_opt_text(&mut form, "x", Some(""));
    assert!(form.is_empty());
    push_opt_text(&mut form, "x", Some("v"));
    assert_eq!(form.len(), 1);
    assert!(matches!(&form[0], FormField::Text { name, value } if name == "x" && value == "v"));
}

#[test]
fn push_opt_bool_skips_none() {
    let mut form: Vec<FormField> = Vec::new();
    push_opt_bool(&mut form, "spk", None);
    assert!(form.is_empty());
    push_opt_bool(&mut form, "spk", Some(true));
    assert!(matches!(&form[0], FormField::Text { name, value } if name == "spk" && value == "true"));
}

#[test]
fn trace_header_is_added_where_there_is_one() {
    let with = apply_trace_header(StringMap::new(), Some("t-1"));
    assert_eq!(with.len(), 1);
    assert_eq!(with.entries()[0].1, "t-1");
    assert_eq!(apply_trace_header(StringMap::new(), None).len(), 0);
}

#[test]
fn emotion_goes_in_front_of_the_prompt() {
    let plain = chat_messages("hi", None);
    assert_eq!(plain.len(), 1);
    assert_eq!(plain[0].role, "user");
    assert_eq!(plain[0].content, "hi");
    let hinted = chat_messages("hi", Some("开心"));
    assert_eq!(hinted.last().unwrap().content, "hi");
}

#[test]
fn sse_pieces_make_the_same_events() {
    let text = concat_lines(&[
        r#"data: {"choices":[{"delta":{"content":"你"},"finish_reason":null}]}"#,
        "",
        r#"data: {"choices":[{"delta":{"content":"好"},"finish_reason":"stop"}]}"#,
        "data: [DONE]",
    ]);
    let bytes = text.as_bytes();
    let mut whole = LlmSseDecoder::new();
    let all: Vec<(String, bool)> = whole
        .feed(bytes)
        .into_iter()
        .map(|r| r.map(|e| (e.delta, e.is_final)).unwrap())
        .collect();
    for cut in 0..bytes.len() {
        let mut d = LlmSseDecoder::new();
        let mut got = d.feed(&bytes[..cut]);
        got.extend(d.feed(&bytes[cut..]));
        let got: Vec<(String, bool)> =
            got.into_iter().map(|r| r.map(|e| (e.delta, e.is_final)).unwrap()).collect();
        assert_eq!(got, all);
    }
    assert_eq!(all[0], ("你".to_string(), false));
    assert_eq!(all[1], ("好".to_string(), true));
}

fn concat_lines(lines: &[&str]) -> String {
    let mut s = String::new();
    for l in lines {
        s.push_str(l);
        s.push('\n');
    }
    s
}

#[test]
fn broken_stream_fails_once() {
    let mut d = LlmSseDecoder::new();
    let first = d.feed(b"data: {broken\n");
    assert_eq!(first.len(), 1);
    assert!(matches!(&first[0], Err(ClientError::Decode(_))));
    let line = r#"data: {"choices":[{"delta":{"content":"x"}}]}"#;
    assert!(d.feed(concat_lines(&[line]).as_bytes()).is_empty());
}

#[test]
fn answers_are_read_by_content_type() {
    assert!(matches!(answer_kind("text/event-stream; charset=utf-8"), LlmAnswer::Stream));
    assert!(matches!(answer_kind("application/json"), LlmAnswer::Document));
    let e = document_event(br#"{"choices":[{"message":{"content":"hi"},"finish_reason":"stop"}]}"#);
    let e = e.unwrap();
    assert_eq!(e.delta, "hi");
    assert!(e.is_final);
    assert!(document_event(b"{}").is_err());
}

#[test]
fn llm_request_has_url_headers_and_body() {
    let mut provider = ProviderConfig::default();
    provider.api_base = "http://llm/v1/".to_string();
    provider.api_key = "Bearer k".to_string();
    let mut cfg = LlmConfig::default();
    cfg.model = "m".to_string();
    let client = build_llm_client(&cfg, Some(&provider));
    let request = client.chat_with_messages(&vec![message("user", "a")], Some("trace"));
    assert_eq!(request.url, "http://llm/v1/chat/completions");
    assert_eq!(request.headers.get("x-api-key").unwrap(), "k");
    assert!(request.body.contains("\"model\":\"m\""));
}

#[test]
fn asr_request_has_form_and_headers() {
    let mut provider = ProviderConfig::default();
    provider.api_base = "http://asr/v1".to_string();
    provider.api_key = "k".to_string();
    let client = build_asr_client(&AsrConfig::default(), Some(&provider));
    let call = client.recognize(Some("a.mp3"), vec![1, 2, 3]);
    assert!(call.url.starts_with("http://asr/v1"));
    assert!(call
        .headers
        .iter()
        .any(|(n, v)| n.eq_ignore_ascii_case("authorization") && v == "Bearer k"));
    assert!(call.form.iter().any(|f| matches!(
        f,
        FormField::File { filename, mime, data, .. }
            if filename == "a.mp3" && mime == "audio/mpeg" && data == &[1, 2, 3]
    )));
}

#[test]
fn asr_result_is_the_text_or_the_error() {
    let client = build_asr_client(&AsrConfig::default(), None);
    let ok = client.result(200, Ok(r#"{"text":"你好"}"#)).unwrap();
    assert_eq!(ok.text, "你好");
    assert!(ok.is_final);
    let envelope = r#"{"error":{"message":"x","type":"t","code":"c"}}"#;
    assert!(matches!(
        client.result(413, Ok(envelope)),
        Err(ClientError::Api { status: 413, .. })
    ));
    assert!(matches!(client.result(502, Ok("oops")), Err(ClientError::Status(502))));
    assert!(client.result(200, Err("gone")).is_err());
}

#[test]
fn errors_have_texts_and_responses() {
    assert_eq!(ClientError::Http("x".to_string()).to_string(), "http error: x");
    assert_eq!(ClientError::Io("x".to_string()).to_string(), "io error: x");
    assert_eq!(format_err("boom").to_string(), ClientError::Http("boom".to_string()).to_string());
    assert!(matches!(status_error(503, None), ClientError::Status(503)));
    let (status, body) = api_err_to_response(&ClientError::Status(404));
    assert_eq!(status, 500);
    assert_eq!(body, ClientError::Status(404).to_string());
    let api = |status: u16| ClientError::Api {
        status,
        error: OpenAiError {
            message: "m".to_string(),
            type_: None,
            param: None,
            code: "c".to_string(),
        },
    };
    assert_eq!(api_err_to_response(&api(429)).0, 429);
    assert_eq!(api_err_to_response(&api(42)).0, 500);
}

#[test]
fn wrapped_audio_is_found_again() {
    let pcm: Vec<u8> = (0..100u8).collect();
    let wav = wrap_pcm_as_wav(&pcm, 8000, 2);
    assert_eq!(find_wav_data(&wav), Some((44, 100)));
    assert_eq!(find_wav_data(&pcm), None);
    let once = prepare_audio_for_asr(pcm.clone()).unwrap();
    assert_eq!(once, wrap_pcm_as_wav(&pcm, 16000, 1));
    assert_eq!(prepare_audio_for_asr(once.clone()).unwrap(), once);
    assert!(prepare_audio_for_asr(Vec::new()).is_none());
}

#[test]
fn odd_chunks_of_a_wav_are_skipped() {
    let mut wav: Vec<u8> = b"RIFF\0\0\0\0WAVE".to_vec();
    wav.extend_from_slice(b"LIST\x03\0\0\0abc\0");
    wav.extend_from_slice(b"data\xff\0\0\0xy");
    assert_eq!(find_wav_data(&wav), Some((32, 2)));
}

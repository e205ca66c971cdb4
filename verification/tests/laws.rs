use voice_server::asr_stream::{AsrStream, StreamAction};
use voice_server::codec::utf8_lossy;
use voice_server::config::{authorization, strip_bearer, AsrConfig, ProviderConfig, VoiceConfig};
use voice_server::error::{parse_openai_error, ClientError, OpenAiError};
use voice_server::events::{LlmEvent, TtsEvent};
use voice_server::funasr::{FunasrEvent, FunasrResponse, FunasrResponseMode};
use voice_server::live_asr::{drive_recv, RecvAction, ResultView};
use voice_server::llm_tts::{LlmTtsPipeline, PipeEvent};
use voice_server::memory::{history_from_list, message_from_json, message_to_json, Message, Role};
use voice_server::metrics::{
    bucket_millis, updates, Metric, MetricUpdate, PipelineResult, SinkEvent,
};
use voice_server::payload::VoicePayload;
use voice_server::session::item_payload;
use voice_server::speech::{to_tts_text, TtsSentenceBuffer};
use voice_server::sse::take_line;
use voice_server::string_map::StringMap;
use voice_server::tts::TtsSseDecoder;
use voice_server::voices::{default_sample_rate, supported_sample_rates};

#[test]
fn lossy_text_marks_what_is_not_utf8() {
    assert_eq!(utf8_lossy("你好".as_bytes()), "你好");
    assert_eq!(utf8_lossy(&[b'a', 0xFF, b'b']), "a\u{FFFD}b");
}

#[test]
fn bearer_may_be_written_or_not() {
    assert_eq!(authorization("k"), "Bearer k");
    assert_eq!(authorization("Bearer k"), "Bearer k");
    assert_eq!(authorization("bearer k"), "bearer k");
    assert_eq!(strip_bearer("Bearer k"), "k");
    assert_eq!(strip_bearer("bearer k"), "k");
    assert_eq!(strip_bearer("k"), "k");
}

#[test]
fn resolving_twice_changes_nothing() {
    let mut provider = ProviderConfig::default();
    provider.api_base = "http://p".to_string();
    provider.timeout_ms = 7;
    provider.headers.insert("A".to_string(), "1".to_string());
    let mut asr = AsrConfig::default();
    asr.api_key = "own".to_string();
    asr.headers.insert("A".to_string(), "2".to_string());
    let once = asr.resolved(Some(&provider));
    let twice = asr.resolved(Some(&once));
    assert_eq!(once.api_base, twice.api_base);
    assert_eq!(once.api_key, twice.api_key);
    assert_eq!(once.timeout_ms, twice.timeout_ms);
    assert_eq!(once.headers.get("A").unwrap(), "2");
    assert_eq!(twice.headers.get("A").unwrap(), "2");
    assert_eq!(twice.headers.len(), 1);
}

#[test]
fn header_names_are_sent_in_lower_case() {
    let mut map = StringMap::new();
    map.insert("X-Region".to_string(), "cn".to_string());
    map.insert("X-Region".to_string(), "us".to_string());
    assert_eq!(map.len(), 1);
    let sent = map.to_headers();
    assert_eq!(sent.get("x-region").unwrap(), "us");
    assert!(sent.get("X-Region").is_none());
}

#[test]
fn error_objects_are_read_back() {
    for (type_, param) in [
        (None, None),
        (Some("t\"1"), None),
        (None, Some("p\\2")),
        (Some("类型"), Some("字段\n")),
    ] {
        let error = OpenAiError {
            message: "m {\"x\"}".to_string(),
            type_: type_.map(str::to_string),
            param: param.map(str::to_string),
            code: "c".to_string(),
        };
        let (status, body) = ClientError::Api { status: 418, error }.render_api_envelope().unwrap();
        let back = parse_openai_error(&body).unwrap();
        assert_eq!(status, 418);
        assert_eq!(back.message, "m {\"x\"}");
        assert_eq!(back.type_.as_deref(), type_);
        assert_eq!(back.param.as_deref(), param);
        assert_eq!(back.code, "c");
    }
}

#[test]
fn stored_messages_are_read_back() {
    let said: Vec<Message> = [(Role::System, "a\\\"b"), (Role::User, "行1\n行2"), (Role::Assistant, "")]
        .iter()
        .map(|(role, content)| Message { role: *role, content: content.to_string() })
        .collect();
    let list: Vec<String> = said.iter().rev().map(message_to_json).collect();
    let back = history_from_list(&list);
    assert_eq!(back.len(), said.len());
    for (a, b) in back.iter().zip(&said) {
        assert_eq!(a.role, b.role);
        assert_eq!(a.content, b.content);
        assert_eq!(message_from_json(&message_to_json(b)).unwrap().content, b.content);
    }
}

#[test]
fn metrics_are_registered_once_under_their_own_names() {
    let all = Metric::all();
    let mut names: Vec<&str> = all.iter().map(|m| m.name()).collect();
    assert!(names.iter().all(|n| n.starts_with("voice_")));
    names.sort();
    names.dedup();
    assert_eq!(names.len(), all.len());
    assert_eq!(bucket_millis(), vec![50, 100, 200, 500, 1000, 2000, 5000, 10000, 30000]);
}

#[test]
fn finished_pipelines_are_counted_twice() {
    for (result, name) in [
        (PipelineResult::Success, "voice_requests_success_total"),
        (PipelineResult::Failed, "voice_requests_failed_total"),
        (PipelineResult::Timeout, "voice_requests_timeout_total"),
        (PipelineResult::Cancelled, "voice_requests_cancelled_total"),
    ] {
        let ups = updates(SinkEvent::PipelineFinished(result));
        assert_eq!(ups.len(), 2);
        assert!(matches!(&ups[1], MetricUpdate::Inc(m) if m.name() == name));
    }
}

#[test]
fn default_rates_are_supported() {
    for format in ["opus", "wav", "pcm", "mp3"] {
        let rate = default_sample_rate(format).unwrap();
        assert!(supported_sample_rates(format).contains(&rate));
    }
}

#[test]
fn lines_do_not_depend_on_pieces() {
    let mut buf: Vec<u8> = b"one\r\ntwo\nthr".to_vec();
    assert_eq!(take_line(&mut buf).unwrap(), b"one");
    assert_eq!(take_line(&mut buf).unwrap(), b"two");
    assert!(take_line(&mut buf).is_none());
    buf.extend_from_slice(b"ee\n");
    assert_eq!(take_line(&mut buf).unwrap(), b"three");
    assert!(buf.is_empty());
}

#[test]
fn speech_events_are_numbered() {
    let line = "event: speech.audio.delta\ndata: {\"type\":\"speech.audio.delta\",\"audio\":\"AQI=\"}\n";
    let mut decoder = TtsSseDecoder::new();
    let mut seqs = Vec::new();
    for _ in 0..3 {
        for event in decoder.feed(line.as_bytes()) {
            seqs.push(event.unwrap().seq);
        }
    }
    assert_eq!(seqs, vec![1, 2, 3]);
}

#[test]
fn sentence_is_shown_once() {
    let mut view = ResultView::new();
    let mut shown = String::new();
    for (text, is_final) in [("今天", false), ("天气", false), ("今天天气好。", true)] {
        let event = FunasrEvent::Message(FunasrResponse {
            mode: FunasrResponseMode::Online,
            text: text.to_string(),
            is_final,
        });
        if let RecvAction::Send(VoicePayload::AsrPartial { text, .. }) =
            drive_recv(&mut view, "s", event)
        {
            shown.push_str(&text);
        }
    }
    assert_eq!(shown, "今天天气好。");
}

#[test]
fn sessions_of_a_connection_have_their_own_names() {
    let mut s = AsrStream::new();
    let mut names = Vec::new();
    for _ in 0..3 {
        if let StreamAction::Start(name) = s.handle_client_text(r#"{"type":"start"}"#).action {
            names.push(name);
        }
    }
    assert_eq!(names, vec!["asr-stream-1", "asr-stream-2", "asr-stream-3"]);
}

#[test]
fn speech_of_a_sentence_does_not_depend_on_pieces() {
    let delta = "event: speech.audio.delta\ndata: {\"type\":\"speech.audio.delta\",\"audio\":\"AQI=\"}\n\n";
    let done = "event: speech.audio.done\ndata: {\"type\":\"speech.audio.done\"}\n\n";
    let text = format!("{delta}{done}");
    let bytes = text.as_bytes();
    for cut in 0..=bytes.len() {
        let mut decoder = TtsSseDecoder::new();
        let mut events = decoder.feed(&bytes[..cut]);
        events.extend(decoder.feed(&bytes[cut..]));
        let got: Vec<(Vec<u8>, bool)> =
            events.into_iter().map(|e| e.map(|e| (e.data, e.is_last)).unwrap()).collect();
        assert_eq!(got, vec![(vec![1, 2], false), (vec![], true)]);
    }
}

#[test]
fn lines_behind_the_end_of_a_sentence_wait_for_the_next_piece() {
    let delta = "event: speech.audio.delta\ndata: {\"type\":\"speech.audio.delta\",\"audio\":\"AQI=\"}\n\n";
    let done = "event: speech.audio.done\ndata: {\"type\":\"speech.audio.done\"}\n\n";
    let mut decoder = TtsSseDecoder::new();
    let events = decoder.feed(format!("{done}{delta}").as_bytes());
    assert_eq!(events.len(), 1);
    assert!(events[0].as_ref().unwrap().is_last);
    let events = decoder.feed(b"\n");
    assert_eq!(events.len(), 1);
    let event = events[0].as_ref().unwrap();
    assert_eq!((event.seq, event.data.clone(), event.is_last), (1, vec![1, 2], false));
}

#[test]
fn header_names_and_values_are_checked() {
    for (name, value, sent) in [
        ("X-Ok", "a\tb", true),
        ("x_1.2~`|^'*+!#$%&", "é", true),
        ("", "v", false),
        ("a b", "v", false),
        ("a:b", "v", false),
        ("é", "v", false),
        ("ok", "a\u{7F}", false),
        ("ok", "a\u{1}", false),
    ] {
        let mut map = StringMap::new();
        map.insert(name.to_string(), value.to_string());
        assert_eq!(map.to_headers().len() == 1, sent, "{name:?} {value:?}");
    }
    let mut map = StringMap::new();
    map.insert("a".repeat(0xFFFF), "v".to_string());
    map.insert("a".repeat(0x10000), "v".to_string());
    assert_eq!(map.to_headers().len(), 1);
}

#[test]
fn headers_of_the_environment_are_added() {
    let mut cfg = VoiceConfig::default();
    cfg.llm.headers.insert("X-Tenant".to_string(), "old".to_string());
    cfg.llm.headers.insert("X-Other".to_string(), "kept".to_string());
    let mut env = StringMap::new();
    env.insert("VOICE_LLM_HEADERS".to_string(), r#"{"X-Tenant":"tenant-a","X-New":"n"}"#.to_string());
    cfg.apply_env_overrides(&env);
    assert_eq!(cfg.llm.headers.get("X-Tenant").unwrap(), "tenant-a");
    assert_eq!(cfg.llm.headers.get("X-Other").unwrap(), "kept");
    assert_eq!(cfg.llm.headers.get("X-New").unwrap(), "n");
    env.insert("VOICE_LLM_HEADERS".to_string(), r#"{"X-Tenant":5}"#.to_string());
    cfg.apply_env_overrides(&env);
    assert_eq!(cfg.llm.headers.get("X-Tenant").unwrap(), "tenant-a");
}

#[test]
fn sentence_buffer_hands_out_what_was_pushed() {
    let mut buffer = TtsSentenceBuffer::default();
    let mut out = String::new();
    let sentences = [" 好。", "嗯！", "", "我马上处理这个。 ", "行。"];
    for s in sentences {
        if let Some(text) = buffer.push(s) {
            out.push_str(&text);
        }
    }
    out.push_str(&buffer.flush().unwrap());
    assert_eq!(out, sentences.map(str::trim).concat());
}

#[test]
fn spoken_text_has_no_marks_or_returns() {
    let text = to_tts_text("**重** _点_ `码` ~~删~~\r\n第二\r行");
    assert_eq!(text, "重 点 码 删 第二 行");
}

#[test]
fn client_gets_the_audio_that_the_pipeline_passes_on() {
    let mut pipe = LlmTtsPipeline::new(false);
    let event = LlmEvent { delta: "我马上处理这个问题。".to_string(), is_final: true };
    pipe.step(PipeEvent::Llm { event, cleaned: String::new() });
    pipe.step(PipeEvent::TtsStarted);
    let data: Vec<u8> = (0..1000u32).map(|i| i as u8).collect();
    let audio = TtsEvent { seq: 1, data: data.clone(), is_last: true };
    let items = pipe.step(PipeEvent::Audio(audio)).items;
    let mut heard = Vec::new();
    for item in items {
        if let Some(VoicePayload::TtsAudio { data, .. }) = item_payload("s", item) {
            heard.extend(data);
        }
    }
    assert_eq!(heard, data);
}

use voice_server::admin::{
    asr_stream_line, gen_sid, llm_stream_line, llm_tts_line, stage_line, voices, LlmReq, StageAction,
    StageEvent, StageRun, TextAction, TextEvent, TextSpeech, TtsReq,
};
use voice_server::error::{ClientError, OpenAiError};
use voice_server::events::{AsrEvent, LlmEvent};
use voice_server::llm::ModelTier;
use voice_server::metrics::{
    updates, EscalationReason, Metric, MetricUpdate, NoopMetricsSink, PipelineMetricsGuard,
    PipelineResult, SinkEvent,
};
use voice_server::payload::VoicePayload;
use voice_server::pipeline::LlmTtsItem;
use voice_server::service::{VoiceService, WsData, WsOutcome};
use voice_server::session::{
    asr_input, fits_wav, AsrFailure, AudioAccumulator, RunAction, RunEvent, RunStep, SessionAction,
    SessionState, Ticket, TriggerReason, Utterance, UtteranceRun, VoiceSession, MAX_AUDIO_BYTES,
    MAX_UTTERANCE_MS, MIN_UTTERANCE_BYTES,
};

/// A conversation and the stamp of its last message.
struct Talk {
    session: VoiceSession,
    stamp: u64,
}

impl Talk {
    fn new() -> Self {
        Talk { session: VoiceSession::new("s".into(), 0, 1), stamp: 1 }
    }

    fn on_payload(&mut self, p: VoicePayload, now: u64) -> SessionAction {
        self.stamp += 1;
        self.session.on_payload(p, now, self.stamp)
    }

    fn step(&mut self, run: &mut UtteranceRun, event: RunEvent) -> RunStep {
        self.session.step(run, event)
    }

    fn is_cancelled(&self, ticket: &Ticket) -> bool {
        self.session.is_cancelled(ticket)
    }
}

fn chunk(data: Vec<u8>, is_last: bool) -> VoicePayload {
    VoicePayload::AudioChunk { seq: 1, timestamp_ms: 0, data, is_last }
}

fn start() -> VoicePayload {
    VoicePayload::SessionStart {
        sample_rate: 16000,
        channels: 1,
        codec: "pcm".into(),
        language: "zh".into(),
        tts_sample_rate: Some(0),
        voice: Some("  ".into()),
    }
}

fn processed(a: SessionAction) -> Utterance {
    match a {
        SessionAction::Process(u) => u,
        _ => panic!("an utterance"),
    }
}

fn heard(text: &str, is_final: bool) -> RunEvent {
    RunEvent::Heard(AsrEvent { text: text.into(), is_final, language: None })
}

// ---- a conversation ----

#[test]
fn audio_is_gathered_until_it_is_drained() {
    let mut a = AudioAccumulator::new(5);
    assert_eq!(a.elapsed_ms(7), 2);
    a.push(&vec![1, 2], 100);
    a.push(&vec![3], 150);
    assert_eq!(a.len(), 3);
    assert_eq!(a.elapsed_ms(160), 60);
    assert_eq!(a.drain(), vec![1, 2, 3]);
    assert_eq!(a.len(), 0);
    a.push(&vec![4], 500);
    assert_eq!(a.elapsed_ms(500), 0);
}

#[test]
fn utterance_is_processed_at_its_end() {
    let mut s = Talk::new();
    assert_eq!(s.session.state, SessionState::Idle);
    assert!(matches!(s.on_payload(start(), 0), SessionAction::Nothing));
    assert_eq!(s.session.state, SessionState::Listening);
    assert!(matches!(s.on_payload(chunk(vec![1; 4000], false), 10), SessionAction::Nothing));
    let u = processed(s.on_payload(chunk(vec![2; 4000], true), 20));
    assert_eq!(u.reason, TriggerReason::ClientIsLast);
    assert_eq!(u.audio.len(), 8000);
    assert_eq!((u.sample_rate, u.channels), (16000, 1));
    assert_eq!(u.tts_sample_rate, None);
    assert_eq!(u.voice, None);
    assert_eq!(s.session.state, SessionState::Listening);
}

#[test]
fn noise_is_dropped() {
    let mut s = Talk::new();
    let short = vec![0; MIN_UTTERANCE_BYTES - 1];
    assert!(matches!(s.on_payload(chunk(short, true), 0), SessionAction::Nothing));
    let u = processed(s.on_payload(chunk(vec![0; MIN_UTTERANCE_BYTES], true), 0));
    assert_eq!(u.audio.len(), MIN_UTTERANCE_BYTES);
}

#[test]
fn server_ends_an_utterance_that_is_too_long_or_too_large() {
    let mut s = Talk::new();
    s.on_payload(chunk(vec![0; 7000], false), 1000);
    let late = 1000 + MAX_UTTERANCE_MS;
    assert!(matches!(s.on_payload(chunk(vec![0; 2], false), late - 1), SessionAction::Nothing));
    let u = processed(s.on_payload(chunk(vec![0; 2], false), late));
    assert_eq!(u.reason, TriggerReason::DurationCap);
    assert_eq!(u.audio.len(), 7004);
    let u = processed(s.on_payload(chunk(vec![0; MAX_AUDIO_BYTES], false), late + 1));
    assert_eq!(u.reason, TriggerReason::BufferCap);
}

#[test]
fn closed_conversation_ignores_everything() {
    let mut s = Talk::new();
    let end = VoicePayload::SessionEnd { reason: "bye".into() };
    assert!(matches!(s.on_payload(end, 0), SessionAction::Closed));
    assert!(matches!(s.on_payload(chunk(vec![0; 9000], true), 0), SessionAction::Nothing));
    assert!(matches!(s.on_payload(VoicePayload::Interrupt, 0), SessionAction::Nothing));
}

/// A conversation in which one utterance is being answered.
fn answering() -> (Talk, UtteranceRun) {
    let mut s = Talk::new();
    let u = processed(s.on_payload(chunk(vec![0; 7000], true), 0));
    let mut run = UtteranceRun::new("s", u.ticket);
    assert!(matches!(s.step(&mut run, RunEvent::Opened).action, RunAction::Wait));
    let step = s.step(&mut run, heard("<|zh|><|SAD|>今天好累。", true));
    assert_eq!(step.payloads.len(), 1);
    assert!(matches!(
        &step.payloads[0],
        VoicePayload::AsrPartial { text, is_final: true, .. } if text == "今天好累。"
    ));
    match step.action {
        RunAction::Answer { text, emotion } => {
            assert_eq!(text, "今天好累。");
            assert_eq!(emotion.as_deref(), Some("悲伤"));
        }
        _ => panic!("an answer"),
    }
    (s, run)
}

#[test]
fn silence_interrupts_nobody() {
    let (mut s, first) = answering();
    let u = processed(s.on_payload(chunk(vec![0; 7000], true), 0));
    assert!(!s.is_cancelled(&first.ticket()));
    let mut second = UtteranceRun::new("s", u.ticket);
    s.step(&mut second, RunEvent::Opened);
    assert!(s.step(&mut second, heard("  ", false)).payloads.is_empty());
    let step = s.step(&mut second, heard("<|zh|><|HAPPY|>", true));
    assert!(step.payloads.is_empty());
    assert!(matches!(step.action, RunAction::Stop));
    assert_eq!(step.cancels, None);
    assert!(!s.is_cancelled(&first.ticket()));
}

#[test]
fn speech_interrupts_the_answer_before() {
    let (mut s, mut first) = answering();
    let u = processed(s.on_payload(chunk(vec![0; 7000], true), 0));
    let mut second = UtteranceRun::new("s", u.ticket);
    s.step(&mut second, RunEvent::Opened);
    let step = s.step(&mut second, heard("等等", true));
    assert_eq!(step.cancels, Some(first.ticket().id));
    assert!(s.is_cancelled(&first.ticket()));
    assert!(!s.is_cancelled(&second.ticket()));
    let item = LlmTtsItem::Llm { delta: "late".into(), is_final: false };
    let late = s.step(&mut first, RunEvent::Item(item));
    assert!(late.payloads.is_empty());
    assert!(matches!(late.action, RunAction::Stop));
    assert!(!s.is_cancelled(&second.ticket()));
}

#[test]
fn interrupt_cancels_and_tells() {
    let (mut s, run) = answering();
    match s.on_payload(VoicePayload::Interrupt, 0) {
        SessionAction::Interrupted(VoicePayload::LlmDelta { delta, is_final, .. }) => {
            assert_eq!(delta, "[已打断]");
            assert!(is_final);
        }
        _ => panic!("an interruption"),
    }
    assert!(s.is_cancelled(&run.ticket()));
    let u = processed(s.on_payload(chunk(vec![0; 7000], true), 0));
    assert!(!s.is_cancelled(&u.ticket));
}

#[test]
fn answer_reaches_the_client() {
    let (mut s, mut run) = answering();
    let empty = LlmTtsItem::Llm { delta: "".into(), is_final: false };
    assert!(s.step(&mut run, RunEvent::Item(empty)).payloads.is_empty());
    let last = LlmTtsItem::Llm { delta: "".into(), is_final: true };
    assert_eq!(s.step(&mut run, RunEvent::Item(last)).payloads.len(), 1);
    let audio = LlmTtsItem::Tts { seq: 3, audio: "AQI=".into(), is_last: false };
    let step = s.step(&mut run, RunEvent::Item(audio));
    assert!(matches!(
        &step.payloads[0],
        VoicePayload::TtsAudio { seq: 3, data, is_last: false, .. } if *data == vec![1, 2]
    ));
    let failed = LlmTtsItem::Failed { error: "tts error: x".into(), code: 1004 };
    let step = s.step(&mut run, RunEvent::Item(failed));
    assert!(matches!(
        &step.payloads[0],
        VoicePayload::Error { code: 1004, message } if message == "tts error: x"
    ));
    assert!(matches!(step.action, RunAction::Stop));
}

#[test]
fn failed_recognition_is_told() {
    for (failure, text) in [
        (AsrFailure::TimedOut, "asr timeout after 30s"),
        (AsrFailure::Call(ClientError::Http("x".into())), "asr error: http error: x"),
        (AsrFailure::Stream(ClientError::Http("y".into())), "asr stream: http error: y"),
    ] {
        let mut s = Talk::new();
        let u = processed(s.on_payload(chunk(vec![0; 7000], true), 0));
        let mut run = UtteranceRun::new("s", u.ticket);
        let step = s.step(&mut run, RunEvent::AsrFailed(failure));
        assert!(matches!(
            &step.payloads[0],
            VoicePayload::Error { code: 1001, message } if message == text
        ));
        assert!(matches!(step.action, RunAction::Stop));
    }
}

#[test]
fn recordings_for_recognition_have_a_header() {
    assert!(fits_wav(100, 16000, 1));
    assert!(!fits_wav(100, u32::MAX, 2));
    assert!(!fits_wav(100, 1, 0x8000));
    let wav = asr_input(&vec![7; 100], 16000, 1);
    assert_eq!(wav.len(), 144);
    assert_eq!(&wav[..4], b"RIFF");
}

// ---- the server ----

fn message(connid: &str, business: &str, payload: Option<VoicePayload>) -> WsData {
    WsData::WsMessage {
        business: business.into(),
        actor: "a".into(),
        connid: connid.into(),
        payload,
    }
}

#[test]
fn conversations_begin_and_end_with_their_connections() {
    let mut service = VoiceService::new();
    assert!(matches!(service.wsdata(WsData::WsConnect, 0), WsOutcome::Ignored));
    assert!(matches!(service.wsdata(message("1", "voice", None), 0), WsOutcome::Ignored));
    assert_eq!(service.session_count(), 0);
    service.wsdata(message("1", "voice", Some(start())), 0);
    service.wsdata(message("2", "voice", Some(start())), 0);
    assert_eq!(service.session_count(), 2);
    let out = service.wsdata(message("1", "voice", Some(chunk(vec![0; 7000], true))), 0);
    let (id, u) = match out {
        WsOutcome::Conversation { session_id, action } => (session_id, processed(action)),
        _ => panic!("a conversation"),
    };
    assert_eq!(id, "voice-a-1");
    assert_eq!(u.sample_rate, 16000);
    let mut run = UtteranceRun::new(&id, u.ticket);
    assert!(matches!(service.step(&mut run, RunEvent::Opened).action, RunAction::Wait));
    let gone = WsData::WsDisconnect { session_id: id };
    assert!(matches!(service.wsdata(gone, 0), WsOutcome::Removed { .. }));
    assert_eq!(service.session_count(), 1);
    let step = service.step(&mut run, heard("你好", true));
    assert!(step.payloads.is_empty());
    assert!(matches!(step.action, RunAction::Stop));
}

/// The run of an utterance that the session of connection 1 completes.
fn begun(service: &mut VoiceService) -> UtteranceRun {
    let audio = chunk(vec![0; 7000], true);
    match service.wsdata(message("1", "voice", Some(audio)), 0) {
        WsOutcome::Conversation { session_id, action } => {
            UtteranceRun::new(&session_id, processed(action).ticket)
        }
        _ => panic!("a conversation"),
    }
}

fn assert_silent(service: &mut VoiceService, mut run: UtteranceRun, event: RunEvent) {
    let step = service.step(&mut run, event);
    assert!(step.payloads.is_empty());
    assert_eq!(step.cancels, None);
    assert!(matches!(step.action, RunAction::Stop));
}

#[test]
fn cancelled_processing_stays_silent_when_its_session_connects_again() {
    let gone = || WsData::WsDisconnect { session_id: "voice-a-1".to_string() };
    for interrupt in [false, true] {
        for event in [RunEvent::Opened, RunEvent::AsrFailed(AsrFailure::TimedOut), heard("你好", true)] {
            let mut service = VoiceService::new();
            let old = begun(&mut service);
            if interrupt {
                service.wsdata(message("1", "voice", Some(VoicePayload::Interrupt)), 0);
            }
            service.wsdata(gone(), 0);
            service.wsdata(message("1", "voice", Some(start())), 0);
            assert_silent(&mut service, old, event);
        }
    }
}

#[test]
fn old_answer_does_not_pass_for_the_new_one() {
    let mut service = VoiceService::new();
    let mut old = begun(&mut service);
    service.step(&mut old, RunEvent::Opened);
    assert!(matches!(service.step(&mut old, heard("一", true)).action, RunAction::Answer { .. }));
    service.wsdata(WsData::WsDisconnect { session_id: "voice-a-1".to_string() }, 0);
    let mut new = begun(&mut service);
    service.step(&mut new, RunEvent::Opened);
    let step = service.step(&mut new, heard("二", true));
    assert_eq!(step.cancels, None);
    assert!(matches!(step.action, RunAction::Answer { .. }));
    let item = LlmTtsItem::Llm { delta: "late".into(), is_final: true };
    assert_silent(&mut service, old, RunEvent::Item(item));
    let item = LlmTtsItem::Llm { delta: "now".into(), is_final: true };
    assert_eq!(service.step(&mut new, RunEvent::Item(item)).payloads.len(), 1);
}

#[test]
fn ended_conversation_stays_silent() {
    let mut service = VoiceService::new();
    let run = begun(&mut service);
    let end = VoicePayload::SessionEnd { reason: "bye".into() };
    service.wsdata(message("1", "voice", Some(end)), 0);
    service.wsdata(message("1", "voice", Some(start())), 0);
    assert_silent(&mut service, run, heard("你好", true));
    assert_eq!(service.stamp(), 3);
}

#[test]
fn live_recognition_has_its_own_sessions() {
    let mut service = VoiceService::new();
    let out = service.wsdata(message("9", "live-asr", Some(start())), 0);
    assert!(matches!(
        out,
        WsOutcome::LiveAsr { session_id, .. } if session_id == "live-asr-a-9"
    ));
    assert_eq!(service.session_count(), 0);
}

// ---- single abilities ----

#[test]
fn session_names_are_given_or_made() {
    assert_eq!(gen_sid("asr", 17), "test-asr-17");
    let given = LlmReq { prompt: "x".into(), session_id: Some("mine".into()) };
    assert_eq!(given.session(1), "mine");
    let made = TtsReq { text: "x".into(), session_id: None, voice: None };
    assert_eq!(made.session("llm_tts", 5), "test-llm_tts-5");
}

#[test]
fn lines_are_json_objects() {
    let e = AsrEvent { text: "你\"".into(), is_final: true, language: None };
    assert_eq!(
        asr_stream_line(Ok(e)),
        ("{\"text\":\"你\\\"\",\"is_final\":true}\n".to_string(), true)
    );
    let e = LlmEvent { delta: "a".into(), is_final: false };
    assert_eq!(
        llm_stream_line(Ok(e)),
        ("{\"delta\":\"a\",\"is_final\":false}\n".to_string(), true)
    );
    assert_eq!(
        llm_stream_line(Err(ClientError::Http("x".into()))),
        ("{\"error\":\"http error: x\",\"code\":500}\n".to_string(), false)
    );
    let tts = || LlmTtsItem::Tts { seq: 2, audio: "AQI=".into(), is_last: false };
    assert_eq!(
        llm_tts_line(tts()).unwrap(),
        "{\"seq\":2,\"audio\":\"AQI=\",\"is_last\":false}\n"
    );
    assert_eq!(
        stage_line(tts()),
        "{\"stage\":\"tts\",\"seq\":2,\"audio\":\"AQI=\",\"is_last\":false}\n"
    );
    let llm = || LlmTtsItem::Llm { delta: "d".into(), is_final: true };
    assert!(llm_tts_line(llm()).is_none());
    assert_eq!(stage_line(llm()), "{\"stage\":\"llm\",\"delta\":\"d\",\"is_final\":true}\n");
    let failed = LlmTtsItem::Failed { error: "e".into(), code: 1003 };
    assert_eq!(stage_line(failed), "{\"error\":\"e\",\"code\":1003}\n");
}

#[test]
fn voices_are_listed() {
    let s = voices("alex");
    assert!(s.starts_with("{\"voices\":[\"aiden\",\"alex\","));
    assert!(s.ends_with("],\"default\":\"alex\"}"));
}

#[test]
fn text_is_spoken_sentence_by_sentence() {
    let (mut speech, mut step) = TextSpeech::start("第一句。第二句！ 尾巴 ".into());
    let mut asked = Vec::new();
    let mut items = Vec::new();
    loop {
        items.extend(step.items);
        step = match step.action {
            TextAction::Synthesize(text) => {
                asked.push(text);
                speech.step(TextEvent::Started)
            }
            TextAction::Read => {
                speech.step(TextEvent::Audio { data: vec![1, 0, 2, 0], is_last: true })
            }
            TextAction::Done => break,
        };
    }
    assert_eq!(asked, vec!["第一句。", "第二句！", "尾巴"]);
    let mut last = 0;
    for item in &items {
        match item {
            LlmTtsItem::Tts { seq, .. } => {
                assert_eq!(*seq, last + 1);
                last = *seq;
            }
            _ => panic!("only audio"),
        }
    }
    assert!(matches!(
        items.last(),
        Some(LlmTtsItem::Tts { audio, is_last: true, .. }) if audio.is_empty()
    ));
}

#[test]
fn failed_speech_is_told() {
    let (mut speech, _) = TextSpeech::start("一。二".into());
    let step = speech.step(TextEvent::CallFailed(ClientError::Http("x".into())));
    assert!(matches!(
        &step.items[0],
        LlmTtsItem::Failed { error, code: 1004 } if error == "tts error: http error: x"
    ));
    assert!(matches!(step.action, TextAction::Done));
    let (mut speech, _) = TextSpeech::start("一。二".into());
    speech.step(TextEvent::Started);
    let step = speech.step(TextEvent::StreamFailed(ClientError::Http("x".into())));
    assert!(matches!(&step.items[0], LlmTtsItem::Failed { code: 1005, .. }));
    let (mut speech, first) = TextSpeech::start("尾巴".into());
    assert!(matches!(first.action, TextAction::Synthesize(t) if t == "尾巴"));
    let step = speech.step(TextEvent::CallFailed(ClientError::Http("x".into())));
    assert!(matches!(&step.items[0], LlmTtsItem::Tts { seq: 1, is_last: true, .. }));
    let (_, nothing) = TextSpeech::start("  ".into());
    assert!(matches!(nothing.action, TextAction::Done));
    assert_eq!(nothing.items.len(), 1);
}

fn stage_heard(text: &str) -> StageEvent {
    StageEvent::Heard(AsrEvent { text: text.into(), is_final: true, language: None })
}

#[test]
fn recording_is_answered_in_stages() {
    let mut run = StageRun::new();
    let step = run.step(stage_heard("<|zh|><|SAD|> 好 "));
    assert_eq!(
        step.line.unwrap(),
        "{\"stage\":\"asr\",\"text\":\"<|zh|><|SAD|> 好 \",\"is_final\":true}\n"
    );
    let step = run.step(StageEvent::HeardAll);
    assert!(step.line.is_none());
    assert!(matches!(
        step.action,
        StageAction::Answer { text, emotion } if text == "好" && emotion.as_deref() == Some("悲伤")
    ));
    let item = LlmTtsItem::Llm { delta: "d".into(), is_final: true };
    assert!(run.step(StageEvent::Item(item)).line.is_some());
    assert!(matches!(run.step(StageEvent::ItemsEnded).action, StageAction::Stop));
}

#[test]
fn recording_without_speech_is_reported() {
    let mut run = StageRun::new();
    let step = run.step(StageEvent::HeardAll);
    assert_eq!(step.line.unwrap(), "{\"error\":\"asr result empty\",\"code\":1001}\n");
    let mut run = StageRun::new();
    run.step(stage_heard("<|zh|>"));
    let step = run.step(StageEvent::HeardAll);
    assert_eq!(
        step.line.unwrap(),
        "{\"error\":\"asr result empty after stripping tags\",\"code\":1001}\n"
    );
    let error = OpenAiError {
        message: "m".into(),
        type_: None,
        param: None,
        code: "c".into(),
    };
    let mut run = StageRun::new();
    let failed = ClientError::Api { status: 400, error };
    let (_, envelope) = failed.render_api_envelope().unwrap();
    let line = run.step(StageEvent::AsrCallFailed(failed)).line.unwrap();
    let value: serde_json::Value = serde_json::from_str(&line).unwrap();
    assert_eq!(value["code"], 1001);
    assert_eq!(value["type"], envelope);
    let mut run = StageRun::new();
    let line = run.step(StageEvent::AsrStreamFailed(ClientError::Http("x".into()))).line.unwrap();
    assert_eq!(line, "{\"error\":\"asr stream: http error: x\",\"code\":1001}\n");
}

// ---- metrics ----

/// How often each histogram was observed.
fn observed(events: Vec<SinkEvent>, name: &str) -> usize {
    events
        .into_iter()
        .flat_map(updates)
        .filter(|u| matches!(u, MetricUpdate::Observe(m, _) if m.name() == name))
        .count()
}

#[test]
fn noop_sink_accepts_pipeline_events_without_prometheus() {
    let sink = NoopMetricsSink;
    let (mut guard, started) = PipelineMetricsGuard::start(0, 0, 0);
    let mut events = vec![started];
    events.extend(guard.record_first_audio(10_000));
    events.extend(guard.finish(PipelineResult::Success, 20_000));
    events.extend(guard.close(20_000));
    for e in events {
        assert!(sink.updates(e).is_empty());
    }
}

#[test]
fn renders_latency_contract_metrics() {
    let (mut guard, started) = PipelineMetricsGuard::start(0, 10_000, 0);
    let mut events = vec![started];
    events.extend(guard.record_asr_output_end(20_000, 30_000));
    events.extend(guard.record_llm_first_text(40_000, 50_000));
    events.extend(guard.record_tts_first_frame(70_000));
    events.extend(guard.record_first_audio_ws_sent(75_000));
    events.extend(guard.finish(PipelineResult::Success, 80_000));
    events.extend(guard.close(80_000));
    events.push(SinkEvent::ClientFirstAudioReceivedToPlayback(25_000));
    events.push(SinkEvent::ClientInputEndToFinalAudioSent(2_000));
    for name in [
        "voice_input_end_to_asr_output_end_seconds",
        "voice_input_end_to_llm_first_text_seconds",
        "voice_input_end_to_tts_first_frame_seconds",
        "voice_input_end_to_ws_first_audio_sent_seconds",
        "voice_asr_input_to_output_end_seconds",
        "voice_llm_input_to_first_text_seconds",
        "voice_llm_first_text_to_tts_first_frame_seconds",
        "voice_tts_first_frame_to_ws_first_audio_sent_seconds",
        "voice_client_first_audio_received_to_playback_seconds",
        "voice_client_input_end_to_final_audio_sent_seconds",
    ] {
        assert_eq!(observed(events.clone(), name), 1, "missing {name}");
    }
    for m in Metric::all() {
        for retired in [
            "voice_e2e_utterance_end_to_tts_first_audio_seconds",
            "voice_asr_duration_seconds",
            "voice_llm_time_to_first_token_seconds",
            "voice_e2e_tts_first_audio_to_client_playback_seconds",
        ] {
            assert_ne!(m.name(), retired, "retired metric remains: {retired}");
        }
        for label in m.label_names() {
            assert!(!["session_id", "request_id", "message_id"].contains(&label));
        }
    }
}

#[test]
fn renders_low_cardinality_llm_route_and_escalation_metrics() {
    let mut counted = Vec::new();
    for e in [
        SinkEvent::LlmRoute(ModelTier::Fast, 1_000),
        SinkEvent::LlmEscalated(EscalationReason::EmptyResponse),
    ] {
        for u in updates(e) {
            if let MetricUpdate::IncLabelled(m, values) = u {
                counted.push((m.name(), m.label_names(), values.values()));
            }
        }
    }
    assert_eq!(
        counted,
        vec![
            ("voice_llm_route_total", vec!["route"], vec!["fast"]),
            (
                "voice_llm_escalation_total",
                vec!["from", "to", "reason"],
                vec!["fast", "strong", "empty_response"],
            ),
        ]
    );
}

#[test]
fn bounds_client_reported_durations_and_keeps_them_unlabelled() {
    let events = vec![
        SinkEvent::ClientFirstAudioReceivedToPlayback(31_000_000),
        SinkEvent::ClientFirstAudioReceivedToPlayback(120_000),
        SinkEvent::ClientInputEndToFinalAudioSent(31_000_000),
        SinkEvent::ClientInputEndToFinalAudioSent(4_000),
    ];
    for name in [
        "voice_client_first_audio_received_to_playback_seconds",
        "voice_client_input_end_to_final_audio_sent_seconds",
    ] {
        assert_eq!(observed(events.clone(), name), 1);
    }
}

use voice_server::codec::{base64_decode, base64_encode};
use voice_server::crossfade::{crossfade, SentenceCrossfader, FADE_BYTES};
use voice_server::emotion::{parse_asr_emotion_tags, Emotion};
use voice_server::error::ClientError;
use voice_server::events::{LlmEvent, TtsEvent};
use voice_server::llm_tts::{open_failed, LlmTtsPipeline, PipeAction, PipeEvent, PipePhase};
use voice_server::pipeline::LlmTtsItem;
use voice_server::sentence::{next_sentence_end, split_sentence};
use voice_server::speech::{effective_char_count, to_tts_text, TtsSentenceBuffer};

#[test]
fn finds_chinese_period() {
    let s = "你好世界。今天天气不错";
    assert_eq!(next_sentence_end(s), Some(15));
}

#[test]
fn finds_exclamation() {
    let s = "快跑！";
    assert_eq!(next_sentence_end(s), Some(9));
}

#[test]
fn finds_english_period() {
    let s = "Hello world.";
    assert_eq!(next_sentence_end(s), Some(12));
}

#[test]
fn finds_question_mark() {
    let s = "为什么？";
    assert_eq!(next_sentence_end(s), Some(12));
}

#[test]
fn returns_none_when_no_sentence_end() {
    let s = "你好世界今天天气不错";
    assert_eq!(next_sentence_end(s), None);
}

#[test]
fn returns_first_match() {
    let s = "第一句。第二句。";
    assert_eq!(next_sentence_end(s), Some(12));
}

#[test]
fn removes_markdown_syntax_and_newline_tokens() {
    assert_eq!(
        to_tts_text("## 标题\\n\\n**好的**，请查看[帮助文档](https://example.com)。"),
        "标题 好的，请查看帮助文档。"
    );
}

#[test]
fn removes_emojis_from_tts_text() {
    assert_eq!(to_tts_text("我很开心😊，真的👍。"), "我很开心，真的。");
}

#[test]
fn removes_emoji_variation_and_zwj_components() {
    assert_eq!(to_tts_text("状态：👨‍💻，完成✅。"), "状态：，完成。");
}

#[test]
fn buffers_short_sentences_until_threshold() {
    let mut buffer = TtsSentenceBuffer::default();

    assert_eq!(buffer.push("好的。"), None);
    assert_eq!(
        buffer.push("我马上处理。"),
        Some("好的。我马上处理。".to_string())
    );
    assert_eq!(buffer.flush(), None);
}

#[test]
fn flushes_short_residue_at_end_of_stream() {
    let mut buffer = TtsSentenceBuffer::default();
    assert_eq!(buffer.push("嗯。"), None);
    assert_eq!(buffer.flush(), Some("嗯。".to_string()));
}

#[test]
fn parse_normal_tags_strips_and_extracts_emotion() {
    let r = parse_asr_emotion_tags("<|zh|><|SAD|><|Speech|><|woitn|>今天好累。");
    assert_eq!(r.text, "今天好累。");
    assert_eq!(r.emotion.as_deref(), Some("悲伤"));
}

#[test]
fn parse_keeps_internal_whitespace() {
    let r = parse_asr_emotion_tags("你好世界 <|zh|><|HAPPY|><|Speech|>!");
    assert_eq!(r.text, "你好世界 !");
    assert_eq!(r.emotion.as_deref(), Some("开心"));
}

#[test]
fn parse_no_tags_returns_original() {
    let r = parse_asr_emotion_tags("纯文本没有标签。");
    assert_eq!(r.text, "纯文本没有标签。");
    assert!(r.emotion.is_none());
}

#[test]
fn parse_single_tag_has_no_emotion() {
    let r = parse_asr_emotion_tags("说话内容<|zh|>尾巴");
    assert_eq!(r.text, "说话内容尾巴");
    assert!(r.emotion.is_none());
}

#[test]
fn parse_unclosed_tag_kept_as_literal() {
    let r = parse_asr_emotion_tags("a<|b ");
    assert_eq!(r.text, "a<|b");
    assert!(r.emotion.is_none());
}

#[test]
fn parse_only_tags_yields_empty_text() {
    let r = parse_asr_emotion_tags("<|zh|><|NEUTRAL|><|Speech|>");
    assert_eq!(r.text, "");
    assert_eq!(r.emotion.as_deref(), Some("中性"));
}

#[test]
fn parse_unk_emotion_is_treated_as_none() {
    for tag in [
        "unk",
        "UNK",
        "Unk",
        "uNk",
        "EMO_UNKNOWN",
        "emo_unknown",
        "Emo_Unknown",
    ] {
        let r = parse_asr_emotion_tags(&format!("你好世界<|zh|><|{tag}|><|Speech|>"));
        assert_eq!(r.text, "你好世界", "tag={tag}");
        assert!(r.emotion.is_none(), "tag={tag} should be None");
    }
}

#[test]
fn emotion_enum_maps_all_seven_tags_to_chinese() {
    let cases: &[(&str, Emotion, &str)] = &[
        ("HAPPY", Emotion::Happy, "开心"),
        ("SAD", Emotion::Sad, "悲伤"),
        ("ANGRY", Emotion::Angry, "愤怒"),
        ("NEUTRAL", Emotion::Neutral, "中性"),
        ("FEARFUL", Emotion::Fearful, "恐惧"),
        ("DISGUSTED", Emotion::Disgusted, "厌恶"),
        ("SURPRISED", Emotion::Surprised, "惊讶"),
    ];
    for (tag, expected_variant, expected_zh) in cases {
        assert_eq!(Emotion::from_tag(tag), Some(*expected_variant), "tag={tag}");
        assert_eq!(Emotion::from_tag(&tag.to_ascii_lowercase()), Some(*expected_variant), "tag lower={tag}");
        assert_eq!(Emotion::from_tag(tag).unwrap().label_zh(), *expected_zh);
    }
    assert_eq!(Emotion::from_tag("Speech"), None);
    assert_eq!(Emotion::from_tag("woitn"), None);
    assert_eq!(Emotion::from_tag(""), None);
}

#[test]
fn parse_known_emotion_returns_chinese_label() {
    let cases: &[(&str, &str)] = &[
        ("HAPPY", "开心"),
        ("happy", "开心"),
        ("SAD", "悲伤"),
        ("ANGRY", "愤怒"),
        ("NEUTRAL", "中性"),
        ("FEARFUL", "恐惧"),
        ("DISGUSTED", "厌恶"),
        ("SURPRISED", "惊讶"),
    ];
    for (tag, zh) in cases {
        let r = parse_asr_emotion_tags(&format!("<|zh|><|{tag}|><|Speech|>今天天气不错"));
        assert_eq!(r.emotion.as_deref(), Some(*zh), "tag={tag}");
    }
}

#[test]
fn parse_unknown_tag_does_not_set_emotion() {
    let r = parse_asr_emotion_tags("<|zh|><|Speech|><|NEUTRAL|>text");
    assert!(r.emotion.is_none(), "Speech 不是情绪标签，应为 None");

    let r = parse_asr_emotion_tags("<|zh|><|woitn|><|NEUTRAL|>text");
    assert!(r.emotion.is_none(), "woitn 不是情绪标签，应为 None");

    let r = parse_asr_emotion_tags("<|zh|><|CUSTOM_EMOTION|><|Speech|>text");
    assert!(r.emotion.is_none(), "未在 7 类里的自定义标签，应为 None");
}

#[test]
fn sentences_make_up_the_text() {
    let text = "一。二！三？four. five! six? rest";
    let mut rest = text.to_string();
    let mut joined = String::new();
    let mut count = 0;
    while let Some((sentence, more)) = split_sentence(&rest) {
        assert_eq!(next_sentence_end(&rest), Some(sentence.len()));
        joined.push_str(&sentence);
        rest = more;
        count += 1;
    }
    joined.push_str(&rest);
    assert_eq!(joined, text);
    assert_eq!(count, 6);
    assert_eq!(rest, " rest");
}

#[test]
fn code_blocks_are_not_spoken() {
    assert_eq!(effective_char_count("好的。a1 !"), 4);
    assert_eq!(to_tts_text("- 第一\n1. 第二"), "第一 第二");
    assert_eq!(to_tts_text("`code` 和 *重点*"), "code 和 重点");
}

// ---- cross-fading ----

fn blend(a: &[u8], b: &[u8]) -> Vec<u8> {
    let n = a.len() / 2;
    let mut out = Vec::with_capacity(a.len());
    for i in 0..n {
        let t = (i + 1) as f32 / (n + 1) as f32;
        let sa = i16::from_le_bytes([a[2 * i], a[2 * i + 1]]) as f32;
        let sb = i16::from_le_bytes([b[2 * i], b[2 * i + 1]]) as f32;
        out.extend_from_slice(&((sa * (1.0 - t) + sb * t) as i16).to_le_bytes());
    }
    out
}

/// Bytes that look random and are always the same.
fn noise(seed: u32, len: usize) -> Vec<u8> {
    let mut x = seed.wrapping_mul(2654435761).wrapping_add(12345);
    (0..len)
        .map(|_| {
            x ^= x << 13;
            x ^= x >> 17;
            x ^= x << 5;
            (x >> 8) as u8
        })
        .collect()
}

#[test]
fn crossfade_is_the_linear_blend() {
    for n in 0..=FADE_BYTES / 2 {
        for seed in 0..40 {
            let a = noise(seed * 2 + 1, 2 * n);
            let b = noise(seed * 2 + 2, 2 * n);
            assert_eq!(crossfade(&a, &b), blend(&a, &b), "n={n} seed={seed}");
        }
    }
    for (x, y) in [(i16::MIN, i16::MAX), (i16::MAX, i16::MIN), (0, -1), (1, 0), (i16::MIN, 0)] {
        let a: Vec<u8> = (0..160).flat_map(|_| x.to_le_bytes()).collect();
        let b: Vec<u8> = (0..160).flat_map(|_| y.to_le_bytes()).collect();
        assert_eq!(crossfade(&a, &b), blend(&a, &b));
    }
}

#[test]
fn single_sentence_is_unchanged() {
    let pcm = noise(7, 1000);
    let mut fader = SentenceCrossfader::default();
    fader.begin_sentence();
    let mut out = fader.feed(&pcm[..10]);
    out.extend(fader.feed(&pcm[10..700]));
    out.extend(fader.feed(&pcm[700..]));
    assert_eq!(out, &pcm[..1000 - FADE_BYTES]);
    out.extend(fader.end_sentence());
    out.extend(fader.finish());
    assert_eq!(out, pcm);
}

#[test]
fn two_sentences_overlap_by_the_fade() {
    let a = noise(1, 900);
    let b = noise(2, 800);
    let mut fader = SentenceCrossfader::default();
    let mut out = Vec::new();
    for s in [&a, &b] {
        fader.begin_sentence();
        out.extend(fader.feed(s));
        out.extend(fader.end_sentence());
    }
    out.extend(fader.finish());
    let mut want = a[..900 - FADE_BYTES].to_vec();
    want.extend(blend(&a[900 - FADE_BYTES..], &b[..FADE_BYTES]));
    want.extend_from_slice(&b[FADE_BYTES..]);
    assert_eq!(out, want);
}

#[test]
fn sentence_shorter_than_the_fade_is_blended() {
    let a = noise(3, 640);
    let b = noise(4, 101);
    let mut fader = SentenceCrossfader::default();
    fader.begin_sentence();
    let mut out = fader.feed(&a);
    out.extend(fader.end_sentence());
    fader.begin_sentence();
    out.extend(fader.feed(&b));
    out.extend(fader.end_sentence());
    out.extend(fader.finish());
    let mut want = a[..320].to_vec();
    want.extend(blend(&a[320..420], &b[..100]));
    want.push(b[100]);
    assert_eq!(out, want);
}

#[test]
fn sentence_after_a_short_one_keeps_the_length_of_its_tail() {
    let a = noise(5, 100);
    let b = noise(6, 700);
    let mut fader = SentenceCrossfader::default();
    let mut out = Vec::new();
    for s in [&a, &b] {
        fader.begin_sentence();
        out.extend(fader.feed(s));
        out.extend(fader.end_sentence());
    }
    out.extend(fader.finish());
    let mut want = blend(&a, &b[..100]);
    want.extend_from_slice(&b[320..]);
    assert_eq!(out, want);
}

#[test]
fn three_sentences_overlap_twice() {
    let parts = [noise(7, 900), noise(8, 640), noise(9, 1000)];
    let mut fader = SentenceCrossfader::default();
    let mut out = Vec::new();
    for s in &parts {
        fader.begin_sentence();
        out.extend(fader.feed(s));
        out.extend(fader.end_sentence());
    }
    out.extend(fader.finish());
    assert_eq!(out.len(), 900 + 640 + 1000 - 2 * FADE_BYTES);
    assert_eq!(&out[..580], &parts[0][..580]);
    assert_eq!(&out[580..900], blend(&parts[0][580..], &parts[1][..320]));
    assert_eq!(&out[900..1220], blend(&parts[1][320..], &parts[2][..320]));
    assert_eq!(&out[1220..], &parts[2][320..]);
}

// ---- answer and speech ----

fn said(delta: &str, is_final: bool) -> PipeEvent {
    PipeEvent::Llm {
        event: LlmEvent { delta: delta.to_string(), is_final },
        cleaned: delta.to_string(),
    }
}

fn audio(is_last: bool) -> TtsEvent {
    TtsEvent { seq: 1, data: vec![1, 0, 2, 0], is_last }
}

struct Run {
    requests: Vec<String>,
    items: Vec<LlmTtsItem>,
    flushes: usize,
    finishes: usize,
    closed: bool,
}

/// Runs a pipeline to its end, with a model that says these pieces.
fn run(incremental: bool, pieces: &[&str]) -> Run {
    let mut pipe = LlmTtsPipeline::new(incremental);
    let mut out =
        Run { requests: Vec::new(), items: Vec::new(), flushes: 0, finishes: 0, closed: false };
    let mut next = 0;
    let mut action = PipeAction::ReadLlm;
    for _ in 0..1000 {
        let event = match action {
            PipeAction::ReadLlm => {
                if next < pieces.len() {
                    next += 1;
                    said(pieces[next - 1], next == pieces.len())
                } else {
                    PipeEvent::LlmEnded
                }
            }
            PipeAction::Synthesize(text) => {
                out.requests.push(text);
                PipeEvent::TtsStarted
            }
            PipeAction::ReadTts => PipeEvent::Audio(audio(true)),
            PipeAction::SendText(text) => {
                out.requests.push(format!("text:{text}"));
                PipeEvent::TextSent
            }
            PipeAction::Flush => {
                out.requests.push("input.done".to_string());
                out.flushes += 1;
                PipeEvent::Flushed(vec![audio(true)])
            }
            PipeAction::EndSession => {
                out.finishes += 1;
                PipeEvent::SessionEnded
            }
            PipeAction::Stop { close } => {
                out.closed = close;
                assert_eq!(pipe.phase(), PipePhase::Done);
                return out;
            }
            PipeAction::Keep => panic!("an event out of place"),
        };
        let step = pipe.step(event);
        out.items.extend(step.items);
        action = step.action;
    }
    panic!("the pipeline does not end");
}

fn check_numbers(items: &[LlmTtsItem]) {
    let mut last = 0;
    for item in items {
        if let LlmTtsItem::Tts { seq, .. } = item {
            assert_eq!(*seq, last + 1);
            last = *seq;
        }
    }
    assert!(matches!(
        items.last(),
        Some(LlmTtsItem::Tts { audio, is_last: true, .. }) if audio.is_empty()
    ));
}

#[test]
fn cleans_markdown_before_calling_tts() {
    let r = run(false, &["## **你好世界。**"]);
    assert_eq!(r.requests, vec!["你好世界。"]);
    check_numbers(&r.items);
}

#[test]
fn merges_short_sentence_with_the_next_tts_request() {
    let r = run(false, &["好的。我马上处理。"]);
    assert_eq!(r.requests, vec!["好的。我马上处理。"]);
    check_numbers(&r.items);
}

#[test]
fn incremental_waits_for_session_done_before_next_sentence() {
    let r = run(true, &["第一句。第二句。"]);
    assert_eq!(r.requests, vec!["text:第一句。", "input.done", "text:第二句。", "input.done"]);
    assert_eq!(r.flushes, 2);
    assert_eq!(r.finishes, 1);
    check_numbers(&r.items);
}

#[test]
fn incremental_sends_each_delta_without_sentence_buffering() {
    let r = run(true, &["第一", "句", "。"]);
    assert_eq!(r.requests, vec!["text:第一", "text:句", "text:。", "input.done"]);
    assert_eq!(r.flushes, 1);
    assert_eq!(r.finishes, 1);
}

#[test]
fn answer_is_passed_on_piece_by_piece() {
    let r = run(false, &["你好", "世界。再见"]);
    let deltas: Vec<(String, bool)> = r
        .items
        .iter()
        .filter_map(|i| match i {
            LlmTtsItem::Llm { delta, is_final } => Some((delta.clone(), *is_final)),
            _ => None,
        })
        .collect();
    assert_eq!(deltas, vec![("你好".to_string(), false), ("世界。再见".to_string(), true)]);
}

#[test]
fn passed_on_audio_decodes() {
    let r = run(false, &["你好世界啊。"]);
    let pcm: Vec<u8> = r
        .items
        .iter()
        .filter_map(|i| match i {
            LlmTtsItem::Tts { audio, .. } => Some(base64_decode(audio).unwrap()),
            _ => None,
        })
        .flatten()
        .collect();
    assert_eq!(pcm, vec![1, 0, 2, 0]);
    assert_eq!(base64_encode(&[1, 2]), "AQI=");
    assert!(base64_decode("###").is_err());
}

fn failed_with(items: &[LlmTtsItem]) -> (String, u16) {
    match items.last() {
        Some(LlmTtsItem::Failed { error, code }) => (error.clone(), *code),
        _ => panic!("no failure"),
    }
}

#[test]
fn each_failure_has_its_code() {
    let broken = || ClientError::Ws("x".to_string());
    let text = broken().to_string();

    let step = LlmTtsPipeline::new(false).step(PipeEvent::LlmCallFailed(broken()));
    assert_eq!(failed_with(&step.items), (format!("llm error: {text}"), 1002));
    let step = LlmTtsPipeline::new(false).step(PipeEvent::LlmStreamFailed(broken()));
    assert_eq!(failed_with(&step.items), (format!("llm stream: {text}"), 1003));

    let mut pipe = LlmTtsPipeline::new(false);
    assert!(matches!(pipe.step(said("你好世界啊。", false)).action, PipeAction::Synthesize(_)));
    let step = pipe.step(PipeEvent::TtsCallFailed(broken()));
    assert_eq!(failed_with(&step.items), (format!("tts error: {text}"), 1004));
    assert!(matches!(step.action, PipeAction::Stop { .. }));

    let mut pipe = LlmTtsPipeline::new(false);
    pipe.step(said("你好世界啊。", false));
    assert!(matches!(pipe.step(PipeEvent::TtsStarted).action, PipeAction::ReadTts));
    let step = pipe.step(PipeEvent::TtsStreamFailed(broken()));
    assert_eq!(failed_with(&step.items), (format!("tts stream: {text}"), 1005));
    assert!(matches!(
        open_failed(&broken()),
        LlmTtsItem::Failed { code: 1004, .. }
    ));
}

//! The single abilities of the server over HTTP: what a request is answered, line by line.
//!
//! Each line is a JSON object. A failure in the middle of an answer is a line of its own, after
//! which nothing follows. Its code tells the stage: 1001 recognition, 1002 and 1003 the language
//! model, 1004 and 1005 speech.

use vstd::prelude::*;

use crate::emotion::{parse_asr_emotion_tags, parse_tags_spec};
use crate::error::{envelope_text, error_text, ClientError};
use crate::events::{AsrEvent, LlmEvent};
use crate::json::{
    array_text, bool_member, json_string, json_text, number_member, object_text, opt_text_member,
    raw_member, text_member, write_array, ObjectWriter,
};
use crate::pipeline::{
    all_playable, audio_begin, audio_end, audio_feed, audio_finish, audio_start, item_views,
    lemma_emit_numbered, lemma_finish_numbered, lemma_numbered_concat, lemma_playable_none,
    lemma_playable_push, numbered, AudioOut, AudioState, ItemView, LlmTtsItem, MAX_SEQ,
};
use crate::sentence::{complete_sentences, sentence_len, split_sentence, unfinished_sentence};
use crate::text::{
    concat, concat3, decimal, decimal_of, opt_str_view, opt_view, trim, trim_spec, views,
};
use crate::voices::{supported_voice_shorts, voice_table};

verus! {

// ---- requests ----

/// A request to the language model.
#[derive(Debug)]
pub struct LlmReq {
    pub prompt: String,
    pub session_id: Option<String>,
}

/// A request for speech.
#[derive(Debug)]
pub struct TtsReq {
    pub text: String,
    pub session_id: Option<String>,
    /// The short name of a voice.
    pub voice: Option<String>,
}

/// The name of a session of which the client gave none: what it is for, and when it began.
pub open spec fn sid_spec(prefix: Seq<char>, millis: u64) -> Seq<char> {
    "test-"@ + prefix + "-"@ + decimal(millis as nat)
}

/// The name of a session of which the client gave none.
pub fn gen_sid(prefix: &str, millis: u64) -> (r: String)
    ensures
        r@ == sid_spec(prefix@, millis),
{
    let head = concat3("test-", prefix, "-");
    concat(head.as_str(), decimal_of(millis).as_str())
}

/// The name of a session: the one that the client gave, else one of our own.
pub open spec fn session_spec(given: Option<Seq<char>>, prefix: Seq<char>, millis: u64) -> Seq<char> {
    match given {
        Some(id) => id,
        None => sid_spec(prefix, millis),
    }
}

fn session_or(given: &Option<String>, prefix: &str, millis: u64) -> (r: String)
    ensures
        r@ == session_spec(opt_view(*given), prefix@, millis),
{
    match given {
        Some(id) => id.clone(),
        None => gen_sid(prefix, millis),
    }
}

impl LlmReq {
    /// The name of the session, at this time in milliseconds.
    pub fn session(&self, millis: u64) -> (r: String)
        ensures
            r@ == session_spec(opt_view(self.session_id), "llm"@, millis),
    {
        session_or(&self.session_id, "llm", millis)
    }
}

impl TtsReq {
    /// The name of the session of an endpoint, at this time in milliseconds.
    pub fn session(&self, endpoint: &str, millis: u64) -> (r: String)
        ensures
            r@ == session_spec(opt_view(self.session_id), endpoint@, millis),
    {
        session_or(&self.session_id, endpoint, millis)
    }
}

// ---- lines ----

/// A result of recognition.
#[derive(Debug)]
pub struct AsrLine {
    pub text: String,
    pub is_final: bool,
}

/// A piece of an answer.
#[derive(Debug)]
pub struct LlmLine {
    pub delta: String,
    pub is_final: bool,
}

/// A piece of speech, in Base64.
#[derive(Debug)]
pub struct TtsLine {
    pub seq: u32,
    pub audio: String,
    pub is_last: bool,
}

/// A failure.
#[derive(Debug)]
pub struct ErrorLine {
    pub error: String,
    /// The stage that failed.
    pub code: u16,
    /// What the service answered.
    pub type_: Option<String>,
    /// The field that is to blame.
    pub param: Option<String>,
}

/// Where the line stands in an answer that tells its stages.
pub open spec fn stage_member(stage: Option<Seq<char>>) -> Seq<crate::json::Member> {
    opt_text_member("stage"@, stage)
}

pub open spec fn asr_json(stage: Option<Seq<char>>, text: Seq<char>, is_final: bool) -> Seq<char> {
    object_text(
        stage_member(stage) + text_member("text"@, text) + bool_member("is_final"@, is_final),
    )
}

pub open spec fn llm_json(stage: Option<Seq<char>>, delta: Seq<char>, is_final: bool) -> Seq<char> {
    object_text(
        stage_member(stage) + text_member("delta"@, delta) + bool_member("is_final"@, is_final),
    )
}

pub open spec fn tts_json(
    stage: Option<Seq<char>>,
    seq: u32,
    audio: Seq<char>,
    is_last: bool,
) -> Seq<char> {
    object_text(
        stage_member(stage) + number_member("seq"@, seq as nat) + text_member("audio"@, audio)
            + bool_member("is_last"@, is_last),
    )
}

pub open spec fn error_json(
    error: Seq<char>,
    code: u16,
    kind: Option<Seq<char>>,
    param: Option<Seq<char>>,
) -> Seq<char> {
    object_text(
        text_member("error"@, error) + number_member("code"@, code as nat) + opt_text_member(
            "type"@,
            kind,
        ) + opt_text_member("param"@, param),
    )
}

/// A failure of which nothing more is known.
pub open spec fn plain_error(error: Seq<char>, code: u16) -> Seq<char> {
    error_json(error, code, None, None)
}

/// A line as it is sent.
pub open spec fn line_spec(json: Seq<char>) -> Seq<char> {
    json.push('\n')
}

/// A line as it is sent.
pub fn ndjson_line(json: String) -> (r: String)
    ensures
        r@ == line_spec(json@),
{
    let mut s = json;
    s.push('\n');
    s
}

fn stage_text(stage: Option<&str>) -> (r: Option<String>)
    ensures
        opt_view(r) == opt_str_view(stage),
{
    match stage {
        Some(s) => Some(s.to_string()),
        None => None,
    }
}

impl AsrLine {
    /// The line, with its stage where it is told.
    pub fn to_json(&self, stage: Option<&str>) -> (r: String)
        ensures
            r@ == asr_json(opt_str_view(stage), self.text@, self.is_final),
    {
        let mut w = ObjectWriter::new();
        w.opt_text("stage", &stage_text(stage));
        w.text("text", self.text.as_str());
        w.boolean("is_final", self.is_final);
        assert(w@ =~= stage_member(opt_str_view(stage)) + text_member("text"@, self.text@)
            + bool_member("is_final"@, self.is_final));
        w.finish()
    }
}

impl LlmLine {
    /// The line, with its stage where it is told.
    pub fn to_json(&self, stage: Option<&str>) -> (r: String)
        ensures
            r@ == llm_json(opt_str_view(stage), self.delta@, self.is_final),
    {
        let mut w = ObjectWriter::new();
        w.opt_text("stage", &stage_text(stage));
        w.text("delta", self.delta.as_str());
        w.boolean("is_final", self.is_final);
        assert(w@ =~= stage_member(opt_str_view(stage)) + text_member("delta"@, self.delta@)
            + bool_member("is_final"@, self.is_final));
        w.finish()
    }
}

impl TtsLine {
    /// The line, with its stage where it is told.
    pub fn to_json(&self, stage: Option<&str>) -> (r: String)
        ensures
            r@ == tts_json(opt_str_view(stage), self.seq, self.audio@, self.is_last),
    {
        let mut w = ObjectWriter::new();
        w.opt_text("stage", &stage_text(stage));
        w.number("seq", self.seq as u64);
        w.text("audio", self.audio.as_str());
        w.boolean("is_last", self.is_last);
        assert(w@ =~= stage_member(opt_str_view(stage)) + number_member("seq"@, self.seq as nat)
            + text_member("audio"@, self.audio@) + bool_member("is_last"@, self.is_last));
        w.finish()
    }
}

impl ErrorLine {
    /// A failure of which nothing more is known.
    pub fn new(error: String, code: u16) -> (r: Self)
        ensures
            r.error@ == error@,
            r.code == code,
            r.type_ is None,
            r.param is None,
    {
        ErrorLine { error, code, type_: None, param: None }
    }

    pub fn to_json(&self) -> (r: String)
        ensures
            r@ == error_json(self.error@, self.code, opt_view(self.type_), opt_view(self.param)),
    {
        let mut w = ObjectWriter::new();
        w.text("error", self.error.as_str());
        w.number("code", self.code as u64);
        w.opt_text("type", &self.type_);
        w.opt_text("param", &self.param);
        assert(w@ =~= text_member("error"@, self.error@) + number_member("code"@, self.code as nat)
            + opt_text_member("type"@, opt_view(self.type_)) + opt_text_member(
            "param"@,
            opt_view(self.param),
        ));
        w.finish()
    }
}

/// The line for something that came or failed, and whether more lines follow.
pub fn asr_stream_line(item: Result<AsrEvent, ClientError>) -> (r: (String, bool))
    ensures
        match item {
            Ok(e) => r.1 && r.0@ == line_spec(asr_json(None, e.text@, e.is_final)),
            Err(e) => !r.1 && r.0@ == line_spec(plain_error(error_text(e), 500)),
        },
{
    match item {
        Ok(e) => {
            let line = AsrLine { text: e.text, is_final: e.is_final };
            (ndjson_line(line.to_json(None)), true)
        },
        Err(e) => (ndjson_line(ErrorLine::new(e.to_string(), 500).to_json()), false),
    }
}

/// The line for something that came or failed, and whether more lines follow.
pub fn llm_stream_line(item: Result<LlmEvent, ClientError>) -> (r: (String, bool))
    ensures
        match item {
            Ok(e) => r.1 && r.0@ == line_spec(llm_json(None, e.delta@, e.is_final)),
            Err(e) => !r.1 && r.0@ == line_spec(plain_error(error_text(e), 500)),
        },
{
    match item {
        Ok(e) => {
            let line = LlmLine { delta: e.delta, is_final: e.is_final };
            (ndjson_line(line.to_json(None)), true)
        },
        Err(e) => (ndjson_line(ErrorLine::new(e.to_string(), 500).to_json()), false),
    }
}

/// The line for something that a pipeline passes on, where only speech is told.
pub open spec fn speech_line_spec(item: ItemView) -> Option<Seq<char>> {
    match item {
        ItemView::Llm { .. } => None,
        ItemView::Tts { seq, audio, is_last } => Some(
            line_spec(tts_json(None, seq, audio, is_last)),
        ),
        ItemView::Failed { error, code } => Some(line_spec(plain_error(error, code))),
    }
}

/// The line for something that a pipeline passes on, where only speech is told.
pub fn llm_tts_line(item: LlmTtsItem) -> (r: Option<String>)
    ensures
        opt_view(r) == speech_line_spec(item@),
{
    match item {
        LlmTtsItem::Llm { .. } => None,
        LlmTtsItem::Tts { seq, audio, is_last } => Some(
            ndjson_line(TtsLine { seq, audio, is_last }.to_json(None)),
        ),
        LlmTtsItem::Failed { error, code } => Some(
            ndjson_line(ErrorLine::new(error, code).to_json()),
        ),
    }
}

/// The line for something that a pipeline passes on, with its stage.
pub open spec fn stage_line_spec(item: ItemView) -> Seq<char> {
    line_spec(
        match item {
            ItemView::Llm { delta, is_final } => llm_json(Some("llm"@), delta, is_final),
            ItemView::Tts { seq, audio, is_last } => tts_json(Some("tts"@), seq, audio, is_last),
            ItemView::Failed { error, code } => plain_error(error, code),
        },
    )
}

/// The line for something that a pipeline passes on, with its stage.
pub fn stage_line(item: LlmTtsItem) -> (r: String)
    ensures
        r@ == stage_line_spec(item@),
{
    let json = match item {
        LlmTtsItem::Llm { delta, is_final } => LlmLine { delta, is_final }.to_json(Some("llm")),
        LlmTtsItem::Tts { seq, audio, is_last } => TtsLine { seq, audio, is_last }.to_json(
            Some("tts"),
        ),
        LlmTtsItem::Failed { error, code } => ErrorLine::new(error, code).to_json(),
    };
    ndjson_line(json)
}

/// The voices that can be chosen, as they are told.
pub open spec fn voices_json(default: Seq<char>) -> Seq<char> {
    object_text(
        raw_member(
            "voices"@,
            array_text(
                Seq::new(voice_table().len(), |i: int| json_string(voice_table()[i].short)),
            ),
        ) + text_member("default"@, default),
    )
}

/// The voices that can be chosen and the one that is used where none is.
pub fn voices(default: &str) -> (r: String)
    ensures
        r@ == voices_json(default@),
{
    let shorts = supported_voice_shorts();
    let ghost all = Seq::new(voice_table().len(), |i: int| json_string(voice_table()[i].short));
    let mut values: Vec<String> = Vec::new();
    for i in 0..shorts.len()
        invariant
            shorts@.len() == voice_table().len(),
            forall|k: int|
                0 <= k < shorts@.len() ==> (#[trigger] shorts@[k])@ == voice_table()[k].short,
            all == Seq::new(voice_table().len(), |i: int| json_string(voice_table()[i].short)),
            views(values@) == all.take(i as int),
    {
        let ghost before = values@;
        let value = json_text(shorts[i]);
        values.push(value);
        assert(shorts@[i as int]@ == voice_table()[i as int].short);
        assert(views(values@) =~= views(before).push(value@));
        assert(all.take(i + 1) =~= all.take(i as int).push(all[i as int]));
    }
    assert(all.take(shorts@.len() as int) =~= all);
    let mut w = ObjectWriter::new();
    w.raw("voices", write_array(&values).as_str());
    w.text("default", default);
    assert(w@ =~= raw_member("voices"@, array_text(all)) + text_member("default"@, default@));
    w.finish()
}

// ---- speech of a text ----

/// What speech of a text waits for.
#[derive(Debug, Clone, Copy, PartialEq, Eq, Structural)]
pub enum TextPhase {
    /// Speech of a sentence was asked for.
    Asking,
    /// Speech of a sentence is read.
    Reading,
    /// Speech of the rest was asked for.
    AskingTail,
    /// Speech of the rest is read.
    ReadingTail,
    Over,
}

/// What happens to speech of a text.
pub enum TextEvent {
    Started,
    CallFailed(ClientError),
    Audio { data: Vec<u8>, is_last: bool },
    StreamFailed(ClientError),
    StreamEnded,
}

pub ghost enum TextEventView {
    Started,
    CallFailed(Seq<char>),
    Audio { data: Seq<u8>, is_last: bool },
    StreamFailed(Seq<char>),
    StreamEnded,
}

impl View for TextEvent {
    type V = TextEventView;

    open spec fn view(&self) -> TextEventView {
        match *self {
            TextEvent::Started => TextEventView::Started,
            TextEvent::CallFailed(e) => TextEventView::CallFailed(error_text(e)),
            TextEvent::Audio { data, is_last } => TextEventView::Audio { data: data@, is_last },
            TextEvent::StreamFailed(e) => TextEventView::StreamFailed(error_text(e)),
            TextEvent::StreamEnded => TextEventView::StreamEnded,
        }
    }
}

/// What is to be done for speech of a text.
#[derive(Debug)]
pub enum TextAction {
    /// Ask for speech of this.
    Synthesize(String),
    /// Read on.
    Read,
    Done,
}

pub ghost enum TextActionView {
    Synthesize(Seq<char>),
    Read,
    Done,
}

impl View for TextAction {
    type V = TextActionView;

    open spec fn view(&self) -> TextActionView {
        match *self {
            TextAction::Synthesize(t) => TextActionView::Synthesize(t@),
            TextAction::Read => TextActionView::Read,
            TextAction::Done => TextActionView::Done,
        }
    }
}

/// What is passed on, and what is to be done.
#[derive(Debug)]
pub struct TextStep {
    pub items: Vec<LlmTtsItem>,
    pub action: TextAction,
}

pub ghost struct TextStepView {
    pub items: Seq<ItemView>,
    pub action: TextActionView,
}

impl View for TextStep {
    type V = TextStepView;

    open spec fn view(&self) -> TextStepView {
        TextStepView { items: item_views(self.items@), action: self.action@ }
    }
}

/// Speech of a text, sentence by sentence.
pub struct TextSpeech {
    phase: TextPhase,
    buf: String,
    audio: AudioOut,
}

pub ghost struct TextState {
    pub phase: TextPhase,
    /// What is not spoken yet.
    pub buf: Seq<char>,
    pub audio: AudioState,
}

impl View for TextSpeech {
    type V = TextState;

    closed spec fn view(&self) -> TextState {
        TextState { phase: self.phase, buf: self.buf@, audio: self.audio@ }
    }
}

/// The audio is complete.
pub open spec fn text_complete(s: TextState, items: Seq<ItemView>) -> (TextState, TextStepView) {
    let (audio, more) = audio_finish(s.audio);
    (
        TextState { phase: TextPhase::Over, audio, ..s },
        TextStepView { items: items + more, action: TextActionView::Done },
    )
}

/// The next sentence is asked for, or the rest, without white space around it, or all is done.
pub open spec fn text_next(s: TextState, items: Seq<ItemView>) -> (TextState, TextStepView) {
    match sentence_len(s.buf) {
        Some(n) => (
            TextState { phase: TextPhase::Asking, buf: s.buf.skip(n), ..s },
            TextStepView { items, action: TextActionView::Synthesize(s.buf.take(n)) },
        ),
        None => if trim_spec(s.buf).len() > 0 {
            (
                TextState { phase: TextPhase::AskingTail, buf: Seq::empty(), ..s },
                TextStepView { items, action: TextActionView::Synthesize(trim_spec(s.buf)) },
            )
        } else {
            text_complete(s, items)
        },
    }
}

/// The sentence is spoken.
pub open spec fn text_spoken(s: TextState, items: Seq<ItemView>) -> (TextState, TextStepView) {
    let (audio, more) = audio_end(s.audio);
    let t = TextState { audio, ..s };
    if s.phase == TextPhase::Reading {
        text_next(t, items + more)
    } else {
        text_complete(t, items + more)
    }
}

pub open spec fn text_failed(s: TextState, error: Seq<char>, code: u16) -> (
    TextState,
    TextStepView,
) {
    (
        TextState { phase: TextPhase::Over, ..s },
        TextStepView {
            items: seq![ItemView::Failed { error, code }],
            action: TextActionView::Done,
        },
    )
}

/// What something that happens does. A failure of a sentence ends everything; one of the rest
/// ends the speech.
pub open spec fn text_step(s: TextState, e: TextEventView) -> (TextState, TextStepView) {
    let none = Seq::<ItemView>::empty();
    let reading = s.phase == TextPhase::Reading || s.phase == TextPhase::ReadingTail;
    match e {
        TextEventView::Started => if s.phase == TextPhase::Asking {
            (
                TextState { phase: TextPhase::Reading, audio: audio_begin(s.audio), ..s },
                TextStepView { items: none, action: TextActionView::Read },
            )
        } else if s.phase == TextPhase::AskingTail {
            (
                TextState { phase: TextPhase::ReadingTail, audio: audio_begin(s.audio), ..s },
                TextStepView { items: none, action: TextActionView::Read },
            )
        } else {
            text_idle(s)
        },
        TextEventView::CallFailed(m) => if s.phase == TextPhase::Asking {
            text_failed(s, "tts error: "@ + m, 1004)
        } else if s.phase == TextPhase::AskingTail {
            text_complete(s, none)
        } else {
            text_idle(s)
        },
        TextEventView::Audio { data, is_last } => if reading {
            let (audio, items) = audio_feed(s.audio, data);
            let t = TextState { audio, ..s };
            if is_last {
                text_spoken(t, items)
            } else {
                (t, TextStepView { items, action: TextActionView::Read })
            }
        } else {
            text_idle(s)
        },
        TextEventView::StreamFailed(m) => if s.phase == TextPhase::Reading {
            text_failed(s, "tts stream: "@ + m, 1005)
        } else if s.phase == TextPhase::ReadingTail {
            text_spoken(s, none)
        } else {
            text_idle(s)
        },
        TextEventView::StreamEnded => if reading {
            text_spoken(s, none)
        } else {
            text_idle(s)
        },
    }
}

/// What does not belong here does nothing.
pub open spec fn text_idle(s: TextState) -> (TextState, TextStepView) {
    (
        s,
        TextStepView {
            items: Seq::empty(),
            action: if s.phase == TextPhase::Over {
                TextActionView::Done
            } else {
                TextActionView::Read
            },
        },
    )
}

/// A text of which nothing is spoken yet.
pub open spec fn text_start(text: Seq<char>) -> TextState {
    TextState { phase: TextPhase::Over, buf: text, audio: audio_start() }
}

impl TextSpeech {
    pub closed spec fn wf(&self) -> bool {
        self.audio.wf()
    }

    /// Begins with the first sentence of a text.
    pub fn start(text: String) -> (r: (Self, TextStep))
        ensures
            r.0.wf(),
            (r.0@, r.1@) == text_next(text_start(text@), Seq::empty()),
    {
        let mut s = TextSpeech { phase: TextPhase::Over, buf: text, audio: AudioOut::new() };
        let items: Vec<LlmTtsItem> = Vec::new();
        assert(item_views(items@) =~= Seq::<ItemView>::empty());
        let step = s.next(items);
        (s, step)
    }

    pub fn phase(&self) -> (r: TextPhase)
        ensures
            r == self@.phase,
    {
        self.phase
    }

    /// The number of the last audio.
    pub fn seq(&self) -> (r: u32)
        ensures
            r == self@.audio.seq,
    {
        self.audio.seq()
    }

    fn complete(&mut self, items: Vec<LlmTtsItem>) -> (r: TextStep)
        requires
            old(self).wf(),
            old(self)@.audio.seq < u32::MAX - 1,
        ensures
            final(self).wf(),
            (final(self)@, r@) == text_complete(old(self)@, item_views(items@)),
            all_playable(item_views(items@)) ==> all_playable(r@.items),
    {
        let mut items = items;
        self.audio.finish(&mut items);
        self.phase = TextPhase::Over;
        TextStep { items, action: TextAction::Done }
    }

    fn next(&mut self, items: Vec<LlmTtsItem>) -> (r: TextStep)
        requires
            old(self).wf(),
            old(self)@.audio.seq < u32::MAX - 1,
        ensures
            final(self).wf(),
            (final(self)@, r@) == text_next(old(self)@, item_views(items@)),
            all_playable(item_views(items@)) ==> all_playable(r@.items),
    {
        if let Some((sentence, rest)) = split_sentence(self.buf.as_str()) {
            self.buf = rest;
            self.phase = TextPhase::Asking;
            return TextStep { items, action: TextAction::Synthesize(sentence) };
        }
        let tail = trim(self.buf.as_str());
        if tail.as_str().is_empty() {
            return self.complete(items);
        }
        self.buf = String::new();
        assert(self.buf@ =~= Seq::<char>::empty());
        self.phase = TextPhase::AskingTail;
        TextStep { items, action: TextAction::Synthesize(tail) }
    }

    fn spoken(&mut self, items: Vec<LlmTtsItem>) -> (r: TextStep)
        requires
            old(self).wf(),
            old(self)@.audio.seq < u32::MAX - 2,
        ensures
            final(self).wf(),
            (final(self)@, r@) == text_spoken(old(self)@, item_views(items@)),
            all_playable(item_views(items@)) ==> all_playable(r@.items),
    {
        let mut items = items;
        self.audio.end_sentence(&mut items);
        let sentence = match self.phase {
            TextPhase::Reading => true,
            _ => false,
        };
        if sentence {
            self.next(items)
        } else {
            self.complete(items)
        }
    }

    fn failed(&mut self, error: String, code: u16) -> (r: TextStep)
        requires
            old(self).wf(),
        ensures
            final(self).wf(),
            (final(self)@, r@) == text_failed(old(self)@, error@, code),
            all_playable(r@.items),
    {
        self.phase = TextPhase::Over;
        let mut items: Vec<LlmTtsItem> = Vec::new();
        items.push(LlmTtsItem::Failed { error, code });
        proof {
            let failed = ItemView::Failed { error: error@, code };
            assert(item_views(items@) =~= seq![failed]);
            lemma_playable_none();
            lemma_playable_push(Seq::empty(), failed);
            assert(seq![failed] =~= Seq::<ItemView>::empty().push(failed));
        }
        TextStep { items, action: TextAction::Done }
    }

    /// Takes what happens. All audio that is passed on can be decoded.
    pub fn step(&mut self, event: TextEvent) -> (r: TextStep)
        requires
            old(self).wf(),
            old(self)@.audio.seq < MAX_SEQ,
        ensures
            final(self).wf(),
            (final(self)@, r@) == text_step(old(self)@, event@),
            all_playable(r@.items),
    {
        let mut items: Vec<LlmTtsItem> = Vec::new();
        let ghost none = Seq::<ItemView>::empty();
        proof {
            lemma_playable_none();
            assert(item_views(items@) =~= none);
        }
        match (event, self.phase) {
            (TextEvent::Started, TextPhase::Asking) => {
                self.phase = TextPhase::Reading;
                self.audio.begin_sentence();
                TextStep { items, action: TextAction::Read }
            },
            (TextEvent::Started, TextPhase::AskingTail) => {
                self.phase = TextPhase::ReadingTail;
                self.audio.begin_sentence();
                TextStep { items, action: TextAction::Read }
            },
            (TextEvent::CallFailed(e), TextPhase::Asking) => self.failed(
                concat("tts error: ", e.to_string().as_str()),
                1004,
            ),
            (TextEvent::CallFailed(_), TextPhase::AskingTail) => self.complete(items),
            (TextEvent::Audio { data, is_last }, TextPhase::Reading) => {
                self.audio.feed(&data, &mut items);
                assert(item_views(items@) =~= audio_feed(old(self)@.audio, data@).1);
                if is_last {
                    self.spoken(items)
                } else {
                    TextStep { items, action: TextAction::Read }
                }
            },
            (TextEvent::Audio { data, is_last }, TextPhase::ReadingTail) => {
                self.audio.feed(&data, &mut items);
                assert(item_views(items@) =~= audio_feed(old(self)@.audio, data@).1);
                if is_last {
                    self.spoken(items)
                } else {
                    TextStep { items, action: TextAction::Read }
                }
            },
            (TextEvent::StreamFailed(e), TextPhase::Reading) => self.failed(
                concat("tts stream: ", e.to_string().as_str()),
                1005,
            ),
            (TextEvent::StreamFailed(_), TextPhase::ReadingTail) => self.spoken(items),
            (TextEvent::StreamEnded, TextPhase::Reading) => self.spoken(items),
            (TextEvent::StreamEnded, TextPhase::ReadingTail) => self.spoken(items),
            (_, TextPhase::Over) => TextStep { items, action: TextAction::Done },
            _ => TextStep { items, action: TextAction::Read },
        }
    }
}

/// The texts of which speech is asked for: the sentences, then the rest where there is one.
pub open spec fn spoken_texts(buf: Seq<char>) -> Seq<Seq<char>> {
    let tail = trim_spec(unfinished_sentence(buf));
    if tail.len() == 0 {
        complete_sentences(buf)
    } else {
        complete_sentences(buf).push(tail)
    }
}

/// Speech of a text is asked for sentence by sentence, in order, and no part of it twice: a text
/// that is asked for is the first of those that were left, and all is done only when none is left.
pub proof fn law_sentences_are_asked_in_order(s: TextState, items: Seq<ItemView>)
    ensures
        ({
            let (t, step) = text_next(s, items);
            match step.action {
                TextActionView::Synthesize(x) => spoken_texts(s.buf) == seq![x] + spoken_texts(t.buf),
                _ => spoken_texts(s.buf).len() == 0,
            }
        }),
{
    let none = Seq::<char>::empty();
    crate::sentence::lemma_sentence_len_bounds(none, 0);
    crate::text::lemma_trim_blank(none);
    match sentence_len(s.buf) {
        Some(n) => {
            crate::sentence::lemma_sentence_len_bounds(s.buf, 0);
            let x = s.buf.take(n);
            assert(spoken_texts(s.buf) =~= seq![x] + spoken_texts(s.buf.skip(n)));
        },
        None => {
            assert(spoken_texts(none) =~= Seq::<Seq<char>>::empty());
            if trim_spec(s.buf).len() > 0 {
                assert(spoken_texts(s.buf) =~= seq![trim_spec(s.buf)]);
                assert(seq![trim_spec(s.buf)] + spoken_texts(none) =~= seq![trim_spec(s.buf)]);
            }
        },
    }
}

/// The audio is numbered from 1 without a gap.
pub proof fn law_speech_is_numbered_through(s: TextState, e: TextEventView)
    requires
        s.audio.seq < MAX_SEQ,
    ensures
        numbered(text_step(s, e).1.items, s.audio.seq, text_step(s, e).0.audio.seq),
{
    let none = Seq::<ItemView>::empty();
    assert(numbered(none, s.audio.seq, s.audio.seq));
    match e {
        TextEventView::CallFailed(m) => {
            let one = seq![ItemView::Failed { error: "tts error: "@ + m, code: 1004 }];
            assert(one.drop_last() =~= none);
            lemma_complete_numbered(s, none, s.audio.seq);
        },
        TextEventView::Audio { data, is_last } => {
            let (audio, items) = audio_feed(s.audio, data);
            lemma_emit_numbered(s.audio.seq, crate::crossfade::feed_spec(s.audio.fader, data).1);
            lemma_spoken_numbered(TextState { audio, ..s }, items, s.audio.seq);
        },
        TextEventView::StreamFailed(m) => {
            let one = seq![ItemView::Failed { error: "tts stream: "@ + m, code: 1005 }];
            assert(one.drop_last() =~= none);
            lemma_spoken_numbered(s, none, s.audio.seq);
        },
        TextEventView::StreamEnded => {
            lemma_spoken_numbered(s, none, s.audio.seq);
        },
        TextEventView::Started => {},
    }
}

proof fn lemma_complete_numbered(s: TextState, items: Seq<ItemView>, from: u32)
    requires
        s.audio.seq < u32::MAX - 1,
        numbered(items, from, s.audio.seq),
    ensures
        numbered(text_complete(s, items).1.items, from, text_complete(s, items).0.audio.seq),
{
    lemma_finish_numbered(s.audio);
    let (audio, more) = audio_finish(s.audio);
    lemma_numbered_concat(items, more, from, s.audio.seq, audio.seq);
}

proof fn lemma_spoken_numbered(s: TextState, items: Seq<ItemView>, from: u32)
    requires
        s.audio.seq < u32::MAX - 2,
        numbered(items, from, s.audio.seq),
    ensures
        numbered(text_spoken(s, items).1.items, from, text_spoken(s, items).0.audio.seq),
{
    lemma_emit_numbered(s.audio.seq, crate::crossfade::end_spec(s.audio.fader).1);
    let (audio, more) = audio_end(s.audio);
    lemma_numbered_concat(items, more, from, s.audio.seq, audio.seq);
    lemma_complete_numbered(TextState { audio, ..s }, items + more, from);
}

/// Speech that is done ended with the end mark or with a failure.
pub proof fn law_speech_ends_with_mark_or_failure(s: TextState, e: TextEventView)
    requires
        s.phase != TextPhase::Over,
    ensures
        ({
            let (t, step) = text_step(s, e);
            &&& (t.phase == TextPhase::Over) == (step.action is Done)
            &&& step.action is Done ==> step.items.len() > 0 && (step.items.last() is Failed
                || step.items.last() == (ItemView::Tts {
                seq: t.audio.seq,
                audio: Seq::empty(),
                is_last: true,
            }))
        }),
{
}

// ---- recognition, answer and speech in one ----

/// How far an answer to a recording has come.
#[derive(Debug, Clone, Copy, PartialEq, Eq, Structural)]
pub enum StagePhase {
    Hearing,
    Answering,
    Over,
}

/// What happens to an answer to a recording.
pub enum StageEvent {
    /// Recognition could not be asked.
    AsrCallFailed(ClientError),
    Heard(AsrEvent),
    AsrStreamFailed(ClientError),
    /// There are no more results.
    HeardAll,
    /// The pipeline that answers passes something on.
    Item(LlmTtsItem),
    /// The pipeline that answers is at its end.
    ItemsEnded,
}

/// What is to be done for an answer to a recording.
#[derive(Debug)]
pub enum StageAction {
    Wait,
    /// Answer this.
    Answer { text: String, emotion: Option<String> },
    Stop,
}

pub ghost enum StageActionView {
    Wait,
    Answer { text: Seq<char>, emotion: Option<Seq<char>> },
    Stop,
}

impl View for StageAction {
    type V = StageActionView;

    open spec fn view(&self) -> StageActionView {
        match *self {
            StageAction::Wait => StageActionView::Wait,
            StageAction::Answer { text, emotion } => StageActionView::Answer {
                text: text@,
                emotion: opt_view(emotion),
            },
            StageAction::Stop => StageActionView::Stop,
        }
    }
}

/// A line that is sent, where there is one, and what is to be done.
#[derive(Debug)]
pub struct StageStep {
    pub line: Option<String>,
    pub action: StageAction,
}

pub ghost struct StageStepView {
    pub line: Option<Seq<char>>,
    pub action: StageActionView,
}

impl View for StageStep {
    type V = StageStepView;

    open spec fn view(&self) -> StageStepView {
        StageStepView { line: opt_view(self.line), action: self.action@ }
    }
}

/// The answer to a recording.
pub struct StageRun {
    phase: StagePhase,
    prompt: String,
}

pub ghost struct StageState {
    pub phase: StagePhase,
    /// The last text of recognition that is not empty.
    pub prompt: Seq<char>,
}

impl View for StageRun {
    type V = StageState;

    closed spec fn view(&self) -> StageState {
        StageState { phase: self.phase, prompt: self.prompt@ }
    }
}

pub open spec fn stage_stop(s: StageState, line: Option<Seq<char>>) -> (StageState, StageStepView) {
    (
        StageState { phase: StagePhase::Over, ..s },
        StageStepView { line, action: StageActionView::Stop },
    )
}

pub open spec fn stage_wait(s: StageState, line: Option<Seq<char>>) -> (StageState, StageStepView) {
    (s, StageStepView { line, action: StageActionView::Wait })
}

/// Recognition is over: what was said is answered; where nothing was, that is a failure.
pub open spec fn stage_heard(s: StageState) -> (StageState, StageStepView) {
    let prompt = trim_spec(s.prompt);
    let (text, emotion) = parse_tags_spec(prompt);
    if prompt.len() == 0 {
        stage_stop(s, Some(line_spec(plain_error("asr result empty"@, 1001))))
    } else if text.len() == 0 {
        stage_stop(s, Some(line_spec(plain_error("asr result empty after stripping tags"@, 1001))))
    } else {
        (
            StageState { phase: StagePhase::Answering, ..s },
            StageStepView { line: None, action: StageActionView::Answer { text, emotion } },
        )
    }
}

/// What the service answered, where it did.
pub open spec fn envelope_of(e: ClientError) -> Option<Seq<char>> {
    match e {
        ClientError::Api { status, error } => Some(envelope_text(error)),
        _ => None,
    }
}

/// What something that happens does.
pub open spec fn stage_step(s: StageState, e: StageEvent) -> (StageState, StageStepView) {
    match (s.phase, e) {
        (StagePhase::Hearing, StageEvent::AsrCallFailed(err)) => stage_stop(
            s,
            Some(
                line_spec(
                    error_json("asr error: "@ + error_text(err), 1001, envelope_of(err), None),
                ),
            ),
        ),
        (StagePhase::Hearing, StageEvent::AsrStreamFailed(err)) => stage_stop(
            s,
            Some(line_spec(plain_error("asr stream: "@ + error_text(err), 1001))),
        ),
        (StagePhase::Hearing, StageEvent::Heard(h)) => stage_wait(
            StageState {
                prompt: if h.text@.len() > 0 {
                    h.text@
                } else {
                    s.prompt
                },
                ..s
            },
            Some(line_spec(asr_json(Some("asr"@), h.text@, h.is_final))),
        ),
        (StagePhase::Hearing, StageEvent::HeardAll) => stage_heard(s),
        (StagePhase::Answering, StageEvent::Item(item)) => stage_wait(
            s,
            Some(stage_line_spec(item@)),
        ),
        (StagePhase::Answering, StageEvent::ItemsEnded) => stage_stop(s, None),
        (StagePhase::Over, _) => stage_stop(s, None),
        _ => stage_wait(s, None),
    }
}

impl StageRun {
    pub fn new() -> (r: Self)
        ensures
            r@ == (StageState { phase: StagePhase::Hearing, prompt: Seq::empty() }),
    {
        let r = StageRun { phase: StagePhase::Hearing, prompt: String::new() };
        assert(r.prompt@ =~= Seq::<char>::empty());
        r
    }

    fn stop(&mut self, line: Option<String>) -> (r: StageStep)
        ensures
            (final(self)@, r@) == stage_stop(old(self)@, opt_view(line)),
    {
        self.phase = StagePhase::Over;
        StageStep { line, action: StageAction::Stop }
    }

    fn fail(&mut self, line: ErrorLine) -> (r: StageStep)
        ensures
            (final(self)@, r@) == stage_stop(
                old(self)@,
                Some(
                    line_spec(
                        error_json(
                            line.error@,
                            line.code,
                            opt_view(line.type_),
                            opt_view(line.param),
                        ),
                    ),
                ),
            ),
    {
        self.stop(Some(ndjson_line(line.to_json())))
    }

    fn heard_all(&mut self) -> (r: StageStep)
        ensures
            (final(self)@, r@) == stage_heard(old(self)@),
    {
        let prompt = trim(self.prompt.as_str());
        if prompt.as_str().is_empty() {
            return self.fail(ErrorLine::new("asr result empty".to_string(), 1001));
        }
        let parsed = parse_asr_emotion_tags(prompt.as_str());
        if parsed.text.as_str().is_empty() {
            return self.fail(
                ErrorLine::new("asr result empty after stripping tags".to_string(), 1001),
            );
        }
        self.phase = StagePhase::Answering;
        StageStep {
            line: None,
            action: StageAction::Answer { text: parsed.text, emotion: parsed.emotion },
        }
    }

    /// Takes what happens.
    pub fn step(&mut self, event: StageEvent) -> (r: StageStep)
        ensures
            (final(self)@, r@) == stage_step(old(self)@, event),
    {
        match (self.phase, event) {
            (StagePhase::Hearing, StageEvent::AsrCallFailed(e)) => {
                let kind = match e.render_api_envelope() {
                    Some((_, body)) => Some(body),
                    None => None,
                };
                self.fail(
                    ErrorLine {
                        error: concat("asr error: ", e.to_string().as_str()),
                        code: 1001,
                        type_: kind,
                        param: None,
                    },
                )
            },
            (StagePhase::Hearing, StageEvent::AsrStreamFailed(e)) => self.fail(
                ErrorLine::new(concat("asr stream: ", e.to_string().as_str()), 1001),
            ),
            (StagePhase::Hearing, StageEvent::Heard(e)) => {
                if !e.text.as_str().is_empty() {
                    self.prompt = e.text.clone();
                }
                let line = AsrLine { text: e.text, is_final: e.is_final };
                StageStep {
                    line: Some(ndjson_line(line.to_json(Some("asr")))),
                    action: StageAction::Wait,
                }
            },
            (StagePhase::Hearing, StageEvent::HeardAll) => self.heard_all(),
            (StagePhase::Answering, StageEvent::Item(item)) => StageStep {
                line: Some(stage_line(item)),
                action: StageAction::Wait,
            },
            (StagePhase::Answering, StageEvent::ItemsEnded) => self.stop(None),
            (StagePhase::Over, _) => self.stop(None),
            _ => StageStep { line: None, action: StageAction::Wait },
        }
    }
}

/// What is answered is what was recognised last, without tags and white space around it. A
/// recording in which nothing was said is not answered but reported.
pub proof fn law_silence_is_reported(s: StageState)
    requires
        s.phase == StagePhase::Hearing,
    ensures
        ({
            let (t, step) = stage_step(s, StageEvent::HeardAll);
            let (text, emotion) = parse_tags_spec(trim_spec(s.prompt));
            if trim_spec(s.prompt).len() == 0 || text.len() == 0 {
                step.line is Some && step.action is Stop && t.phase == StagePhase::Over
            } else {
                step.action == (StageActionView::Answer { text, emotion }) && step.line is None
            }
        }),
{
}

/// A session keeps the name that the client gave it; two that are named here at different times have
/// different names.
pub proof fn law_sessions_keep_their_names(given: Seq<char>, prefix: Seq<char>, a: u64, b: u64)
    ensures
        session_spec(Some(given), prefix, a) == given,
        a != b ==> session_spec(None, prefix, a) != session_spec(None, prefix, b),
{
    let head = "test-"@ + prefix + "-"@;
    if a != b && sid_spec(prefix, a) == sid_spec(prefix, b) {
        assert(decimal(a as nat) =~= sid_spec(prefix, a).skip(head.len() as int));
        assert(decimal(b as nat) =~= sid_spec(prefix, b).skip(head.len() as int));
        crate::text::lemma_decimal_is_injective(a as nat, b as nat);
    }
}

} // verus!

//! From the answer of the language model to speech.
//!
//! The answer arrives in pieces. Complete sentences are spoken while the rest still arrives. A
//! driver talks to the services and tells the pipeline what happened; the pipeline says what to
//! pass on and what to do next.
//!
//! A service that takes text piece by piece gets each piece at once and is told when a sentence
//! is complete. Any other service gets whole sentences, cleaned of what cannot be spoken, very
//! short ones merged with the next.

use vstd::prelude::*;

use crate::crossfade::{end_spec, fader_wf, feed_spec};
use crate::error::{error_text, ClientError};
use crate::events::{LlmEvent, TtsEvent};
use crate::pipeline::{
    all_playable, audio_begin, audio_end, audio_feed, audio_finish, audio_sentence, audio_start,
    event_data, item_views, lemma_emit_numbered, lemma_finish_numbered, lemma_numbered_concat,
    lemma_playable_none, lemma_playable_push, lemma_sentence_numbered, numbered, AudioOut,
    AudioState, ItemView, LlmTtsItem, MAX_SEQ,
};
use crate::sentence::{lemma_sentence_len_bounds, sentence_len, split_sentence};
use crate::speech::{flush_spec, push_spec, to_tts_text, tts_text_spec, TtsSentenceBuffer};
use crate::text::{concat, is_blank, trim, trim_spec};

verus! {

/// Where the pipeline stands.
#[derive(Debug, Clone, Copy, PartialEq, Eq, Structural)]
pub enum PipePhase {
    /// Waiting for the next piece of the answer.
    Llm,
    /// A sentence was sent to be spoken.
    Asking,
    /// Its audio comes in.
    Reading,
    /// The rest of the answer was sent to be spoken.
    AskingTail,
    /// Its audio comes in.
    ReadingTail,
    /// A piece of text is being sent.
    Sending,
    /// A sentence is complete and being spoken.
    Flushing,
    /// The rest of the answer is complete and being spoken.
    FlushingTail,
    /// The session with the service is being ended.
    Ending,
    /// Nothing follows.
    Done,
}

/// What the driver does next.
#[derive(Debug)]
pub enum PipeAction {
    /// Read the next piece of the answer.
    ReadLlm,
    /// Have a text spoken.
    Synthesize(String),
    /// Read the next audio.
    ReadTts,
    /// Send a piece of text.
    SendText(String),
    /// Have what was sent spoken, and read all of its audio.
    Flush,
    /// End the session with the service.
    EndSession,
    /// Stop; where asked, give up the session with the service.
    Stop { close: bool },
    /// Go on with what was asked before.
    Keep,
}

pub ghost enum ActionView {
    ReadLlm,
    Synthesize(Seq<char>),
    ReadTts,
    SendText(Seq<char>),
    Flush,
    EndSession,
    Stop { close: bool },
    Keep,
}

impl View for PipeAction {
    type V = ActionView;

    open spec fn view(&self) -> ActionView {
        match *self {
            PipeAction::ReadLlm => ActionView::ReadLlm,
            PipeAction::Synthesize(s) => ActionView::Synthesize(s@),
            PipeAction::ReadTts => ActionView::ReadTts,
            PipeAction::SendText(s) => ActionView::SendText(s@),
            PipeAction::Flush => ActionView::Flush,
            PipeAction::EndSession => ActionView::EndSession,
            PipeAction::Stop { close } => ActionView::Stop { close },
            PipeAction::Keep => ActionView::Keep,
        }
    }
}

/// What happened.
#[derive(Debug)]
pub enum PipeEvent {
    /// A piece of the answer, and what can be spoken of it.
    Llm { event: LlmEvent, cleaned: String },
    /// The model could not be asked.
    LlmCallFailed(ClientError),
    /// The answer broke off.
    LlmStreamFailed(ClientError),
    /// The answer ended without a final piece.
    LlmEnded,
    /// The text is being spoken.
    TtsStarted,
    /// The text could not be sent to be spoken.
    TtsCallFailed(ClientError),
    Audio(TtsEvent),
    /// The audio broke off.
    TtsStreamFailed(ClientError),
    TtsEnded,
    /// The piece of text was sent.
    TextSent,
    /// A piece of text could not be sent, or a sentence could not be spoken.
    SessionFailed(ClientError),
    /// The sentence was spoken; this is its audio.
    Flushed(Vec<TtsEvent>),
    /// The session with the service was ended.
    SessionEnded,
}

pub ghost enum PipeEventView {
    Llm { delta: Seq<char>, is_final: bool, cleaned: Seq<char> },
    LlmCallFailed(Seq<char>),
    LlmStreamFailed(Seq<char>),
    LlmEnded,
    TtsStarted,
    TtsCallFailed(Seq<char>),
    Audio { data: Seq<u8>, is_last: bool },
    TtsStreamFailed(Seq<char>),
    TtsEnded,
    TextSent,
    SessionFailed(Seq<char>),
    Flushed(Seq<Seq<u8>>),
    SessionEnded,
}

impl View for PipeEvent {
    type V = PipeEventView;

    open spec fn view(&self) -> PipeEventView {
        match *self {
            PipeEvent::Llm { event, cleaned } => PipeEventView::Llm {
                delta: event.delta@,
                is_final: event.is_final,
                cleaned: cleaned@,
            },
            PipeEvent::LlmCallFailed(e) => PipeEventView::LlmCallFailed(error_text(e)),
            PipeEvent::LlmStreamFailed(e) => PipeEventView::LlmStreamFailed(error_text(e)),
            PipeEvent::LlmEnded => PipeEventView::LlmEnded,
            PipeEvent::TtsStarted => PipeEventView::TtsStarted,
            PipeEvent::TtsCallFailed(e) => PipeEventView::TtsCallFailed(error_text(e)),
            PipeEvent::Audio(e) => PipeEventView::Audio { data: e.data@, is_last: e.is_last },
            PipeEvent::TtsStreamFailed(e) => PipeEventView::TtsStreamFailed(error_text(e)),
            PipeEvent::TtsEnded => PipeEventView::TtsEnded,
            PipeEvent::TextSent => PipeEventView::TextSent,
            PipeEvent::SessionFailed(e) => PipeEventView::SessionFailed(error_text(e)),
            PipeEvent::Flushed(v) => PipeEventView::Flushed(event_data(v@)),
            PipeEvent::SessionEnded => PipeEventView::SessionEnded,
        }
    }
}

/// The state of a pipeline.
pub ghost struct PipeState {
    pub phase: PipePhase,
    /// The service takes text piece by piece.
    pub incremental: bool,
    /// Text that is no complete sentence yet.
    pub buf: Seq<char>,
    /// Sentences that are too short to be spoken alone.
    pub short: Seq<char>,
    /// Text that is still to be sent.
    pub rest: Seq<char>,
    /// The piece that is being sent.
    pub piece: Seq<char>,
    /// The piece completes a sentence.
    pub completes: bool,
    /// The answer is complete.
    pub final_seen: bool,
    pub audio: AudioState,
}

/// What an event brings about.
pub ghost struct PipeOut {
    pub state: PipeState,
    pub items: Seq<ItemView>,
    pub action: ActionView,
}

pub open spec fn go(state: PipeState, items: Seq<ItemView>, action: ActionView) -> PipeOut {
    PipeOut { state, items, action }
}

pub open spec fn in_phase(s: PipeState, phase: PipePhase) -> PipeState {
    PipeState { phase, ..s }
}

/// The pipeline fails.
#[verifier::opaque]
pub open spec fn fail(s: PipeState, items: Seq<ItemView>, error: Seq<char>, code: u16) -> PipeOut {
    go(
        in_phase(s, PipePhase::Done),
        items.push(ItemView::Failed { error, code }),
        ActionView::Stop { close: s.incremental },
    )
}

/// The pipeline is complete.
#[verifier::opaque]
pub open spec fn complete(s: PipeState, items: Seq<ItemView>) -> PipeOut {
    let (audio, more) = audio_finish(s.audio);
    go(
        PipeState { phase: PipePhase::Done, audio, ..s },
        items + more,
        ActionView::Stop { close: false },
    )
}

/// Complete sentences are cut off `buf` until one, with the short ones before it, is to be
/// spoken: what is left, what still waits, and the text to speak.
pub open spec fn next_request(buf: Seq<char>, short: Seq<char>) -> (Seq<char>, Seq<char>, Option<Seq<char>>)
    decreases buf.len(),
{
    match sentence_len(buf) {
        None => (buf, short, None),
        Some(n) => if 0 < n <= buf.len() {
            let (waiting, request) = push_spec(short, tts_text_spec(buf.take(n)));
            match request {
                Some(r) => (buf.skip(n), waiting, Some(r)),
                None => next_request(buf.skip(n), waiting),
            }
        } else {
            (buf, short, None)
        },
    }
}

/// What is left of the answer when it is complete, with the short sentences before it.
pub open spec fn tail_request(buf: Seq<char>, short: Seq<char>) -> Option<Seq<char>> {
    let (waiting, request) = push_spec(short, tts_text_spec(trim_spec(buf)));
    match request {
        Some(r) => Some(r),
        None => flush_spec(waiting),
    }
}

/// The answer is complete and all of its sentences were spoken.
#[verifier::opaque]
pub open spec fn tail(s: PipeState, items: Seq<ItemView>) -> PipeOut {
    if s.incremental {
        if trim_spec(s.buf).len() > 0 {
            go(in_phase(s, PipePhase::FlushingTail), items, ActionView::Flush)
        } else {
            go(in_phase(s, PipePhase::Ending), items, ActionView::EndSession)
        }
    } else {
        let t = PipeState { short: Seq::empty(), ..s };
        match tail_request(s.buf, s.short) {
            Some(r) => go(in_phase(t, PipePhase::AskingTail), items, ActionView::Synthesize(r)),
            None => complete(t, items),
        }
    }
}

/// Nothing more can be done with what is there of the answer.
#[verifier::opaque]
pub open spec fn after_piece(s: PipeState, items: Seq<ItemView>) -> PipeOut {
    if s.final_seen {
        tail(s, items)
    } else {
        go(in_phase(s, PipePhase::Llm), items, ActionView::ReadLlm)
    }
}

/// The next sentence is sent to be spoken, where there is one.
#[verifier::opaque]
pub open spec fn next_sentence(s: PipeState, items: Seq<ItemView>) -> PipeOut {
    let (buf, short, request) = next_request(s.buf, s.short);
    let t = PipeState { buf, short, ..s };
    match request {
        Some(r) => go(in_phase(t, PipePhase::Asking), items, ActionView::Synthesize(r)),
        None => after_piece(t, items),
    }
}

/// The next piece of text is sent, up to the end of a sentence.
#[verifier::opaque]
pub open spec fn next_piece(s: PipeState, items: Seq<ItemView>) -> PipeOut {
    if s.rest.len() == 0 {
        after_piece(s, items)
    } else {
        match sentence_len(s.rest) {
            Some(n) => go(
                PipeState {
                    phase: PipePhase::Sending,
                    piece: s.rest.take(n),
                    rest: s.rest.skip(n),
                    completes: true,
                    ..s
                },
                items,
                ActionView::SendText(s.rest.take(n)),
            ),
            None => go(
                PipeState {
                    phase: PipePhase::Sending,
                    piece: s.rest,
                    rest: Seq::empty(),
                    completes: false,
                    ..s
                },
                items,
                ActionView::SendText(s.rest),
            ),
        }
    }
}

/// A piece of the answer arrives.
#[verifier::opaque]
pub open spec fn on_llm(s: PipeState, delta: Seq<char>, is_final: bool, cleaned: Seq<char>) -> PipeOut {
    let items = seq![ItemView::Llm { delta, is_final }];
    let t = PipeState { final_seen: is_final, ..s };
    if !s.incremental {
        next_sentence(PipeState { buf: s.buf + delta, ..t }, items)
    } else if cleaned.len() > 0 && (trim_spec(cleaned).len() > 0 || trim_spec(s.buf).len() > 0) {
        next_piece(PipeState { rest: cleaned, ..t }, items)
    } else {
        after_piece(t, items)
    }
}

/// A sentence was spoken.
#[verifier::opaque]
pub open spec fn sentence_over(s: PipeState, items: Seq<ItemView>) -> PipeOut {
    let (audio, more) = audio_end(s.audio);
    let t = PipeState { audio, ..s };
    if s.phase == PipePhase::Reading {
        next_sentence(t, items + more)
    } else {
        complete(t, items + more)
    }
}

/// What an event does to a pipeline.
pub open spec fn pipe_step(s: PipeState, e: PipeEventView) -> PipeOut {
    let none = Seq::<ItemView>::empty();
    match (s.phase, e) {
        (PipePhase::Llm, PipeEventView::Llm { delta, is_final, cleaned }) => on_llm(
            s,
            delta,
            is_final,
            cleaned,
        ),
        (PipePhase::Llm, PipeEventView::LlmCallFailed(m)) => fail(s, none, "llm error: "@ + m, 1002),
        (PipePhase::Llm, PipeEventView::LlmStreamFailed(m)) => fail(
            s,
            none,
            "llm stream: "@ + m,
            1003,
        ),
        (PipePhase::Llm, PipeEventView::LlmEnded) => tail(s, none),
        (PipePhase::Asking, PipeEventView::TtsStarted) => go(
            PipeState { phase: PipePhase::Reading, audio: audio_begin(s.audio), ..s },
            none,
            ActionView::ReadTts,
        ),
        (PipePhase::Asking, PipeEventView::TtsCallFailed(m)) => fail(
            s,
            none,
            "tts error: "@ + m,
            1004,
        ),
        (PipePhase::AskingTail, PipeEventView::TtsStarted) => go(
            PipeState { phase: PipePhase::ReadingTail, audio: audio_begin(s.audio), ..s },
            none,
            ActionView::ReadTts,
        ),
        (PipePhase::AskingTail, PipeEventView::TtsCallFailed(_)) => complete(s, none),
        (PipePhase::Reading, PipeEventView::Audio { data, is_last }) => on_audio(s, data, is_last),
        (PipePhase::ReadingTail, PipeEventView::Audio { data, is_last }) => on_audio(s, data, is_last),
        (PipePhase::Reading, PipeEventView::TtsStreamFailed(m)) => fail(
            s,
            none,
            "tts stream: "@ + m,
            1005,
        ),
        (PipePhase::ReadingTail, PipeEventView::TtsStreamFailed(_)) => sentence_over(s, none),
        (PipePhase::Reading, PipeEventView::TtsEnded) => sentence_over(s, none),
        (PipePhase::ReadingTail, PipeEventView::TtsEnded) => sentence_over(s, none),
        (PipePhase::Sending, PipeEventView::TextSent) => if s.completes {
            go(
                PipeState { phase: PipePhase::Flushing, buf: Seq::empty(), piece: Seq::empty(), ..s },
                none,
                ActionView::Flush,
            )
        } else {
            after_piece(PipeState { buf: s.buf + s.piece, piece: Seq::empty(), ..s }, none)
        },
        (PipePhase::Sending, PipeEventView::SessionFailed(m)) => fail(
            s,
            none,
            "tts error: "@ + m,
            1004,
        ),
        (PipePhase::Flushing, PipeEventView::Flushed(datas)) => {
            let (audio, items) = audio_sentence(s.audio, datas);
            next_piece(PipeState { audio, ..s }, items)
        },
        (PipePhase::Flushing, PipeEventView::SessionFailed(m)) => fail(
            s,
            none,
            "tts error: "@ + m,
            1004,
        ),
        (PipePhase::FlushingTail, PipeEventView::Flushed(datas)) => {
            let (audio, items) = audio_sentence(s.audio, datas);
            go(
                PipeState { phase: PipePhase::Ending, audio, ..s },
                items,
                ActionView::EndSession,
            )
        },
        (PipePhase::FlushingTail, PipeEventView::SessionFailed(_)) => fail(
            s,
            none,
            "tts stream failed"@,
            1005,
        ),
        (PipePhase::Ending, PipeEventView::SessionEnded) => complete(s, none),
        _ => go(s, none, ActionView::Keep),
    }
}

/// Audio of the current sentence arrives.
#[verifier::opaque]
pub open spec fn on_audio(s: PipeState, data: Seq<u8>, is_last: bool) -> PipeOut {
    let (audio, items) = audio_feed(s.audio, data);
    let t = PipeState { audio, ..s };
    if is_last {
        sentence_over(t, items)
    } else {
        go(t, items, ActionView::ReadTts)
    }
}

/// The state at the start.
pub open spec fn pipe_start(incremental: bool) -> PipeState {
    PipeState {
        phase: PipePhase::Llm,
        incremental,
        buf: Seq::empty(),
        short: Seq::empty(),
        rest: Seq::empty(),
        piece: Seq::empty(),
        completes: false,
        final_seen: false,
        audio: audio_start(),
    }
}

/// What holds of every pipeline.
pub open spec fn pipe_ok(s: PipeState) -> bool {
    fader_wf(s.audio.fader)
}

/// There are numbers left for everything that an event can bring.
pub open spec fn numbers_left(s: PipeState, e: PipeEventView) -> bool {
    s.audio.seq <= MAX_SEQ && match e {
        PipeEventView::Flushed(datas) => s.audio.seq + datas.len() <= MAX_SEQ,
        _ => true,
    }
}

/// A pipeline from the answer of the language model to speech.
pub struct LlmTtsPipeline {
    phase: PipePhase,
    incremental: bool,
    buf: String,
    short: TtsSentenceBuffer,
    rest: String,
    piece: String,
    completes: bool,
    final_seen: bool,
    audio: AudioOut,
}

impl View for LlmTtsPipeline {
    type V = PipeState;

    closed spec fn view(&self) -> PipeState {
        PipeState {
            phase: self.phase,
            incremental: self.incremental,
            buf: self.buf@,
            short: self.short@,
            rest: self.rest@,
            piece: self.piece@,
            completes: self.completes,
            final_seen: self.final_seen,
            audio: self.audio@,
        }
    }
}

/// What an event brings about: what to pass on, and what to do next.
pub struct PipeStep {
    pub items: Vec<LlmTtsItem>,
    pub action: PipeAction,
}

impl LlmTtsPipeline {
    /// A pipeline to a service that takes text piece by piece, or to one that does not.
    pub fn new(incremental: bool) -> (r: Self)
        ensures
            pipe_ok(r@),
            r@ == pipe_start(incremental),
    {
        LlmTtsPipeline {
            phase: PipePhase::Llm,
            incremental,
            buf: String::new(),
            short: TtsSentenceBuffer::default(),
            rest: String::new(),
            piece: String::new(),
            completes: false,
            final_seen: false,
            audio: AudioOut::new(),
        }
    }

    /// Where the pipeline stands.
    pub fn phase(&self) -> (r: PipePhase)
        ensures
            r == self@.phase,
    {
        self.phase
    }

    /// The number of the last audio.
    pub fn seq(&self) -> (r: u32)
        ensures
            r == self@.audio.seq,
    {
        self.audio.seq()
    }

    fn fail(&mut self, items: Vec<LlmTtsItem>, error: String, code: u16) -> (r: PipeStep)
        requires
            pipe_ok(old(self)@),
        ensures
            go(final(self)@, item_views(r.items@), r.action@) == fail(
                old(self)@,
                item_views(items@),
                error@,
                code,
            ),
            pipe_ok(final(self)@),
            all_playable(item_views(items@)) ==> all_playable(item_views(r.items@)),
    {
        proof {
            reveal(fail);
        }
        let ghost before = item_views(items@);
        let ghost text = error@;
        let mut items = items;
        items.push(LlmTtsItem::Failed { error, code });
        proof {
            let failed = ItemView::Failed { error: text, code };
            assert(item_views(items@) =~= before.push(failed));
            if all_playable(before) {
                lemma_playable_push(before, failed);
            }
        }
        self.phase = PipePhase::Done;
        PipeStep { items, action: PipeAction::Stop { close: self.incremental } }
    }

    fn complete(&mut self, items: Vec<LlmTtsItem>) -> (r: PipeStep)
        requires
            pipe_ok(old(self)@),
            old(self)@.audio.seq < u32::MAX - 1,
        ensures
            go(final(self)@, item_views(r.items@), r.action@) == complete(
                old(self)@,
                item_views(items@),
            ),
            pipe_ok(final(self)@),
            all_playable(item_views(items@)) ==> all_playable(item_views(r.items@)),
    {
        proof {
            reveal(complete);
        }
        let mut items = items;
        self.audio.finish(&mut items);
        self.phase = PipePhase::Done;
        PipeStep { items, action: PipeAction::Stop { close: false } }
    }

    fn tail(&mut self, items: Vec<LlmTtsItem>) -> (r: PipeStep)
        requires
            pipe_ok(old(self)@),
            old(self)@.audio.seq < u32::MAX - 1,
        ensures
            go(final(self)@, item_views(r.items@), r.action@) == tail(old(self)@, item_views(items@)),
            pipe_ok(final(self)@),
            all_playable(item_views(items@)) ==> all_playable(item_views(r.items@)),
    {
        proof {
            reveal(tail);
        }
        if self.incremental {
            if is_blank(self.buf.as_str()) {
                self.phase = PipePhase::Ending;
                PipeStep { items, action: PipeAction::EndSession }
            } else {
                self.phase = PipePhase::FlushingTail;
                PipeStep { items, action: PipeAction::Flush }
            }
        } else {
            let rest = trim(self.buf.as_str());
            let text = to_tts_text(rest.as_str());
            let request = match self.short.push(text.as_str()) {
                Some(r) => Some(r),
                None => self.short.flush(),
            };
            match request {
                Some(r) => {
                    self.phase = PipePhase::AskingTail;
                    PipeStep { items, action: PipeAction::Synthesize(r) }
                },
                None => self.complete(items),
            }
        }
    }

    fn after_piece(&mut self, items: Vec<LlmTtsItem>) -> (r: PipeStep)
        requires
            pipe_ok(old(self)@),
            old(self)@.audio.seq < u32::MAX - 1,
        ensures
            go(final(self)@, item_views(r.items@), r.action@) == after_piece(
                old(self)@,
                item_views(items@),
            ),
            pipe_ok(final(self)@),
            all_playable(item_views(items@)) ==> all_playable(item_views(r.items@)),
    {
        proof {
            reveal(after_piece);
        }
        if self.final_seen {
            self.tail(items)
        } else {
            self.phase = PipePhase::Llm;
            PipeStep { items, action: PipeAction::ReadLlm }
        }
    }

    fn next_sentence(&mut self, items: Vec<LlmTtsItem>) -> (r: PipeStep)
        requires
            pipe_ok(old(self)@),
            old(self)@.audio.seq < u32::MAX - 1,
        ensures
            go(final(self)@, item_views(r.items@), r.action@) == next_sentence(
                old(self)@,
                item_views(items@),
            ),
            pipe_ok(final(self)@),
            all_playable(item_views(items@)) ==> all_playable(item_views(r.items@)),
    {
        let ghost before = self@;
        loop
            invariant
                pipe_ok(self@),
                before == old(self)@,
                self@.audio.seq < u32::MAX - 1,
                self@ == (PipeState { buf: self@.buf, short: self@.short, ..before }),
                next_request(self@.buf, self@.short) == next_request(before.buf, before.short),
            decreases self@.buf.len(),
        {
            proof {
                reveal(next_sentence);
                lemma_sentence_len_bounds(self@.buf, 0);
            }
            match split_sentence(self.buf.as_str()) {
                None => {
                    return self.after_piece(items);
                },
                Some((sentence, rest)) => {
                    self.buf = rest;
                    let text = to_tts_text(sentence.as_str());
                    if let Some(r) = self.short.push(text.as_str()) {
                        self.phase = PipePhase::Asking;
                        return PipeStep { items, action: PipeAction::Synthesize(r) };
                    }
                },
            }
        }
    }

    fn next_piece(&mut self, items: Vec<LlmTtsItem>) -> (r: PipeStep)
        requires
            pipe_ok(old(self)@),
            old(self)@.audio.seq < u32::MAX - 1,
        ensures
            go(final(self)@, item_views(r.items@), r.action@) == next_piece(
                old(self)@,
                item_views(items@),
            ),
            pipe_ok(final(self)@),
            all_playable(item_views(items@)) ==> all_playable(item_views(r.items@)),
    {
        proof {
            reveal(next_piece);
        }
        if self.rest.as_str().is_empty() {
            return self.after_piece(items);
        }
        self.phase = PipePhase::Sending;
        match split_sentence(self.rest.as_str()) {
            Some((sentence, rest)) => {
                self.piece = sentence.clone();
                self.rest = rest;
                self.completes = true;
                PipeStep { items, action: PipeAction::SendText(sentence) }
            },
            None => {
                let mut all: String = String::new();
                core::mem::swap(&mut self.rest, &mut all);
                self.piece = all.clone();
                self.completes = false;
                PipeStep { items, action: PipeAction::SendText(all) }
            },
        }
    }

    fn on_llm(&mut self, event: LlmEvent, cleaned: String) -> (r: PipeStep)
        requires
            pipe_ok(old(self)@),
            old(self)@.audio.seq < u32::MAX - 1,
        ensures
            go(final(self)@, item_views(r.items@), r.action@) == on_llm(
                old(self)@,
                event.delta@,
                event.is_final,
                cleaned@,
            ),
            pipe_ok(final(self)@),
            all_playable(item_views(r.items@)),
    {
        proof {
            reveal(on_llm);
        }
        self.final_seen = event.is_final;
        let ghost delta = event.delta@;
        let ghost is_final = event.is_final;
        let use_piece = !cleaned.as_str().is_empty() && (!is_blank(cleaned.as_str()) || !is_blank(
            self.buf.as_str(),
        ));
        if !self.incremental {
            self.buf.append(event.delta.as_str());
        }
        let items: Vec<LlmTtsItem> = vec![
            LlmTtsItem::Llm { delta: event.delta, is_final: event.is_final },
        ];
        proof {
            let item = ItemView::Llm { delta, is_final };
            assert(item_views(items@) =~= seq![item]);
            lemma_playable_none();
            lemma_playable_push(Seq::empty(), item);
            assert(seq![item] =~= Seq::<ItemView>::empty().push(item));
        }
        if !self.incremental {
            self.next_sentence(items)
        } else if use_piece {
            self.rest = cleaned;
            self.next_piece(items)
        } else {
            self.after_piece(items)
        }
    }

    fn sentence_over(&mut self, items: Vec<LlmTtsItem>) -> (r: PipeStep)
        requires
            pipe_ok(old(self)@),
            old(self)@.audio.seq < u32::MAX - 2,
        ensures
            go(final(self)@, item_views(r.items@), r.action@) == sentence_over(
                old(self)@,
                item_views(items@),
            ),
            pipe_ok(final(self)@),
            all_playable(item_views(items@)) ==> all_playable(item_views(r.items@)),
    {
        proof {
            reveal(sentence_over);
        }
        let mut items = items;
        let reading = match self.phase {
            PipePhase::Reading => true,
            _ => false,
        };
        self.audio.end_sentence(&mut items);
        if reading {
            self.next_sentence(items)
        } else {
            self.complete(items)
        }
    }

    fn on_audio(&mut self, event: TtsEvent) -> (r: PipeStep)
        requires
            pipe_ok(old(self)@),
            old(self)@.audio.seq < u32::MAX - 3,
        ensures
            go(final(self)@, item_views(r.items@), r.action@) == on_audio(
                old(self)@,
                event.data@,
                event.is_last,
            ),
            pipe_ok(final(self)@),
            all_playable(item_views(r.items@)),
    {
        proof {
            reveal(on_audio);
        }
        let mut items: Vec<LlmTtsItem> = Vec::new();
        proof {
            lemma_playable_none();
            assert(item_views(items@) =~= Seq::<ItemView>::empty());
        }
        self.audio.feed(&event.data, &mut items);
        assert(item_views(items@) =~= audio_feed(old(self)@.audio, event.data@).1);
        if event.is_last {
            self.sentence_over(items)
        } else {
            PipeStep { items, action: PipeAction::ReadTts }
        }
    }

    /// Tells the pipeline what happened. All audio that it passes on can be decoded.
    pub fn step(&mut self, event: PipeEvent) -> (r: PipeStep)
        requires
            pipe_ok(old(self)@),
            numbers_left(old(self)@, event@),
        ensures
            go(final(self)@, item_views(r.items@), r.action@) == pipe_step(old(self)@, event@),
            pipe_ok(final(self)@),
            all_playable(item_views(r.items@)),
    {
        let mut items: Vec<LlmTtsItem> = Vec::new();
        proof {
            lemma_playable_none();
            assert(item_views(items@) =~= Seq::<ItemView>::empty());
        }
        match (self.phase, event) {
            (PipePhase::Llm, PipeEvent::Llm { event, cleaned }) => self.on_llm(event, cleaned),
            (PipePhase::Llm, PipeEvent::LlmCallFailed(e)) => self.fail(
                items,
                concat("llm error: ", e.to_string().as_str()),
                1002,
            ),
            (PipePhase::Llm, PipeEvent::LlmStreamFailed(e)) => self.fail(
                items,
                concat("llm stream: ", e.to_string().as_str()),
                1003,
            ),
            (PipePhase::Llm, PipeEvent::LlmEnded) => self.tail(items),
            (PipePhase::Asking, PipeEvent::TtsStarted) => {
                self.phase = PipePhase::Reading;
                self.audio.begin_sentence();
                PipeStep { items, action: PipeAction::ReadTts }
            },
            (PipePhase::Asking, PipeEvent::TtsCallFailed(e)) => self.fail(
                items,
                concat("tts error: ", e.to_string().as_str()),
                1004,
            ),
            (PipePhase::AskingTail, PipeEvent::TtsStarted) => {
                self.phase = PipePhase::ReadingTail;
                self.audio.begin_sentence();
                PipeStep { items, action: PipeAction::ReadTts }
            },
            (PipePhase::AskingTail, PipeEvent::TtsCallFailed(_)) => self.complete(items),
            (PipePhase::Reading, PipeEvent::Audio(e)) => self.on_audio(e),
            (PipePhase::ReadingTail, PipeEvent::Audio(e)) => self.on_audio(e),
            (PipePhase::Reading, PipeEvent::TtsStreamFailed(e)) => self.fail(
                items,
                concat("tts stream: ", e.to_string().as_str()),
                1005,
            ),
            (PipePhase::ReadingTail, PipeEvent::TtsStreamFailed(_)) => self.sentence_over(items),
            (PipePhase::Reading, PipeEvent::TtsEnded) => self.sentence_over(items),
            (PipePhase::ReadingTail, PipeEvent::TtsEnded) => self.sentence_over(items),
            (PipePhase::Sending, PipeEvent::TextSent) => {
                let mut piece: String = String::new();
                core::mem::swap(&mut self.piece, &mut piece);
                if self.completes {
                    self.phase = PipePhase::Flushing;
                    self.buf = String::new();
                    PipeStep { items, action: PipeAction::Flush }
                } else {
                    self.buf.append(piece.as_str());
                    self.after_piece(items)
                }
            },
            (PipePhase::Sending, PipeEvent::SessionFailed(e)) => self.fail(
                items,
                concat("tts error: ", e.to_string().as_str()),
                1004,
            ),
            (PipePhase::Flushing, PipeEvent::Flushed(events)) => {
                self.audio.sentence(&events, &mut items);
                assert(item_views(items@) =~= audio_sentence(old(self)@.audio, event_data(events@)).1);
                self.next_piece(items)
            },
            (PipePhase::Flushing, PipeEvent::SessionFailed(e)) => self.fail(
                items,
                concat("tts error: ", e.to_string().as_str()),
                1004,
            ),
            (PipePhase::FlushingTail, PipeEvent::Flushed(events)) => {
                self.audio.sentence(&events, &mut items);
                assert(item_views(items@) =~= audio_sentence(old(self)@.audio, event_data(events@)).1);
                self.phase = PipePhase::Ending;
                PipeStep { items, action: PipeAction::EndSession }
            },
            (PipePhase::FlushingTail, PipeEvent::SessionFailed(_)) => self.fail(
                items,
                "tts stream failed".to_string(),
                1005,
            ),
            (PipePhase::Ending, PipeEvent::SessionEnded) => self.complete(items),
            _ => PipeStep { items, action: PipeAction::Keep },
        }
    }
}

// ---- what holds of whole pipelines ----

proof fn lemma_fail_numbered(s: PipeState, items: Seq<ItemView>, from: u32, error: Seq<char>, code: u16)
    requires
        numbered(items, from, s.audio.seq),
    ensures
        numbered(fail(s, items, error, code).items, from, fail(s, items, error, code).state.audio.seq),
{
    reveal(fail);
    let out = fail(s, items, error, code).items;
    assert(out.drop_last() =~= items);
}

proof fn lemma_complete_numbered(s: PipeState, items: Seq<ItemView>, from: u32)
    requires
        numbered(items, from, s.audio.seq),
        s.audio.seq < u32::MAX - 1,
    ensures
        numbered(complete(s, items).items, from, complete(s, items).state.audio.seq),
{
    reveal(complete);
    lemma_finish_numbered(s.audio);
    let (audio, more) = audio_finish(s.audio);
    lemma_numbered_concat(items, more, from, s.audio.seq, audio.seq);
}

proof fn lemma_tail_numbered(s: PipeState, items: Seq<ItemView>, from: u32)
    requires
        numbered(items, from, s.audio.seq),
        s.audio.seq < u32::MAX - 1,
    ensures
        numbered(tail(s, items).items, from, tail(s, items).state.audio.seq),
        numbered(after_piece(s, items).items, from, after_piece(s, items).state.audio.seq),
{
    reveal(tail);
    reveal(after_piece);
    lemma_complete_numbered(PipeState { short: Seq::empty(), ..s }, items, from);
}

proof fn lemma_next_numbered(s: PipeState, items: Seq<ItemView>, from: u32)
    requires
        numbered(items, from, s.audio.seq),
        s.audio.seq < u32::MAX - 1,
    ensures
        numbered(next_sentence(s, items).items, from, next_sentence(s, items).state.audio.seq),
        numbered(next_piece(s, items).items, from, next_piece(s, items).state.audio.seq),
{
    reveal(next_sentence);
    reveal(next_piece);
    let (buf, short, request) = next_request(s.buf, s.short);
    lemma_tail_numbered(PipeState { buf, short, ..s }, items, from);
    lemma_tail_numbered(s, items, from);
}

proof fn lemma_over_numbered(s: PipeState, items: Seq<ItemView>, from: u32)
    requires
        numbered(items, from, s.audio.seq),
        s.audio.seq < u32::MAX - 2,
    ensures
        numbered(sentence_over(s, items).items, from, sentence_over(s, items).state.audio.seq),
{
    reveal(sentence_over);
    lemma_emit_numbered(s.audio.seq, end_spec(s.audio.fader).1);
    let (audio, more) = audio_end(s.audio);
    lemma_numbered_concat(items, more, from, s.audio.seq, audio.seq);
    lemma_next_numbered(PipeState { audio, ..s }, items + more, from);
    lemma_complete_numbered(PipeState { audio, ..s }, items + more, from);
}

/// The numbers of the audio that a pipeline passes on go up one by one, whatever happens.
pub proof fn law_audio_is_numbered_through(s: PipeState, e: PipeEventView)
    requires
        numbers_left(s, e),
    ensures
        numbered(pipe_step(s, e).items, s.audio.seq, pipe_step(s, e).state.audio.seq),
{
    let none = Seq::<ItemView>::empty();
    let seq = s.audio.seq;
    assert(numbered(none, seq, seq));
    match (s.phase, e) {
        (PipePhase::Llm, PipeEventView::Llm { delta, is_final, cleaned }) => {
            reveal(on_llm);
            let items = seq![ItemView::Llm { delta, is_final }];
            assert(items.drop_last() =~= none);
            assert(numbered(items, seq, seq));
            let t = PipeState { final_seen: is_final, ..s };
            lemma_next_numbered(PipeState { buf: s.buf + delta, ..t }, items, seq);
            lemma_next_numbered(PipeState { rest: cleaned, ..t }, items, seq);
            lemma_tail_numbered(t, items, seq);
        },
        (PipePhase::Llm, PipeEventView::LlmCallFailed(m)) => {
            lemma_fail_numbered(s, none, seq, "llm error: "@ + m, 1002);
        },
        (PipePhase::Llm, PipeEventView::LlmStreamFailed(m)) => {
            lemma_fail_numbered(s, none, seq, "llm stream: "@ + m, 1003);
        },
        (PipePhase::Llm, PipeEventView::LlmEnded) => {
            lemma_tail_numbered(s, none, seq);
        },
        (PipePhase::Asking, PipeEventView::TtsCallFailed(m)) => {
            lemma_fail_numbered(s, none, seq, "tts error: "@ + m, 1004);
        },
        (PipePhase::AskingTail, PipeEventView::TtsCallFailed(_)) => {
            lemma_complete_numbered(s, none, seq);
        },
        (PipePhase::Reading, PipeEventView::Audio { data, is_last }) => {
            lemma_audio_numbered(s, data, is_last);
        },
        (PipePhase::ReadingTail, PipeEventView::Audio { data, is_last }) => {
            lemma_audio_numbered(s, data, is_last);
        },
        (PipePhase::Reading, PipeEventView::TtsStreamFailed(m)) => {
            lemma_fail_numbered(s, none, seq, "tts stream: "@ + m, 1005);
        },
        (PipePhase::ReadingTail, PipeEventView::TtsStreamFailed(_)) => {
            lemma_over_numbered(s, none, seq);
        },
        (PipePhase::Reading, PipeEventView::TtsEnded) => {
            lemma_over_numbered(s, none, seq);
        },
        (PipePhase::ReadingTail, PipeEventView::TtsEnded) => {
            lemma_over_numbered(s, none, seq);
        },
        (PipePhase::Sending, PipeEventView::TextSent) => {
            lemma_tail_numbered(
                PipeState { buf: s.buf + s.piece, piece: Seq::empty(), ..s },
                none,
                seq,
            );
        },
        (PipePhase::Sending, PipeEventView::SessionFailed(m)) => {
            lemma_fail_numbered(s, none, seq, "tts error: "@ + m, 1004);
        },
        (PipePhase::Flushing, PipeEventView::Flushed(datas)) => {
            lemma_sentence_numbered(s.audio, datas);
            let (audio, items) = audio_sentence(s.audio, datas);
            lemma_next_numbered(PipeState { audio, ..s }, items, seq);
        },
        (PipePhase::Flushing, PipeEventView::SessionFailed(m)) => {
            lemma_fail_numbered(s, none, seq, "tts error: "@ + m, 1004);
        },
        (PipePhase::FlushingTail, PipeEventView::Flushed(datas)) => {
            lemma_sentence_numbered(s.audio, datas);
        },
        (PipePhase::FlushingTail, PipeEventView::SessionFailed(_)) => {
            lemma_fail_numbered(s, none, seq, "tts stream failed"@, 1005);
        },
        (PipePhase::Ending, PipeEventView::SessionEnded) => {
            lemma_complete_numbered(s, none, seq);
        },
        _ => {},
    }
}

proof fn lemma_audio_numbered(s: PipeState, data: Seq<u8>, is_last: bool)
    requires
        s.audio.seq < u32::MAX - 3,
    ensures
        numbered(on_audio(s, data, is_last).items, s.audio.seq, on_audio(s, data, is_last).state.audio.seq),
{
    reveal(on_audio);
    lemma_emit_numbered(s.audio.seq, feed_spec(s.audio.fader, data).1);
    let (audio, items) = audio_feed(s.audio, data);
    lemma_over_numbered(PipeState { audio, ..s }, items, s.audio.seq);
}

/// The last of some items is the end mark.
pub open spec fn ends_with_mark(items: Seq<ItemView>) -> bool {
    items.len() > 0 && (items.last() matches ItemView::Tts { audio, is_last, .. } && is_last
        && audio.len() == 0)
}

/// The last of some items is a failure.
pub open spec fn ends_with_failure(items: Seq<ItemView>) -> bool {
    items.len() > 0 && items.last() is Failed
}

/// A step that stops ends with the end mark or a failure, and no other step does.
pub open spec fn stops_well(out: PipeOut) -> bool {
    &&& out.state.phase == PipePhase::Done <==> out.action is Stop
    &&& out.action is Stop ==> ends_with_mark(out.items) || ends_with_failure(out.items)
}

proof fn lemma_complete_stops(s: PipeState, items: Seq<ItemView>)
    ensures
        stops_well(complete(s, items)),
{
    reveal(complete);
    let (audio, more) = audio_finish(s.audio);
    assert((items + more).last() == more.last());
}

proof fn lemma_fail_stops(s: PipeState, items: Seq<ItemView>, error: Seq<char>, code: u16)
    ensures
        stops_well(fail(s, items, error, code)),
{
    reveal(fail);
}

proof fn lemma_tail_stops(s: PipeState, items: Seq<ItemView>)
    ensures
        stops_well(tail(s, items)),
        stops_well(after_piece(s, items)),
{
    reveal(tail);
    reveal(after_piece);
    lemma_complete_stops(PipeState { short: Seq::empty(), ..s }, items);
}

proof fn lemma_next_stops(s: PipeState, items: Seq<ItemView>)
    ensures
        stops_well(next_sentence(s, items)),
        stops_well(next_piece(s, items)),
{
    reveal(next_sentence);
    reveal(next_piece);
    let (buf, short, request) = next_request(s.buf, s.short);
    lemma_tail_stops(PipeState { buf, short, ..s }, items);
    lemma_tail_stops(s, items);
}

proof fn lemma_over_stops(s: PipeState, items: Seq<ItemView>)
    ensures
        stops_well(sentence_over(s, items)),
{
    reveal(sentence_over);
    let (audio, more) = audio_end(s.audio);
    lemma_next_stops(PipeState { audio, ..s }, items + more);
    lemma_complete_stops(PipeState { audio, ..s }, items + more);
}

proof fn lemma_audio_stops(s: PipeState, data: Seq<u8>, is_last: bool)
    requires
        s.phase != PipePhase::Done,
    ensures
        stops_well(on_audio(s, data, is_last)),
{
    reveal(on_audio);
    let (audio, items) = audio_feed(s.audio, data);
    lemma_over_stops(PipeState { audio, ..s }, items);
}

proof fn lemma_llm_stops(s: PipeState, delta: Seq<char>, is_final: bool, cleaned: Seq<char>)
    ensures
        stops_well(on_llm(s, delta, is_final, cleaned)),
{
    reveal(on_llm);
    let items = seq![ItemView::Llm { delta, is_final }];
    let t = PipeState { final_seen: is_final, ..s };
    lemma_next_stops(PipeState { buf: s.buf + delta, ..t }, items);
    lemma_next_stops(PipeState { rest: cleaned, ..t }, items);
    lemma_tail_stops(t, items);
}

/// A pipeline stops exactly with the step that passes on the end mark or a failure.
pub proof fn law_stops_with_mark_or_failure(s: PipeState, e: PipeEventView)
    requires
        s.phase != PipePhase::Done,
    ensures
        stops_well(pipe_step(s, e)),
{
    let none = Seq::<ItemView>::empty();
    match e {
        PipeEventView::Llm { delta, is_final, cleaned } => {
            lemma_llm_stops(s, delta, is_final, cleaned);
        },
        PipeEventView::LlmCallFailed(m) => {
            lemma_fail_stops(s, none, "llm error: "@ + m, 1002);
        },
        PipeEventView::LlmStreamFailed(m) => {
            lemma_fail_stops(s, none, "llm stream: "@ + m, 1003);
        },
        PipeEventView::LlmEnded => {
            lemma_tail_stops(s, none);
        },
        PipeEventView::TtsCallFailed(m) => {
            lemma_fail_stops(s, none, "tts error: "@ + m, 1004);
            lemma_complete_stops(s, none);
        },
        PipeEventView::Audio { data, is_last } => {
            lemma_audio_stops(s, data, is_last);
        },
        PipeEventView::TtsStreamFailed(m) => {
            lemma_fail_stops(s, none, "tts stream: "@ + m, 1005);
            lemma_over_stops(s, none);
        },
        PipeEventView::TtsEnded => {
            lemma_over_stops(s, none);
        },
        PipeEventView::TextSent => {
            lemma_tail_stops(PipeState { buf: s.buf + s.piece, piece: Seq::empty(), ..s }, none);
        },
        PipeEventView::SessionFailed(m) => {
            lemma_fail_stops(s, none, "tts error: "@ + m, 1004);
            lemma_fail_stops(s, none, "tts stream failed"@, 1005);
        },
        PipeEventView::Flushed(datas) => {
            let (audio, items) = audio_sentence(s.audio, datas);
            lemma_next_stops(PipeState { audio, ..s }, items);
        },
        PipeEventView::SessionEnded => {
            lemma_complete_stops(s, none);
        },
        PipeEventView::TtsStarted => {},
    }
}

/// A pipeline that has stopped passes on nothing more.
pub proof fn law_nothing_after_the_end(s: PipeState, e: PipeEventView)
    requires
        s.phase == PipePhase::Done,
    ensures
        pipe_step(s, e) == go(s, Seq::empty(), ActionView::Keep),
{
}

/// Every piece of the answer is passed on first, as it came.
pub proof fn law_answer_is_passed_on(s: PipeState, delta: Seq<char>, is_final: bool, cleaned: Seq<char>)
    requires
        s.phase == PipePhase::Llm,
    ensures
        ({
            let out = pipe_step(s, PipeEventView::Llm { delta, is_final, cleaned });
            out.items.len() > 0 && out.items[0] == (ItemView::Llm { delta, is_final })
        }),
{
    reveal(complete);
    reveal(tail);
    reveal(after_piece);
    reveal(next_sentence);
    reveal(next_piece);
    reveal(on_llm);
}

proof fn lemma_after_piece_sends_no_text(s: PipeState, items: Seq<ItemView>)
    ensures
        !(tail(s, items).action is SendText),
        !(after_piece(s, items).action is SendText),
        !(complete(s, items).action is SendText),
{
    reveal(complete);
    reveal(tail);
    reveal(after_piece);
}

proof fn lemma_next_sentence_sends_no_text(s: PipeState, items: Seq<ItemView>)
    ensures
        !(next_sentence(s, items).action is SendText),
{
    reveal(next_sentence);
    let (buf, short, _request) = next_request(s.buf, s.short);
    lemma_after_piece_sends_no_text(PipeState { buf, short, ..s }, items);
}

proof fn lemma_sentence_over_sends_no_text(s: PipeState, items: Seq<ItemView>)
    ensures
        !(sentence_over(s, items).action is SendText),
{
    reveal(sentence_over);
    let (audio, more) = audio_end(s.audio);
    let t = PipeState { audio, ..s };
    lemma_next_sentence_sends_no_text(t, items + more);
    lemma_after_piece_sends_no_text(t, items + more);
}

proof fn lemma_audio_sends_no_text(s: PipeState, data: Seq<u8>, is_last: bool)
    ensures
        !(on_audio(s, data, is_last).action is SendText),
{
    reveal(on_audio);
    let (audio, items) = audio_feed(s.audio, data);
    lemma_sentence_over_sends_no_text(PipeState { audio, ..s }, items);
}

/// The text that is sent, where any is, is the next piece of `came`.
pub open spec fn sends_next_of(out: PipeOut, came: Seq<char>) -> bool {
    out.action matches ActionView::SendText(t) ==> {
        &&& t.len() > 0
        &&& t + out.state.rest == came
        &&& out.state.completes ==> sentence_len(t) == Some(t.len() as int)
        &&& !out.state.completes ==> sentence_len(t) is None && out.state.rest.len() == 0
    }
}

proof fn lemma_next_piece_is_next(s: PipeState, items: Seq<ItemView>)
    ensures
        sends_next_of(next_piece(s, items), s.rest),
{
    reveal(next_piece);
    let rest = s.rest;
    lemma_after_piece_sends_no_text(s, items);
    lemma_sentence_len_bounds(rest, 0);
    match sentence_len(rest) {
        Some(n) => {
            assert(rest.take(n) + rest.skip(n) =~= rest);
            crate::sentence::law_sentences_end_with_their_only_mark(rest);
            let parts = crate::sentence::complete_sentences(rest);
            assert(parts[0] == rest.take(n));
        },
        None => {
            assert(rest + Seq::<char>::empty() =~= rest);
        },
    }
}

proof fn lemma_on_llm_sends_next(s: PipeState, delta: Seq<char>, is_final: bool, cleaned: Seq<char>)
    requires
        s.incremental,
    ensures
        sends_next_of(on_llm(s, delta, is_final, cleaned), cleaned),
{
    reveal(on_llm);
    let items = seq![ItemView::Llm { delta, is_final }];
    let t = PipeState { final_seen: is_final, ..s };
    lemma_next_piece_is_next(PipeState { rest: cleaned, ..t }, items);
    lemma_after_piece_sends_no_text(t, items);
}

/// Text goes to a service that takes it piece by piece without loss or change of order: what is
/// sent and what is still to be sent make up what came, and the end of each sentence is told
/// before anything of the next one is sent.
pub proof fn law_text_is_sent_in_order(s: PipeState, e: PipeEventView)
    requires
        s.incremental,
    ensures
        sends_next_of(
            pipe_step(s, e),
            match e {
                PipeEventView::Llm { cleaned, .. } => cleaned,
                _ => s.rest,
            },
        ),
        s.phase == PipePhase::Sending && s.completes && e is TextSent ==> pipe_step(s, e).action
            is Flush && pipe_step(s, e).state.rest == s.rest,
{
    let none = Seq::<ItemView>::empty();
    reveal(fail);
    lemma_after_piece_sends_no_text(s, none);
    lemma_sentence_over_sends_no_text(s, none);
    match e {
        PipeEventView::Llm { delta, is_final, cleaned } => {
            lemma_on_llm_sends_next(s, delta, is_final, cleaned);
        },
        PipeEventView::Audio { data, is_last } => {
            lemma_audio_sends_no_text(s, data, is_last);
        },
        PipeEventView::Flushed(datas) => {
            let (audio, items) = audio_sentence(s.audio, datas);
            lemma_next_piece_is_next(PipeState { audio, ..s }, items);
        },
        PipeEventView::TextSent => {
            let t = PipeState { buf: s.buf + s.piece, piece: Seq::empty(), ..s };
            lemma_after_piece_sends_no_text(t, none);
        },
        _ => {},
    }
}

/// Whole sentences go to any other service in the order in which they came: what is asked for is
/// what waited, the sentences up to there and nothing of what follows.
pub proof fn law_request_comes_from_the_buffer(buf: Seq<char>, short: Seq<char>)
    ensures
        ({
            let (left, waiting, request) = next_request(buf, short);
            &&& left.len() <= buf.len()
            &&& left == buf.skip(buf.len() - left.len())
            &&& request is Some ==> waiting.len() == 0 && left.len() < buf.len()
            &&& request is None ==> sentence_len(left) is None
        }),
    decreases buf.len(),
{
    lemma_sentence_len_bounds(buf, 0);
    match sentence_len(buf) {
        None => {
            assert(buf.skip(0) =~= buf);
        },
        Some(n) => {
            let (waiting, request) = push_spec(short, tts_text_spec(buf.take(n)));
            if request is None {
                law_request_comes_from_the_buffer(buf.skip(n), waiting);
                let (left, _w, _r) = next_request(buf.skip(n), waiting);
                assert(buf.skip(n).skip(buf.skip(n).len() - left.len()) =~= buf.skip(
                    buf.len() - left.len(),
                ));
            }
        },
    }
}

/// The failure of the service that speaks before anything was asked.
pub fn open_failed(e: &ClientError) -> (r: LlmTtsItem)
    ensures
        r@ == (ItemView::Failed { error: "tts error: "@ + error_text(*e), code: 1004 }),
{
    LlmTtsItem::Failed { error: concat("tts error: ", e.to_string().as_str()), code: 1004 }
}

} // verus!

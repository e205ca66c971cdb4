//! A conversation over one connection: what its messages do, when an utterance is processed, and
//! which processing is cancelled.
//!
//! The client decides where an utterance ends. The server does so too where an utterance gets
//! too long or too large. A new utterance does not cancel the answer to the one before it unless
//! something was recognised in it.

use vstd::prelude::*;

use crate::audio::{append_bytes, wav_fits, wav_spec, wrap_pcm_as_wav};
use crate::codec::{base64_bytes, base64_decode, base64_text};
use crate::emotion::{law_untagged_text_is_kept, parse_asr_emotion_tags, parse_tags_spec, tag_open};
use crate::error::{error_text, ClientError};
use crate::events::AsrEvent;
use crate::payload::{payload_views, PayloadView, VoicePayload};
use crate::pipeline::{all_playable, decodes, playable, ItemView, LlmTtsItem};
use crate::text::{
    concat, concat3, copy_opt, decimal, decimal_of, is_blank, lemma_trim_has_no_more,
    lemma_trim_twice, occurs, opt_view, trim, trim_spec,
};

verus! {

/// The longest utterance, in milliseconds.
pub const MAX_UTTERANCE_MS: u64 = 30000;

/// The largest utterance.
pub const MAX_AUDIO_BYTES: usize = 2097152;

/// The smallest utterance; less is noise.
pub const MIN_UTTERANCE_BYTES: usize = 6400;

/// How long recognition may take, in seconds.
pub const ASR_TIMEOUT_SECS: u64 = 30;

/// What the user sees a conversation do.
#[derive(Debug, Clone, Copy, PartialEq, Eq, Structural)]
pub enum SessionState {
    Idle,
    Listening,
    Processing,
    Speaking,
}

/// Why an utterance is processed.
#[derive(Debug, Clone, Copy, PartialEq, Eq, Structural)]
pub enum TriggerReason {
    /// The client said that it is complete.
    ClientIsLast,
    /// It is too long.
    DurationCap,
    /// It is too large.
    BufferCap,
}

/// The audio of the current utterance.
pub struct AudioAccumulator {
    bytes: Vec<u8>,
    started_at: u64,
}

pub ghost struct AudioView {
    pub bytes: Seq<u8>,
    /// When the first of it arrived, in milliseconds.
    pub started_at: u64,
}

impl View for AudioAccumulator {
    type V = AudioView;

    closed spec fn view(&self) -> AudioView {
        AudioView { bytes: self.bytes@, started_at: self.started_at }
    }
}

/// Audio arrives. Where it is the first of an utterance, the clock starts anew.
pub open spec fn audio_push(a: AudioView, chunk: Seq<u8>, now: u64) -> AudioView {
    AudioView {
        bytes: a.bytes + chunk,
        started_at: if a.bytes.len() == 0 { now } else { a.started_at },
    }
}

/// How long the utterance has been going on.
pub open spec fn audio_elapsed(a: AudioView, now: u64) -> u64 {
    if now >= a.started_at {
        (now - a.started_at) as u64
    } else {
        0
    }
}

impl AudioAccumulator {
    pub fn new(now: u64) -> (r: Self)
        ensures
            r@ == (AudioView { bytes: Seq::empty(), started_at: now }),
    {
        AudioAccumulator { bytes: Vec::new(), started_at: now }
    }

    /// Adds audio.
    pub fn push(&mut self, chunk: &Vec<u8>, now: u64)
        ensures
            final(self)@ == audio_push(old(self)@, chunk@, now),
    {
        if self.bytes.len() == 0 {
            self.started_at = now;
        }
        append_bytes(&mut self.bytes, chunk.as_slice());
    }

    pub fn len(&self) -> (r: usize)
        ensures
            r == self@.bytes.len(),
    {
        self.bytes.len()
    }

    pub fn elapsed_ms(&self, now: u64) -> (r: u64)
        ensures
            r == audio_elapsed(self@, now),
    {
        if now >= self.started_at {
            now - self.started_at
        } else {
            0
        }
    }

    /// Takes all audio out.
    pub fn drain(&mut self) -> (r: Vec<u8>)
        ensures
            r@ == old(self)@.bytes,
            final(self)@ == (AudioView { bytes: Seq::empty(), ..old(self)@ }),
    {
        let mut out: Vec<u8> = Vec::new();
        core::mem::swap(&mut self.bytes, &mut out);
        assert(self.bytes@ =~= Seq::<u8>::empty());
        out
    }
}

/// The processing of one utterance.
#[derive(Debug, Clone, Copy, PartialEq, Eq, Structural)]
pub struct Ticket {
    /// The stamp of the message that completed the utterance.
    pub id: u64,
    /// The stamp of the message with which the conversation began or was last interrupted.
    pub epoch: u64,
    /// Something was recognised, and it is being answered.
    pub answering: bool,
}

/// An utterance that is to be processed.
#[derive(Debug)]
pub struct Utterance {
    pub ticket: Ticket,
    pub reason: TriggerReason,
    pub audio: Vec<u8>,
    pub sample_rate: u32,
    pub channels: u16,
    pub tts_sample_rate: Option<u32>,
    pub voice: Option<String>,
}

pub ghost struct UtteranceView {
    pub ticket: Ticket,
    pub reason: TriggerReason,
    pub audio: Seq<u8>,
    pub sample_rate: u32,
    pub channels: u16,
    pub tts_sample_rate: Option<u32>,
    pub voice: Option<Seq<char>>,
}

impl View for Utterance {
    type V = UtteranceView;

    open spec fn view(&self) -> UtteranceView {
        UtteranceView {
            ticket: self.ticket,
            reason: self.reason,
            audio: self.audio@,
            sample_rate: self.sample_rate,
            channels: self.channels,
            tts_sample_rate: self.tts_sample_rate,
            voice: opt_view(self.voice),
        }
    }
}

/// What a message brings about.
#[derive(Debug)]
pub enum SessionAction {
    Nothing,
    /// Process an utterance.
    Process(Utterance),
    /// Cancel everything and tell the client.
    Interrupted(VoicePayload),
    /// Cancel everything.
    Closed,
}

pub ghost enum SessionActionView {
    Nothing,
    Process(UtteranceView),
    Interrupted(PayloadView),
    Closed,
}

impl View for SessionAction {
    type V = SessionActionView;

    open spec fn view(&self) -> SessionActionView {
        match *self {
            SessionAction::Nothing => SessionActionView::Nothing,
            SessionAction::Process(u) => SessionActionView::Process(u@),
            SessionAction::Interrupted(p) => SessionActionView::Interrupted(p@),
            SessionAction::Closed => SessionActionView::Closed,
        }
    }
}

/// A conversation.
pub ghost struct ConversationView {
    pub session_id: Seq<char>,
    pub state: SessionState,
    pub closed: bool,
    pub epoch: u64,
    /// The processing that answers.
    pub answering: Option<u64>,
    pub audio: AudioView,
    pub sample_rate: u32,
    pub channels: u16,
    pub tts_sample_rate: Option<u32>,
    pub voice: Option<Seq<char>>,
}

/// A conversation over one connection.
pub struct VoiceSession {
    pub session_id: String,
    pub state: SessionState,
    closed: bool,
    epoch: u64,
    answering: Option<u64>,
    audio_buf: AudioAccumulator,
    sample_rate: u32,
    channels: u16,
    client_tts_sample_rate: Option<u32>,
    client_voice: Option<String>,
}

impl View for VoiceSession {
    type V = ConversationView;

    closed spec fn view(&self) -> ConversationView {
        ConversationView {
            session_id: self.session_id@,
            state: self.state,
            closed: self.closed,
            epoch: self.epoch,
            answering: self.answering,
            audio: self.audio_buf@,
            sample_rate: self.sample_rate,
            channels: self.channels,
            tts_sample_rate: self.client_tts_sample_rate,
            voice: opt_view(self.client_voice),
        }
    }
}

/// The utterance is complete: it is processed, or dropped where it is too small.
pub open spec fn trigger_spec(s: ConversationView, reason: TriggerReason, stamp: u64) -> (
    ConversationView,
    SessionActionView,
) {
    let drained = ConversationView { audio: AudioView { bytes: Seq::empty(), ..s.audio }, ..s };
    if s.audio.bytes.len() < MIN_UTTERANCE_BYTES {
        (drained, SessionActionView::Nothing)
    } else {
        (
            ConversationView {
                state: SessionState::Listening,
                ..drained
            },
            SessionActionView::Process(
                UtteranceView {
                    ticket: Ticket { id: stamp, epoch: s.epoch, answering: false },
                    reason,
                    audio: s.audio.bytes,
                    sample_rate: s.sample_rate,
                    channels: s.channels,
                    tts_sample_rate: s.tts_sample_rate,
                    voice: s.voice,
                },
            ),
        )
    }
}

/// Why an utterance is complete after audio arrived; not at all where it is not.
pub open spec fn trigger_reason(a: AudioView, is_last: bool, now: u64) -> Option<TriggerReason> {
    if is_last {
        Some(TriggerReason::ClientIsLast)
    } else if audio_elapsed(a, now) >= MAX_UTTERANCE_MS {
        Some(TriggerReason::DurationCap)
    } else if a.bytes.len() >= MAX_AUDIO_BYTES {
        Some(TriggerReason::BufferCap)
    } else {
        None
    }
}

/// A number that is there and not 0.
pub open spec fn positive(n: Option<u32>) -> Option<u32> {
    match n {
        Some(v) => if v == 0 {
            None
        } else {
            Some(v)
        },
        None => None,
    }
}

/// A text that is there and not blank.
pub open spec fn told(s: Option<Seq<char>>) -> Option<Seq<char>> {
    match s {
        Some(v) => if trim_spec(v).len() == 0 {
            None
        } else {
            Some(v)
        },
        None => None,
    }
}

/// What a message does to a conversation. After its end nothing does anything.
pub open spec fn payload_step(s: ConversationView, p: PayloadView, now: u64, stamp: u64) -> (
    ConversationView,
    SessionActionView,
) {
    if s.closed {
        (s, SessionActionView::Nothing)
    } else {
        match p {
            PayloadView::SessionStart { sample_rate, channels, tts_sample_rate, voice, .. } => (
                ConversationView {
                    state: SessionState::Listening,
                    sample_rate,
                    channels: channels as u16,
                    tts_sample_rate: positive(tts_sample_rate),
                    voice: told(voice),
                    ..s
                },
                SessionActionView::Nothing,
            ),
            PayloadView::AudioChunk { data, is_last, .. } => {
                let audio = audio_push(s.audio, data, now);
                let t = ConversationView {
                    state: if s.state == SessionState::Idle {
                        SessionState::Listening
                    } else {
                        s.state
                    },
                    audio,
                    ..s
                };
                match trigger_reason(audio, is_last, now) {
                    Some(reason) => trigger_spec(t, reason, stamp),
                    None => (t, SessionActionView::Nothing),
                }
            },
            PayloadView::Interrupt => (
                ConversationView {
                    state: SessionState::Listening,
                    epoch: stamp,
                    answering: None,
                    ..s
                },
                SessionActionView::Interrupted(
                    PayloadView::LlmDelta {
                        session_id: s.session_id,
                        delta: "[已打断]"@,
                        is_final: true,
                    },
                ),
            ),
            PayloadView::SessionEnd { .. } => (
                ConversationView { closed: true, answering: None, ..s },
                SessionActionView::Closed,
            ),
            _ => (s, SessionActionView::Nothing),
        }
    }
}

/// The processing is cancelled: the conversation ended or was interrupted since, or something
/// newer is being answered.
pub open spec fn cancelled(s: ConversationView, t: Ticket) -> bool {
    s.closed || s.epoch != t.epoch || (t.answering && s.answering != Some(t.id))
}

/// A processing begins to answer, and so cancels the one that answered before.
pub open spec fn answer_step(s: ConversationView, t: Ticket) -> (ConversationView, Ticket, Option<u64>) {
    (
        ConversationView { answering: Some(t.id), ..s },
        Ticket { answering: true, ..t },
        s.answering,
    )
}

/// A processing ends.
pub open spec fn done_step(s: ConversationView, t: Ticket) -> ConversationView {
    if t.answering && s.answering == Some(t.id) {
        ConversationView { answering: None, ..s }
    } else {
        s
    }
}

impl VoiceSession {
    /// A conversation that begins with the message of this stamp.
    pub fn new(session_id: String, now: u64, stamp: u64) -> (r: Self)
        ensures
            r@ == (ConversationView {
                session_id: session_id@,
                state: SessionState::Idle,
                closed: false,
                epoch: stamp,
                answering: None,
                audio: AudioView { bytes: Seq::empty(), started_at: now },
                sample_rate: 0,
                channels: 0,
                tts_sample_rate: None,
                voice: None,
            }),
    {
        VoiceSession {
            session_id,
            state: SessionState::Idle,
            closed: false,
            epoch: stamp,
            answering: None,
            audio_buf: AudioAccumulator::new(now),
            sample_rate: 0,
            channels: 0,
            client_tts_sample_rate: None,
            client_voice: None,
        }
    }

    fn trigger_pipeline(&mut self, reason: TriggerReason, stamp: u64) -> (r: SessionAction)
        ensures
            (final(self)@, r@) == trigger_spec(old(self)@, reason, stamp),
    {
        let audio = self.audio_buf.drain();
        if audio.len() < MIN_UTTERANCE_BYTES {
            return SessionAction::Nothing;
        }
        let ticket = Ticket { id: stamp, epoch: self.epoch, answering: false };
        self.state = SessionState::Listening;
        SessionAction::Process(
            Utterance {
                ticket,
                reason,
                audio,
                sample_rate: self.sample_rate,
                channels: self.channels,
                tts_sample_rate: self.client_tts_sample_rate,
                voice: copy_opt(&self.client_voice),
            },
        )
    }

    /// Takes a message of the client. Each message has a stamp of its own, greater than those of
    /// the messages before it.
    pub fn on_payload(&mut self, p: VoicePayload, now: u64, stamp: u64) -> (r: SessionAction)
        ensures
            (final(self)@, r@) == payload_step(old(self)@, p@, now, stamp),
    {
        if self.closed {
            return SessionAction::Nothing;
        }
        match p {
            VoicePayload::SessionStart { sample_rate, channels, tts_sample_rate, voice, .. } => {
                self.sample_rate = sample_rate;
                self.channels = channels as u16;
                self.client_tts_sample_rate = match tts_sample_rate {
                    Some(n) => if n == 0 {
                        None
                    } else {
                        Some(n)
                    },
                    None => None,
                };
                self.client_voice = match voice {
                    Some(v) => if is_blank(v.as_str()) {
                        None
                    } else {
                        Some(v)
                    },
                    None => None,
                };
                self.state = SessionState::Listening;
                SessionAction::Nothing
            },
            VoicePayload::AudioChunk { data, is_last, .. } => {
                let idle = match self.state {
                    SessionState::Idle => true,
                    _ => false,
                };
                if idle {
                    self.state = SessionState::Listening;
                }
                self.audio_buf.push(&data, now);
                if is_last {
                    self.trigger_pipeline(TriggerReason::ClientIsLast, stamp)
                } else if self.audio_buf.elapsed_ms(now) >= MAX_UTTERANCE_MS {
                    self.trigger_pipeline(TriggerReason::DurationCap, stamp)
                } else if self.audio_buf.len() >= MAX_AUDIO_BYTES {
                    self.trigger_pipeline(TriggerReason::BufferCap, stamp)
                } else {
                    SessionAction::Nothing
                }
            },
            VoicePayload::Interrupt => {
                self.epoch = stamp;
                self.answering = None;
                self.state = SessionState::Listening;
                SessionAction::Interrupted(
                    VoicePayload::LlmDelta {
                        session_id: self.session_id.clone(),
                        delta: "[已打断]".to_string(),
                        is_final: true,
                    },
                )
            },
            VoicePayload::SessionEnd { .. } => {
                self.closed = true;
                self.answering = None;
                SessionAction::Closed
            },
            _ => SessionAction::Nothing,
        }
    }

    /// Whether a processing is cancelled.
    pub fn is_cancelled(&self, ticket: &Ticket) -> (r: bool)
        ensures
            r == cancelled(self@, *ticket),
    {
        if self.closed || self.epoch != ticket.epoch {
            return true;
        }
        if !ticket.answering {
            return false;
        }
        match self.answering {
            Some(id) => id != ticket.id,
            None => true,
        }
    }

    /// A processing begins to answer. Says which one it cancels.
    pub fn begin_answer(&mut self, ticket: &mut Ticket) -> (r: Option<u64>)
        ensures
            (final(self)@, *final(ticket), r) == answer_step(old(self)@, *old(ticket)),
    {
        let before = self.answering;
        self.answering = Some(ticket.id);
        ticket.answering = true;
        before
    }

    /// A processing ends, however it does.
    pub fn end_answer(&mut self, ticket: &Ticket)
        ensures
            final(self)@ == done_step(old(self)@, *ticket),
    {
        if ticket.answering {
            if let Some(id) = self.answering {
                if id == ticket.id {
                    self.answering = None;
                }
            }
        }
    }
}

/// After its end a conversation ignores every message.
pub proof fn law_closed_stays_closed(s: ConversationView, p: PayloadView, now: u64, stamp: u64)
    requires
        s.closed,
    ensures
        payload_step(s, p, now, stamp) == (s, SessionActionView::Nothing),
{
}

/// The audio of an utterance never grows beyond the limit: once a message was taken, less than
/// the limit waits.
pub proof fn law_buffer_is_bounded(s: ConversationView, p: PayloadView, now: u64, stamp: u64)
    requires
        s.audio.bytes.len() < MAX_AUDIO_BYTES,
    ensures
        payload_step(s, p, now, stamp).0.audio.bytes.len() < MAX_AUDIO_BYTES,
{
}

/// Audio goes to processing whole and in order, or waits, or is dropped where a complete
/// utterance is too small.
pub proof fn law_audio_is_processed_whole(s: ConversationView, data: Seq<u8>, is_last: bool, seq: u32, ts: u64, now: u64, stamp: u64)
    requires
        !s.closed,
    ensures
        ({
            let (t, action) = payload_step(
                s,
                PayloadView::AudioChunk { seq, timestamp_ms: ts, data, is_last },
                now,
                stamp,
            );
            let whole = s.audio.bytes + data;
            &&& action matches SessionActionView::Process(u) ==> u.audio == whole && whole.len()
                >= MIN_UTTERANCE_BYTES && t.audio.bytes.len() == 0
            &&& action is Nothing ==> t.audio.bytes == whole || (t.audio.bytes.len() == 0
                && whole.len() < MIN_UTTERANCE_BYTES)
            &&& is_last && whole.len() >= MIN_UTTERANCE_BYTES ==> action is Process
        }),
{
}

/// An utterance that is being processed is not cancelled by the next one as long as nothing was
/// recognised in that.
pub proof fn law_audio_cancels_nothing(s: ConversationView, data: Seq<u8>, is_last: bool, seq: u32, ts: u64, now: u64, stamp: u64, t: Ticket)
    ensures
        cancelled(
            payload_step(
                s,
                PayloadView::AudioChunk { seq, timestamp_ms: ts, data, is_last },
                now,
                stamp,
            ).0,
            t,
        ) == cancelled(s, t),
{
}

/// What begins to answer cancels whatever answered before, and nothing else; it is itself not
/// cancelled by that.
pub proof fn law_new_answer_cancels_the_old(s: ConversationView, later: Ticket, earlier: Ticket)
    requires
        !cancelled(s, later),
        later.id != earlier.id,
    ensures
        ({
            let (t, ticket, _before) = answer_step(s, later);
            &&& !cancelled(t, ticket)
            &&& earlier.answering ==> cancelled(t, earlier)
            &&& !earlier.answering ==> cancelled(t, earlier) == cancelled(s, earlier)
        }),
{
}

/// An interruption cancels everything that is being processed, and nothing that comes after it.
pub proof fn law_interrupt_cancels_everything(s: ConversationView, t: Ticket, later: Ticket, now: u64, stamp: u64)
    requires
        !s.closed,
        t.epoch < stamp,
        later.epoch == stamp,
        !later.answering,
    ensures
        cancelled(payload_step(s, PayloadView::Interrupt, now, stamp).0, t),
        !cancelled(payload_step(s, PayloadView::Interrupt, now, stamp).0, later),
{
}

/// The end of a conversation cancels everything.
pub proof fn law_end_cancels_everything(s: ConversationView, reason: Seq<char>, t: Ticket, now: u64, stamp: u64)
    ensures
        cancelled(payload_step(s, PayloadView::SessionEnd { reason }, now, stamp).0, t),
{
}

/// A processing that ends does not cancel a newer one.
pub proof fn law_end_of_old_answer_is_harmless(s: ConversationView, earlier: Ticket, later: Ticket)
    requires
        earlier.id != later.id,
        !cancelled(s, later),
    ensures
        !cancelled(done_step(s, earlier), later),
{
}

/// At most one utterance of a conversation is being answered.
pub proof fn law_one_answer_at_a_time(s: ConversationView, a: Ticket, b: Ticket)
    requires
        a.answering,
        b.answering,
        !cancelled(s, a),
        !cancelled(s, b),
    ensures
        a.id == b.id,
{
}

// ---- processing an utterance ----

/// The recording of an utterance as it is sent to recognition.
pub fn asr_input(audio: &Vec<u8>, sample_rate: u32, channels: u16) -> (r: Vec<u8>)
    requires
        wav_fits(audio@.len(), sample_rate, channels),
    ensures
        r@ == wav_spec(audio@, sample_rate as int, channels as int),
{
    wrap_pcm_as_wav(audio.as_slice(), sample_rate, channels)
}

/// Whether the header of a recording can hold what it has to say.
pub fn fits_wav(len: usize, sample_rate: u32, channels: u16) -> (r: bool)
    ensures
        r == wav_fits(len as nat, sample_rate, channels),
{
    let field: u64 = len as u64 % 0x1_0000_0000;
    let rate: u64 = sample_rate as u64;
    let count: u64 = channels as u64;
    assert(rate * count <= 0xFFFF_FFFF * 0xFFFF) by (nonlinear_arith)
        requires
            rate <= 0xFFFF_FFFF,
            count <= 0xFFFF,
    ;
    assert(sample_rate * channels * 2 == rate * count * 2) by (nonlinear_arith)
        requires
            rate == sample_rate,
            count == channels,
    ;
    36 + field <= 0xFFFF_FFFF && rate * count * 2 <= 0xFFFF_FFFF && count * 2 <= 0xFFFF
}

/// Recognition of an utterance: the events so far and the text that counts.
pub struct Recognition {
    events: Vec<AsrEvent>,
    prompt: String,
}

/// A result of recognition.
pub ghost struct HeardView {
    pub text: Seq<char>,
    pub is_final: bool,
}

pub open spec fn heard(v: Seq<AsrEvent>) -> Seq<HeardView> {
    Seq::new(v.len(), |i: int| HeardView { text: v[i].text@, is_final: v[i].is_final })
}

/// The last text of some results that is not empty.
pub open spec fn last_text(v: Seq<HeardView>) -> Seq<char>
    decreases v.len(),
{
    if v.len() == 0 {
        Seq::empty()
    } else if v.last().text.len() > 0 {
        v.last().text
    } else {
        last_text(v.drop_last())
    }
}

impl View for Recognition {
    type V = Seq<HeardView>;

    closed spec fn view(&self) -> Seq<HeardView> {
        heard(self.events@)
    }
}

/// What becomes of an utterance when recognition is over.
pub enum Recognized {
    /// Nothing was said: nothing is sent, answered or cancelled.
    Nothing,
    /// This is sent to the client, and the text is answered.
    Answer { partials: Vec<VoicePayload>, text: String, emotion: Option<String> },
}

/// The results as the client gets them, without tags.
pub open spec fn partials_spec(session_id: Seq<char>, v: Seq<HeardView>) -> Seq<PayloadView> {
    Seq::new(
        v.len(),
        |i: int|
            PayloadView::AsrPartial {
                session_id,
                text: parse_tags_spec(v[i].text).0,
                is_final: v[i].is_final,
                replace_last: false,
            },
    )
}

/// What was said: the text that counts, without white space around it and without tags, and the
/// emotion that it tells. Nothing where there is no such text.
pub open spec fn said_spec(v: Seq<HeardView>) -> Option<(Seq<char>, Option<Seq<char>>)> {
    let prompt = trim_spec(last_text(v));
    let parsed = parse_tags_spec(prompt);
    if prompt.len() == 0 || parsed.0.len() == 0 {
        None
    } else {
        Some(parsed)
    }
}

impl Recognition {
    pub closed spec fn wf(&self) -> bool {
        self.prompt@ == last_text(heard(self.events@))
    }

    pub fn new() -> (r: Self)
        ensures
            r.wf(),
            r@ == Seq::<HeardView>::empty(),
    {
        let r = Recognition { events: Vec::new(), prompt: String::new() };
        assert(heard(r.events@) =~= Seq::<HeardView>::empty());
        r
    }

    /// Takes a result. Says whether recognition is over.
    pub fn on_event(&mut self, event: AsrEvent) -> (r: bool)
        requires
            old(self).wf(),
        ensures
            final(self).wf(),
            final(self)@ == old(self)@.push(
                HeardView { text: event.text@, is_final: event.is_final },
            ),
            r == event.is_final,
    {
        let ghost before = self@;
        let ghost h = HeardView { text: event.text@, is_final: event.is_final };
        let is_final = event.is_final;
        if !event.text.as_str().is_empty() {
            self.prompt = event.text.clone();
        }
        self.events.push(event);
        assert(heard(self.events@) =~= before.push(h));
        assert(before.push(h).drop_last() =~= before);
        is_final
    }

    /// Recognition is over.
    pub fn conclude(&self, session_id: &str) -> (r: Recognized)
        requires
            self.wf(),
        ensures
            match said_spec(self@) {
                None => r is Nothing,
                Some((t, e)) => r matches Recognized::Answer { partials, text, emotion }
                    && payload_views(partials@) == partials_spec(session_id@, self@) && text@ == t
                    && opt_view(emotion) == e,
            },
    {
        let prompt = trim(self.prompt.as_str());
        if prompt.as_str().is_empty() {
            return Recognized::Nothing;
        }
        let parsed = parse_asr_emotion_tags(prompt.as_str());
        if parsed.text.as_str().is_empty() {
            return Recognized::Nothing;
        }
        let ghost want = partials_spec(session_id@, self@);
        let mut partials: Vec<VoicePayload> = Vec::new();
        for i in 0..self.events.len()
            invariant
                want == partials_spec(session_id@, heard(self.events@)),
                payload_views(partials@) =~= want.take(i as int),
        {
            let ghost before = partials@;
            let cleaned = parse_asr_emotion_tags(self.events[i].text.as_str()).text;
            partials.push(
                VoicePayload::AsrPartial {
                    session_id: session_id.to_string(),
                    text: cleaned,
                    is_final: self.events[i].is_final,
                    replace_last: false,
                },
            );
            assert(payload_views(partials@) =~= payload_views(before).push(want[i as int]));
            assert(want.take(i + 1) =~= want.take(i as int).push(want[i as int]));
        }
        assert(payload_views(partials@) =~= want);
        Recognized::Answer { partials, text: parsed.text, emotion: parsed.emotion }
    }
}

/// Why recognition of an utterance failed.
pub enum AsrFailure {
    /// It took too long.
    TimedOut,
    /// It could not be asked.
    Call(ClientError),
    /// It broke off.
    Stream(ClientError),
}

/// What is said of a failure of recognition.
pub open spec fn failure_text(f: AsrFailure) -> Seq<char> {
    match f {
        AsrFailure::TimedOut => "asr timeout after "@ + decimal(ASR_TIMEOUT_SECS as nat) + "s"@,
        AsrFailure::Call(e) => "asr error: "@ + error_text(e),
        AsrFailure::Stream(e) => "asr stream: "@ + error_text(e),
    }
}

/// What the client is told when recognition failed.
pub fn asr_failure_payload(f: &AsrFailure) -> (r: VoicePayload)
    ensures
        r@ == (PayloadView::Error { code: 1001, message: failure_text(*f) }),
{
    let message = match f {
        AsrFailure::TimedOut => concat3(
            "asr timeout after ",
            decimal_of(ASR_TIMEOUT_SECS).as_str(),
            "s",
        ),
        AsrFailure::Call(e) => concat("asr error: ", e.to_string().as_str()),
        AsrFailure::Stream(e) => concat("asr stream: ", e.to_string().as_str()),
    };
    VoicePayload::Error { code: 1001, message }
}

/// What the client gets of something that a pipeline passes on.
pub open spec fn item_payload_spec(session_id: Seq<char>, item: ItemView) -> Option<PayloadView> {
    match item {
        ItemView::Llm { delta, is_final } => if delta.len() > 0 || is_final {
            Some(PayloadView::LlmDelta { session_id, delta, is_final })
        } else {
            None
        },
        ItemView::Tts { seq, audio, is_last } => Some(
            PayloadView::TtsAudio {
                session_id,
                seq,
                data: match base64_bytes(audio) {
                    Ok(b) => b,
                    Err(_) => Seq::empty(),
                },
                is_last,
            },
        ),
        ItemView::Failed { error, code } => Some(
            PayloadView::Error { code: code as u32, message: error },
        ),
    }
}

/// What the client gets of something that a pipeline passes on. Audio goes out as it is.
pub fn item_payload(session_id: &str, item: LlmTtsItem) -> (r: Option<VoicePayload>)
    ensures
        match r {
            Some(p) => item_payload_spec(session_id@, item@) == Some(p@),
            None => item_payload_spec(session_id@, item@) is None,
        },
{
    match item {
        LlmTtsItem::Llm { delta, is_final } => {
            if !delta.as_str().is_empty() || is_final {
                Some(
                    VoicePayload::LlmDelta { session_id: session_id.to_string(), delta, is_final },
                )
            } else {
                None
            }
        },
        LlmTtsItem::Tts { seq, audio, is_last } => {
            let data: Vec<u8> = match base64_decode(audio.as_str()) {
                Ok(b) => b,
                Err(_) => Vec::new(),
            };
            Some(
                VoicePayload::TtsAudio { session_id: session_id.to_string(), seq, data, is_last },
            )
        },
        LlmTtsItem::Failed { error, code } => Some(
            VoicePayload::Error { code: code as u32, message: error },
        ),
    }
}

/// How far the processing of an utterance has come.
#[derive(Debug, Clone, Copy, PartialEq, Eq, Structural)]
pub enum RunPhase {
    /// Recognition was asked and has not answered yet.
    Asking,
    /// Recognition brings results.
    Hearing,
    /// What was said is being answered.
    Answering,
    Over,
}

/// What happens while an utterance is processed.
pub enum RunEvent {
    /// Recognition answers; results will follow.
    Opened,
    /// Recognition failed.
    AsrFailed(AsrFailure),
    Heard(AsrEvent),
    /// There are no more results.
    HeardAll,
    /// The pipeline that answers passes something on.
    Item(LlmTtsItem),
    /// The pipeline that answers is at its end.
    ItemsEnded,
}

pub ghost enum RunEventView {
    Opened,
    AsrFailed(Seq<char>),
    Heard(HeardView),
    HeardAll,
    Item(ItemView),
    ItemsEnded,
}

impl View for RunEvent {
    type V = RunEventView;

    open spec fn view(&self) -> RunEventView {
        match *self {
            RunEvent::Opened => RunEventView::Opened,
            RunEvent::AsrFailed(f) => RunEventView::AsrFailed(failure_text(f)),
            RunEvent::Heard(e) => RunEventView::Heard(
                HeardView { text: e.text@, is_final: e.is_final },
            ),
            RunEvent::HeardAll => RunEventView::HeardAll,
            RunEvent::Item(item) => RunEventView::Item(item@),
            RunEvent::ItemsEnded => RunEventView::ItemsEnded,
        }
    }
}

/// What is to be done next for an utterance.
#[derive(Debug)]
pub enum RunAction {
    /// Wait for what happens next.
    Wait,
    /// Answer this.
    Answer { text: String, emotion: Option<String> },
    /// It is over.
    Stop,
}

pub ghost enum RunActionView {
    Wait,
    Answer { text: Seq<char>, emotion: Option<Seq<char>> },
    Stop,
}

impl View for RunAction {
    type V = RunActionView;

    open spec fn view(&self) -> RunActionView {
        match *self {
            RunAction::Wait => RunActionView::Wait,
            RunAction::Answer { text, emotion } => RunActionView::Answer {
                text: text@,
                emotion: opt_view(emotion),
            },
            RunAction::Stop => RunActionView::Stop,
        }
    }
}

/// What comes of something that happened.
#[derive(Debug)]
pub struct RunStep {
    /// What is sent to the client.
    pub payloads: Vec<VoicePayload>,
    pub action: RunAction,
    /// The processing that is cancelled by it.
    pub cancels: Option<u64>,
}

pub ghost struct RunStepView {
    pub payloads: Seq<PayloadView>,
    pub action: RunActionView,
    pub cancels: Option<u64>,
}

impl View for RunStep {
    type V = RunStepView;

    open spec fn view(&self) -> RunStepView {
        RunStepView {
            payloads: payload_views(self.payloads@),
            action: self.action@,
            cancels: self.cancels,
        }
    }
}

/// The processing of one utterance.
pub struct UtteranceRun {
    session_id: String,
    ticket: Ticket,
    phase: RunPhase,
    recognition: Recognition,
}

pub ghost struct RunView {
    pub session_id: Seq<char>,
    pub ticket: Ticket,
    pub phase: RunPhase,
    pub heard: Seq<HeardView>,
}

/// Nothing is sent, and it goes on.
pub open spec fn run_wait() -> RunStepView {
    RunStepView { payloads: Seq::empty(), action: RunActionView::Wait, cancels: None }
}

/// It is over.
pub open spec fn run_stop(payloads: Seq<PayloadView>) -> RunStepView {
    RunStepView { payloads, action: RunActionView::Stop, cancels: None }
}

/// The processing is over.
pub open spec fn run_over(s: ConversationView, r: RunView) -> (ConversationView, RunView) {
    (done_step(s, r.ticket), RunView { phase: RunPhase::Over, ..r })
}

/// Recognition is over. Where nothing was said the processing ends in silence. Otherwise the
/// client gets the results, the answer before is cancelled, and what was said is answered.
pub open spec fn conclude_step(s: ConversationView, r: RunView) -> (
    ConversationView,
    RunView,
    RunStepView,
) {
    match said_spec(r.heard) {
        None => {
            let (t, q) = run_over(s, r);
            (t, q, run_stop(Seq::empty()))
        },
        Some((text, emotion)) => {
            let (t, ticket, before) = answer_step(s, r.ticket);
            (
                t,
                RunView { ticket, phase: RunPhase::Answering, ..r },
                RunStepView {
                    payloads: partials_spec(r.session_id, r.heard),
                    action: RunActionView::Answer { text, emotion },
                    cancels: before,
                },
            )
        },
    }
}

/// What something that happens does to the processing of an utterance. Where it was cancelled it
/// ends in silence.
pub open spec fn run_step(s: ConversationView, r: RunView, e: RunEventView) -> (
    ConversationView,
    RunView,
    RunStepView,
) {
    let (over, ended) = run_over(s, r);
    if r.phase == RunPhase::Over {
        (s, r, run_stop(Seq::empty()))
    } else if cancelled(s, r.ticket) {
        (over, ended, run_stop(Seq::empty()))
    } else {
        match (r.phase, e) {
            (RunPhase::Asking, RunEventView::Opened) => (
                s,
                RunView { phase: RunPhase::Hearing, ..r },
                run_wait(),
            ),
            (
                RunPhase::Asking | RunPhase::Hearing,
                RunEventView::AsrFailed(message),
            ) => (
                over,
                ended,
                run_stop(seq![PayloadView::Error { code: 1001, message }]),
            ),
            (RunPhase::Hearing, RunEventView::Heard(h)) => {
                let q = RunView { heard: r.heard.push(h), ..r };
                if h.is_final {
                    conclude_step(s, q)
                } else {
                    (s, q, run_wait())
                }
            },
            (RunPhase::Hearing, RunEventView::HeardAll) => conclude_step(s, r),
            (RunPhase::Answering, RunEventView::Item(item)) => {
                let payloads = match item_payload_spec(r.session_id, item) {
                    Some(p) => seq![p],
                    None => Seq::empty(),
                };
                if item is Failed {
                    (over, ended, run_stop(payloads))
                } else {
                    (s, r, RunStepView { payloads, ..run_wait() })
                }
            },
            (RunPhase::Answering, RunEventView::ItemsEnded) => (
                over,
                ended,
                run_stop(Seq::empty()),
            ),
            _ => (s, r, run_wait()),
        }
    }
}

impl View for UtteranceRun {
    type V = RunView;

    closed spec fn view(&self) -> RunView {
        RunView {
            session_id: self.session_id@,
            ticket: self.ticket,
            phase: self.phase,
            heard: self.recognition@,
        }
    }
}

impl UtteranceRun {
    pub closed spec fn wf(&self) -> bool {
        self.recognition.wf()
    }

    /// Recognition of an utterance was asked.
    pub fn new(session_id: &str, ticket: Ticket) -> (r: Self)
        ensures
            r.wf(),
            r@ == (RunView {
                session_id: session_id@,
                ticket,
                phase: RunPhase::Asking,
                heard: Seq::empty(),
            }),
    {
        UtteranceRun {
            session_id: session_id.to_string(),
            ticket,
            phase: RunPhase::Asking,
            recognition: Recognition::new(),
        }
    }

    /// The name of the session.
    pub fn session_id(&self) -> (r: String)
        ensures
            r@ == self@.session_id,
    {
        self.session_id.clone()
    }

    /// The conversation is gone.
    pub fn give_up(&mut self) -> (r: RunStep)
        requires
            old(self).wf(),
        ensures
            final(self).wf(),
            final(self)@ == (RunView { phase: RunPhase::Over, ..old(self)@ }),
            r@ == run_stop(Seq::empty()),
    {
        self.phase = RunPhase::Over;
        send_step(None, RunAction::Stop)
    }

    pub fn ticket(&self) -> (r: Ticket)
        ensures
            r == self@.ticket,
    {
        self.ticket
    }

    pub fn phase(&self) -> (r: RunPhase)
        ensures
            r == self@.phase,
    {
        self.phase
    }
}

impl VoiceSession {
    fn stop_run(&mut self, run: &mut UtteranceRun, payload: Option<VoicePayload>) -> (r: RunStep)
        requires
            old(run).wf(),
        ensures
            final(run).wf(),
            (final(self)@, final(run)@) == run_over(old(self)@, old(run)@),
            r@ == run_stop(
                match payload {
                    Some(p) => seq![p@],
                    None => Seq::empty(),
                },
            ),
    {
        self.end_answer(&run.ticket);
        run.phase = RunPhase::Over;
        send_step(payload, RunAction::Stop)
    }

    fn conclude_run(&mut self, run: &mut UtteranceRun) -> (r: RunStep)
        requires
            old(run).wf(),
        ensures
            final(run).wf(),
            (final(self)@, final(run)@, r@) == conclude_step(old(self)@, old(run)@),
    {
        match run.recognition.conclude(run.session_id.as_str()) {
            Recognized::Nothing => self.stop_run(run, None),
            Recognized::Answer { partials, text, emotion } => {
                let cancels = self.begin_answer(&mut run.ticket);
                run.phase = RunPhase::Answering;
                RunStep {
                    payloads: partials,
                    action: RunAction::Answer { text, emotion },
                    cancels,
                }
            },
        }
    }

    /// Takes what happens to the processing of an utterance of this conversation.
    pub fn step(&mut self, run: &mut UtteranceRun, event: RunEvent) -> (r: RunStep)
        requires
            old(run).wf(),
        ensures
            final(run).wf(),
            (final(self)@, final(run)@, r@) == run_step(old(self)@, old(run)@, event@),
    {
        let over = match run.phase {
            RunPhase::Over => true,
            _ => false,
        };
        if over {
            return send_step(None, RunAction::Stop);
        }
        if self.is_cancelled(&run.ticket) {
            return self.stop_run(run, None);
        }
        match (run.phase, event) {
            (RunPhase::Asking, RunEvent::Opened) => {
                run.phase = RunPhase::Hearing;
                send_step(None, RunAction::Wait)
            },
            (RunPhase::Asking, RunEvent::AsrFailed(f)) => {
                self.stop_run(run, Some(asr_failure_payload(&f)))
            },
            (RunPhase::Hearing, RunEvent::AsrFailed(f)) => {
                self.stop_run(run, Some(asr_failure_payload(&f)))
            },
            (RunPhase::Hearing, RunEvent::Heard(e)) => {
                if run.recognition.on_event(e) {
                    self.conclude_run(run)
                } else {
                    send_step(None, RunAction::Wait)
                }
            },
            (RunPhase::Hearing, RunEvent::HeardAll) => self.conclude_run(run),
            (RunPhase::Answering, RunEvent::Item(item)) => {
                let failed = match item {
                    LlmTtsItem::Failed { .. } => true,
                    _ => false,
                };
                let payload = item_payload(run.session_id.as_str(), item);
                if failed {
                    self.stop_run(run, payload)
                } else {
                    send_step(payload, RunAction::Wait)
                }
            },
            (RunPhase::Answering, RunEvent::ItemsEnded) => self.stop_run(run, None),
            _ => send_step(None, RunAction::Wait),
        }
    }
}

fn send_step(payload: Option<VoicePayload>, action: RunAction) -> (r: RunStep)
    ensures
        r@ == (RunStepView {
            payloads: match payload {
                Some(p) => seq![p@],
                None => Seq::empty(),
            },
            action: action@,
            cancels: None,
        }),
{
    let mut payloads: Vec<VoicePayload> = Vec::new();
    match payload {
        Some(p) => {
            payloads.push(p);
            assert(payload_views(payloads@) =~= seq![p@]);
        },
        None => {
            assert(payload_views(payloads@) =~= Seq::<PayloadView>::empty());
        },
    }
    RunStep { payloads, action, cancels: None }
}

/// An utterance in which nothing was said sends nothing, answers nothing and cancels nothing:
/// what is being answered goes on.
pub proof fn law_silence_interrupts_nobody(s: ConversationView, r: RunView, t: Ticket)
    requires
        r.phase == RunPhase::Hearing,
        !r.ticket.answering,
        said_spec(r.heard) is None,
    ensures
        ({
            let (s2, _run, step) = run_step(s, r, RunEventView::HeardAll);
            &&& step == run_stop(Seq::empty())
            &&& s2 == s
            &&& cancelled(s2, t) == cancelled(s, t)
        }),
{
}

/// An utterance in which something was said cancels the answer that is under way, and is
/// answered itself.
pub proof fn law_speech_interrupts_the_answer(s: ConversationView, r: RunView, t: Ticket)
    requires
        r.phase == RunPhase::Hearing,
        !cancelled(s, r.ticket),
        said_spec(r.heard) is Some,
        t.answering,
        t.id != r.ticket.id,
    ensures
        ({
            let (s2, run, step) = run_step(s, r, RunEventView::HeardAll);
            &&& step.action is Answer
            &&& step.cancels == s.answering
            &&& !cancelled(s2, run.ticket)
            &&& cancelled(s2, t)
        }),
{
}

/// Once it is cancelled, the processing of an utterance sends nothing.
pub proof fn law_cancelled_is_silent(s: ConversationView, r: RunView, e: RunEventView)
    requires
        cancelled(s, r.ticket),
    ensures
        run_step(s, r, e).2 == run_stop(Seq::empty()),
{
}

/// While recognition is under way the client gets nothing but a failure.
pub proof fn law_nothing_is_sent_before_speech(s: ConversationView, r: RunView, e: RunEventView)
    requires
        r.phase == RunPhase::Asking || r.phase == RunPhase::Hearing,
        !(e is AsrFailed),
    ensures
        ({
            let (_after, run, step) = run_step(s, r, e);
            step.payloads.len() > 0 ==> step.action is Answer && run.phase == RunPhase::Answering
        }),
{
}

/// A failure is the last thing that a client gets of an utterance.
pub proof fn law_failure_is_the_last(s: ConversationView, r: RunView, e: RunEventView)
    requires
        !cancelled(s, r.ticket),
        r.phase != RunPhase::Over,
    ensures
        ({
            let (_after, run, step) = run_step(s, r, e);
            forall|i: int|
                0 <= i < step.payloads.len() && #[trigger] step.payloads[i] is Error ==> i + 1
                    == step.payloads.len() && step.action is Stop && run.phase == RunPhase::Over
        }),
{
}

/// The audio that a client gets is the audio that the pipeline passed on.
pub proof fn law_client_gets_the_audio(session_id: Seq<char>, seq: u32, pcm: Seq<u8>)
    requires
        decodes(pcm),
    ensures
        item_payload_spec(
            session_id,
            ItemView::Tts { seq, audio: base64_text(pcm), is_last: false },
        ) == Some(PayloadView::TtsAudio { session_id, seq, data: pcm, is_last: false }),
{
}

/// Whatever audio a pipeline passes on, the client gets: an item that is not the end mark stands
/// for some audio, and that is what goes out.
pub proof fn law_client_gets_what_is_passed_on(session_id: Seq<char>, items: Seq<ItemView>, i: int)
    requires
        all_playable(items),
        0 <= i < items.len(),
        items[i] is Tts,
        !items[i]->is_last,
    ensures
        exists|pcm: Seq<u8>|
            pcm.len() > 0 && items[i]->audio == #[trigger] base64_text(pcm) && item_payload_spec(
                session_id,
                items[i],
            ) == Some(
                PayloadView::TtsAudio { session_id, seq: items[i]->seq, data: pcm, is_last: false },
            ),
{
    reveal(all_playable);
    assert(playable(items[i]));
    let pcm = choose|pcm: Seq<u8>|
        pcm.len() > 0 && decodes(pcm) && items[i]->audio == #[trigger] base64_text(pcm);
    law_client_gets_the_audio(session_id, items[i]->seq, pcm);
}

/// Every piece of an answer that says something reaches the client, at once and unchanged,
/// whether it is the last or not; so does the end of the answer. Only an empty piece in the middle
/// is left out.
pub proof fn law_client_gets_every_piece(session_id: Seq<char>, delta: Seq<char>, is_final: bool)
    ensures
        delta.len() > 0 || is_final ==> item_payload_spec(
            session_id,
            ItemView::Llm { delta, is_final },
        ) == Some(PayloadView::LlmDelta { session_id, delta, is_final }),
        delta.len() == 0 && !is_final ==> item_payload_spec(
            session_id,
            ItemView::Llm { delta, is_final },
        ) is None,
{
}

/// A failure reaches the client with its own words and its own code.
pub proof fn law_client_is_told_of_failures(session_id: Seq<char>, error: Seq<char>, code: u16)
    ensures
        item_payload_spec(session_id, ItemView::Failed { error, code }) matches Some(
            PayloadView::Error { code: c, message },
        ) && c == code && message == error,
{
}

/// The processing after several things have happened, and everything that was sent to the client
/// meanwhile.
pub open spec fn run_all(s: ConversationView, r: RunView, es: Seq<RunEventView>) -> (
    ConversationView,
    RunView,
    Seq<PayloadView>,
)
    decreases es.len(),
{
    if es.len() == 0 {
        (s, r, Seq::empty())
    } else {
        let (t, q, sent) = run_all(s, r, es.drop_last());
        let (after, run, step) = run_step(t, q, es.last());
        (after, run, sent + step.payloads)
    }
}

/// What a pipeline passes on, one after the other.
pub open spec fn item_events(items: Seq<ItemView>) -> Seq<RunEventView> {
    Seq::new(items.len(), |i: int| RunEventView::Item(items[i]))
}

/// The answer as a pipeline passes it on.
pub open spec fn passed_text(items: Seq<ItemView>) -> Seq<char>
    decreases items.len(),
{
    if items.len() == 0 {
        Seq::empty()
    } else {
        passed_text(items.drop_last()) + (match items.last() {
            ItemView::Llm { delta, .. } => delta,
            _ => Seq::empty(),
        })
    }
}

/// The answer as a client reads it.
pub open spec fn read_text(sent: Seq<PayloadView>) -> Seq<char>
    decreases sent.len(),
{
    if sent.len() == 0 {
        Seq::empty()
    } else {
        read_text(sent.drop_last()) + (match sent.last() {
            PayloadView::LlmDelta { delta, .. } => delta,
            _ => Seq::empty(),
        })
    }
}

/// How many pieces of audio a pipeline passes on.
pub open spec fn passed_audio(items: Seq<ItemView>) -> nat
    decreases items.len(),
{
    if items.len() == 0 {
        0
    } else {
        passed_audio(items.drop_last()) + (if items.last() is Tts {
            1nat
        } else {
            0
        })
    }
}

/// How many pieces of audio a client gets.
pub open spec fn sent_audio(sent: Seq<PayloadView>) -> nat
    decreases sent.len(),
{
    if sent.len() == 0 {
        0
    } else {
        sent_audio(sent.drop_last()) + (if sent.last() is TtsAudio {
            1nat
        } else {
            0
        })
    }
}

/// As long as nothing cancels it, the client reads the whole answer in order: the pieces that were
/// sent, joined, are the pieces that the pipeline passed on, joined. Every piece of audio is sent
/// too, and the conversation is left as it is.
pub proof fn law_client_reads_the_whole_answer(
    s: ConversationView,
    r: RunView,
    items: Seq<ItemView>,
)
    requires
        r.phase == RunPhase::Answering,
        !cancelled(s, r.ticket),
        forall|i: int| 0 <= i < items.len() ==> !(#[trigger] items[i] is Failed),
    ensures
        ({
            let (after, run, sent) = run_all(s, r, item_events(items));
            &&& after == s
            &&& run == r
            &&& read_text(sent) == passed_text(items)
            &&& sent_audio(sent) == passed_audio(items)
        }),
    decreases items.len(),
{
    let es = item_events(items);
    if items.len() > 0 {
        let before = items.drop_last();
        assert forall|i: int| 0 <= i < before.len() implies !(#[trigger] before[i] is Failed) by {
            assert(before[i] == items[i]);
        }
        law_client_reads_the_whole_answer(s, r, before);
        assert(es.drop_last() =~= item_events(before));
        let item = items.last();
        assert(es.last() == RunEventView::Item(item));
        let (t, q, sent) = run_all(s, r, es.drop_last());
        let payloads = run_step(t, q, es.last()).2.payloads;
        let all = sent + payloads;
        assert(!(items[items.len() - 1] is Failed));
        match item_payload_spec(r.session_id, item) {
            Some(p) => {
                assert(payloads =~= seq![p]);
                assert(all.drop_last() =~= sent);
                assert(all.last() == p);
            },
            None => {
                assert(all =~= sent);
                assert(passed_text(items) =~= passed_text(before));
            },
        }
    }
}

/// The results of recognition, one after the other.
pub open spec fn heard_events(hs: Seq<HeardView>) -> Seq<RunEventView> {
    Seq::new(hs.len(), |i: int| RunEventView::Heard(hs[i]))
}

proof fn lemma_results_are_kept(s: ConversationView, r: RunView, hs: Seq<HeardView>)
    requires
        r.phase == RunPhase::Hearing,
        !cancelled(s, r.ticket),
        forall|i: int| 0 <= i < hs.len() ==> !(#[trigger] hs[i]).is_final,
    ensures
        run_all(s, r, heard_events(hs)) == (
            s,
            RunView { heard: r.heard + hs, ..r },
            Seq::<PayloadView>::empty(),
        ),
    decreases hs.len(),
{
    let es = heard_events(hs);
    if hs.len() == 0 {
        assert(r.heard + hs =~= r.heard);
    } else {
        let before = hs.drop_last();
        assert forall|i: int| 0 <= i < before.len() implies !(#[trigger] before[i]).is_final by {
            assert(before[i] == hs[i]);
        }
        lemma_results_are_kept(s, r, before);
        assert(es.drop_last() =~= heard_events(before));
        assert(es.last() == RunEventView::Heard(hs.last()));
        assert(!hs[hs.len() - 1].is_final);
        assert((r.heard + before).push(hs.last()) =~= r.heard + hs);
        assert(Seq::<PayloadView>::empty() + Seq::<PayloadView>::empty() =~= Seq::<
            PayloadView,
        >::empty());
    }
}

/// Where something was said, the client is shown every result of recognition, in order, each
/// under its session and marked as it was, before anything of the answer; a result without tags is
/// shown as it was recognised, but for white space around it.
pub proof fn law_every_result_is_shown(
    s: ConversationView,
    r: RunView,
    hs: Seq<HeardView>,
)
    requires
        r.phase == RunPhase::Hearing,
        r.heard.len() == 0,
        !cancelled(s, r.ticket),
        forall|i: int| 0 <= i < hs.len() ==> !(#[trigger] hs[i]).is_final,
        said_spec(hs) is Some,
    ensures
        ({
            let (_after, run, sent) = run_all(
                s,
                r,
                heard_events(hs).push(RunEventView::HeardAll),
            );
            &&& run.phase == RunPhase::Answering
            &&& sent.len() == hs.len()
            &&& forall|i: int|
                0 <= i < hs.len() ==> (#[trigger] sent[i] matches PayloadView::AsrPartial {
                    session_id,
                    text,
                    is_final,
                    replace_last,
                } && session_id == r.session_id && is_final == hs[i].is_final && !replace_last && (
                !occurs(hs[i].text, tag_open()) ==> text == trim_spec(hs[i].text)))
        }),
{
    lemma_results_are_kept(s, r, hs);
    let es = heard_events(hs).push(RunEventView::HeardAll);
    assert(es.drop_last() =~= heard_events(hs));
    assert(r.heard + hs =~= hs);
    let sent = run_all(s, r, es).2;
    assert(sent =~= partials_spec(r.session_id, hs));
    assert forall|i: int| 0 <= i < hs.len() && !occurs(hs[i].text, tag_open()) implies parse_tags_spec(
        #[trigger] hs[i].text,
    ).0 == trim_spec(hs[i].text) by {
        law_untagged_text_is_kept(hs[i].text);
    }
}

/// What is answered is the last result that says anything: a result that says something counts
/// alone, whatever came before it, and an empty one changes nothing.
pub proof fn law_last_result_is_answered(v: Seq<HeardView>, h: HeardView)
    ensures
        h.text.len() > 0 ==> said_spec(v.push(h)) == said_spec(seq![h]),
        h.text.len() == 0 ==> said_spec(v.push(h)) == said_spec(v),
{
    assert(v.push(h).drop_last() =~= v);
}

/// Speech without tags is answered word for word, and tells no emotion.
pub proof fn law_plain_speech_is_answered(h: HeardView)
    requires
        !occurs(h.text, tag_open()),
    ensures
        trim_spec(h.text).len() > 0 ==> said_spec(seq![h]) == Some((trim_spec(h.text), None::<Seq<char>>)),
        trim_spec(h.text).len() == 0 ==> said_spec(seq![h]) is None,
{
    let v = seq![h];
    assert(v.last() == h);
    if h.text.len() == 0 {
        assert(v.drop_last() =~= Seq::<HeardView>::empty());
        assert(last_text(v.drop_last()) =~= Seq::<char>::empty());
        assert(last_text(v) =~= h.text);
    }
    let prompt = trim_spec(h.text);
    lemma_trim_has_no_more(h.text, tag_open());
    law_untagged_text_is_kept(prompt);
    lemma_trim_twice(h.text);
}

/// An utterance is handed on exactly when it is long enough and complete: the client says so, it
/// has gone on for too long, or it is too large. The reason tells which, the client first.
pub proof fn law_utterance_is_handed_on_when_complete(
    s: ConversationView,
    data: Seq<u8>,
    is_last: bool,
    seq: u32,
    ts: u64,
    now: u64,
    stamp: u64,
)
    requires
        !s.closed,
    ensures
        ({
            let (_after, action) = payload_step(
                s,
                PayloadView::AudioChunk { seq, timestamp_ms: ts, data, is_last },
                now,
                stamp,
            );
            let whole = s.audio.bytes + data;
            let began = if s.audio.bytes.len() == 0 {
                now
            } else {
                s.audio.started_at
            };
            let too_long = now - began >= MAX_UTTERANCE_MS;
            let too_large = whole.len() >= MAX_AUDIO_BYTES;
            &&& action is Process <==> whole.len() >= MIN_UTTERANCE_BYTES && (is_last || too_long
                || too_large)
            &&& action matches SessionActionView::Process(u) ==> u.ticket.id == stamp && u.ticket.epoch
                == s.epoch && !u.ticket.answering && (u.reason == TriggerReason::ClientIsLast
                <==> is_last) && (u.reason == TriggerReason::DurationCap <==> !is_last && too_long)
            &&& action is Process || action is Nothing
        }),
{
}

/// What the client asked for at the start holds until it asks for something else: an utterance is
/// handed on with the settings of the conversation, and no other message changes them.
pub proof fn law_settings_hold(s: ConversationView, p: PayloadView, now: u64, stamp: u64)
    requires
        !(p is SessionStart),
    ensures
        ({
            let (t, action) = payload_step(s, p, now, stamp);
            &&& t.session_id == s.session_id
            &&& t.sample_rate == s.sample_rate
            &&& t.channels == s.channels
            &&& t.tts_sample_rate == s.tts_sample_rate
            &&& t.voice == s.voice
            &&& action matches SessionActionView::Process(u) ==> u.sample_rate == s.sample_rate
                && u.channels == s.channels && u.tts_sample_rate == s.tts_sample_rate && u.voice
                == s.voice
        }),
{
}

/// The settings that a client asks for are the settings that it gets: a rate of speech that is not
/// 0, and a voice that is not blank, as they stand; the audio that already waits is kept.
pub proof fn law_start_takes_the_settings(s: ConversationView, p: PayloadView, now: u64, stamp: u64)
    requires
        !s.closed,
        p is SessionStart,
    ensures
        ({
            let (t, action) = payload_step(s, p, now, stamp);
            &&& t.sample_rate == p->SessionStart_sample_rate
            &&& t.channels == p->SessionStart_channels
            &&& t.tts_sample_rate matches Some(n) ==> n > 0 && p->SessionStart_tts_sample_rate
                == Some(n)
            &&& (p->SessionStart_tts_sample_rate matches Some(n) && n > 0)
                ==> t.tts_sample_rate is Some
            &&& t.voice matches Some(v) ==> trim_spec(v).len() > 0 && p->SessionStart_voice == Some(v)
            &&& (p->SessionStart_voice matches Some(v) && trim_spec(v).len() > 0) ==> t.voice is Some
            &&& t.audio == s.audio
            &&& t.epoch == s.epoch
            &&& t.answering == s.answering
            &&& action is Nothing
        }),
{
}

/// A failure of recognition ends the processing at once, and the client is told of it alone, in its
/// own words.
pub proof fn law_recognition_failure_is_told(s: ConversationView, r: RunView, message: Seq<char>)
    requires
        r.phase == RunPhase::Asking || r.phase == RunPhase::Hearing,
        !cancelled(s, r.ticket),
    ensures
        ({
            let (_after, run, step) = run_step(s, r, RunEventView::AsrFailed(message));
            &&& step.payloads.len() == 1
            &&& step.payloads[0] matches PayloadView::Error { message: m, .. } && m == message
            &&& step.action is Stop
            &&& run.phase == RunPhase::Over
        }),
{
}

/// An answer that is at its end leaves the conversation free for the next one, and says nothing.
pub proof fn law_finished_answer_makes_room(s: ConversationView, r: RunView)
    requires
        r.phase == RunPhase::Answering,
        r.ticket.answering,
        !cancelled(s, r.ticket),
    ensures
        ({
            let (after, run, step) = run_step(s, r, RunEventView::ItemsEnded);
            &&& after.answering is None
            &&& run.phase == RunPhase::Over
            &&& step.payloads.len() == 0
            &&& step.action is Stop
            &&& step.cancels is None
        }),
{
}

/// An interruption is told to the client as the end of the answer, and leaves the audio and the
/// settings of the conversation alone.
pub proof fn law_interrupt_is_told(s: ConversationView, now: u64, stamp: u64)
    requires
        !s.closed,
    ensures
        ({
            let (t, action) = payload_step(s, PayloadView::Interrupt, now, stamp);
            &&& action matches SessionActionView::Interrupted(
                PayloadView::LlmDelta { session_id, is_final, .. },
            ) && session_id == s.session_id && is_final
            &&& t.audio == s.audio
            &&& t.answering is None
            &&& t.state == SessionState::Listening
            &&& !t.closed
        }),
{
}

/// What is said of a failure of recognition ends with the words of the failure itself.
pub proof fn law_recognition_failure_is_named(f: AsrFailure)
    ensures
        f matches AsrFailure::Call(e) ==> error_text(e).is_suffix_of(failure_text(f)),
        f matches AsrFailure::Stream(e) ==> error_text(e).is_suffix_of(failure_text(f)),
        failure_text(f).len() > 0,
{
    let t = failure_text(f);
    reveal_strlit("asr error: ");
    reveal_strlit("asr stream: ");
    reveal_strlit("asr timeout after ");
    match f {
        AsrFailure::Call(e) => {
            let m = error_text(e);
            assert(t.subrange(t.len() - m.len(), t.len() as int) =~= m);
        },
        AsrFailure::Stream(e) => {
            let m = error_text(e);
            assert(t.subrange(t.len() - m.len(), t.len() as int) =~= m);
        },
        _ => {},
    }
}

/// A conversation listens from the first sound on, and listens again as soon as an utterance was
/// handed on.
pub proof fn law_conversation_listens(
    s: ConversationView,
    data: Seq<u8>,
    is_last: bool,
    seq: u32,
    ts: u64,
    now: u64,
    stamp: u64,
)
    requires
        !s.closed,
    ensures
        ({
            let (t, action) = payload_step(
                s,
                PayloadView::AudioChunk { seq, timestamp_ms: ts, data, is_last },
                now,
                stamp,
            );
            &&& t.state != SessionState::Idle
            &&& action is Process ==> t.state == SessionState::Listening
            &&& s.state == SessionState::Idle ==> t.state == SessionState::Listening
        }),
{
}

} // verus!

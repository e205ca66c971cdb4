//! What holds of the speaking of a whole answer, from the first piece of text to the last byte of
//! audio.

use vstd::prelude::*;

use crate::codec::base64_text;
use crate::crossfade::{
    begin_spec, end_spec, faded, faded_stream, fader_wf, feed_spec, finish_spec, law_feed_splits,
    law_single_sentence_is_unchanged, FaderState,
};
use crate::llm_tts::{
    after_piece, complete, ends_with_failure, ends_with_mark, fail, next_piece, next_request,
    next_sentence, on_audio, on_llm, pipe_start, pipe_step, sentence_over, tail, tail_request,
    ActionView, PipeEventView, PipeOut, PipePhase, PipeState,
};
use crate::pipeline::{
    audio_begin, audio_end, audio_feed, audio_feed_all, audio_finish, audio_sentence, emit_spec,
    AudioState, ItemView,
};
use crate::sentence::{
    complete_sentences, ends_sentence, lemma_sentence_len_bounds, sentence_len, sentence_len_from,
    unfinished_sentence,
};
use crate::speech::{push_spec, trimmed_text, tts_text_spec};
use crate::text::{blank, lemma_trim_blank, trim_spec, white_space};

verus! {

/// Everything that has happened to a pipeline so far.
pub ghost struct Told {
    pub state: PipeState,
    /// The pieces of the answer, joined.
    pub answer: Seq<char>,
    /// The texts that were to be spoken, joined.
    pub asked: Seq<char>,
    /// The pieces of the answer as they can be spoken, joined.
    pub cleaned: Seq<char>,
    /// The texts that were sent, joined.
    pub sent: Seq<char>,
    /// Those of them that were sent since the service was last told to speak.
    pub unspoken: Seq<char>,
    /// The audio of the sentences that were spoken.
    pub spoken: Seq<Seq<u8>>,
    /// The audio of the sentence that is being spoken.
    pub voice: Seq<u8>,
    /// Everything that was passed on.
    pub items: Seq<ItemView>,
    pub failed: bool,
}

/// The audio pieces joined.
pub open spec fn join_bytes(datas: Seq<Seq<u8>>) -> Seq<u8>
    decreases datas.len(),
{
    if datas.len() == 0 {
        Seq::empty()
    } else {
        join_bytes(datas.drop_last()) + datas.last()
    }
}

/// Audio is coming in sentence by sentence.
pub open spec fn reading(phase: PipePhase) -> bool {
    phase == PipePhase::Reading || phase == PipePhase::ReadingTail
}

/// The audio of the sentence that is being spoken, with what an event adds to it.
pub open spec fn voice_after(t: Told, e: PipeEventView) -> Seq<u8> {
    match e {
        PipeEventView::Audio { data, .. } => if reading(t.state.phase) {
            t.voice + data
        } else {
            t.voice
        },
        _ => t.voice,
    }
}

/// An event ends the sentence that is being spoken.
pub open spec fn ends_voice(t: Told, e: PipeEventView) -> bool {
    match e {
        PipeEventView::Audio { is_last, .. } => reading(t.state.phase) && is_last,
        PipeEventView::TtsEnded => reading(t.state.phase),
        PipeEventView::TtsStreamFailed(_) => t.state.phase == PipePhase::ReadingTail,
        _ => false,
    }
}

/// What happens next.
pub open spec fn tell(t: Told, e: PipeEventView) -> Told {
    let out = pipe_step(t.state, e);
    let waiting = t.state.phase == PipePhase::Llm;
    let flushing = t.state.phase == PipePhase::Flushing || t.state.phase == PipePhase::FlushingTail;
    Told {
        state: out.state,
        answer: t.answer + (match e {
            PipeEventView::Llm { delta, .. } => if waiting {
                delta
            } else {
                Seq::empty()
            },
            _ => Seq::empty(),
        }),
        asked: t.asked + (match out.action {
            ActionView::Synthesize(text) => text,
            _ => Seq::empty(),
        }),
        cleaned: t.cleaned + (match e {
            PipeEventView::Llm { cleaned, .. } => if waiting {
                cleaned
            } else {
                Seq::empty()
            },
            _ => Seq::empty(),
        }),
        sent: t.sent + (match out.action {
            ActionView::SendText(text) => text,
            _ => Seq::empty(),
        }),
        unspoken: match out.action {
            ActionView::SendText(text) => t.unspoken + text,
            ActionView::Flush => Seq::empty(),
            _ => t.unspoken,
        },
        spoken: if ends_voice(t, e) {
            t.spoken.push(voice_after(t, e))
        } else {
            match e {
                PipeEventView::Flushed(datas) => if flushing {
                    t.spoken.push(join_bytes(datas))
                } else {
                    t.spoken
                },
                _ => t.spoken,
            }
        },
        voice: if ends_voice(t, e) {
            Seq::empty()
        } else {
            voice_after(t, e)
        },
        items: t.items + out.items,
        failed: t.failed || ends_with_failure(out.items),
    }
}

/// The beginning.
pub open spec fn untold(incremental: bool) -> Told {
    Told {
        state: pipe_start(incremental),
        answer: Seq::empty(),
        asked: Seq::empty(),
        cleaned: Seq::empty(),
        sent: Seq::empty(),
        unspoken: Seq::empty(),
        spoken: Seq::empty(),
        voice: Seq::empty(),
        items: Seq::empty(),
        failed: false,
    }
}

/// Everything that has happened after some events.
pub open spec fn tell_all(incremental: bool, es: Seq<PipeEventView>) -> Told
    decreases es.len(),
{
    if es.len() == 0 {
        untold(incremental)
    } else {
        tell(tell_all(incremental, es.drop_last()), es.last())
    }
}

// ---- whole sentences ----

/// What is spoken of sentences.
pub open spec fn said_of(sentences: Seq<Seq<char>>) -> Seq<char> {
    trimmed_text(Seq::new(sentences.len(), |i: int| tts_text_spec(sentences[i])))
}

/// What is spoken of the complete sentences of an answer.
pub open spec fn said_sentences(answer: Seq<char>) -> Seq<char> {
    said_of(complete_sentences(answer))
}

/// What is spoken of the end of an answer that has no mark behind it.
pub open spec fn said_rest(answer: Seq<char>) -> Seq<char> {
    trim_spec(tts_text_spec(trim_spec(unfinished_sentence(answer))))
}

proof fn lemma_said_concat(a: Seq<Seq<char>>, b: Seq<Seq<char>>)
    ensures
        said_of(a + b) == said_of(a) + said_of(b),
    decreases b.len(),
{
    let f = |s: Seq<Seq<char>>| Seq::new(s.len(), |i: int| tts_text_spec(s[i]));
    if b.len() == 0 {
        assert(a + b =~= a);
        assert(said_of(b) =~= Seq::<char>::empty());
        assert(said_of(a) + said_of(b) =~= said_of(a));
    } else {
        lemma_said_concat(a, b.drop_last());
        assert((a + b).drop_last() =~= a + b.drop_last());
        assert(f(a + b).drop_last() =~= f(a + b.drop_last()));
        assert(f(b).drop_last() =~= f(b.drop_last()));
        assert(f(a + b).last() == f(b).last());
        assert(said_of(a + b) == said_of(a + b.drop_last()) + trim_spec(f(b).last()));
        assert(said_of(b) == said_of(b.drop_last()) + trim_spec(f(b).last()));
        assert(said_of(a) + said_of(b.drop_last()) + trim_spec(f(b).last()) =~= said_of(a) + (said_of(
            b.drop_last(),
        ) + trim_spec(f(b).last())));
    }
}

proof fn lemma_said_one(x: Seq<char>)
    ensures
        said_of(seq![x]) == trim_spec(tts_text_spec(x)),
{
    let v = Seq::new(seq![x].len(), |i: int| tts_text_spec(seq![x][i]));
    assert(v.drop_last() =~= Seq::<Seq<char>>::empty());
    assert(v.last() == tts_text_spec(x));
    assert(trimmed_text(v.drop_last()) =~= Seq::<char>::empty());
    assert(Seq::<char>::empty() + trim_spec(tts_text_spec(x)) =~= trim_spec(tts_text_spec(x)));
}

proof fn lemma_len_stays(a: Seq<char>, b: Seq<char>, from: int)
    requires
        0 <= from,
        sentence_len_from(a, from) is Some,
    ensures
        sentence_len_from(a + b, from) == sentence_len_from(a, from),
    decreases a.len() - from,
{
    if from < a.len() {
        assert((a + b)[from] == a[from]);
        if !ends_sentence(a[from]) {
            lemma_len_stays(a, b, from + 1);
        }
    }
}

/// More text changes no sentence that is complete: it goes on where the last one ended.
pub proof fn law_sentences_stay_complete(a: Seq<char>, b: Seq<char>)
    ensures
        complete_sentences(a + b) == complete_sentences(a) + complete_sentences(
            unfinished_sentence(a) + b,
        ),
        unfinished_sentence(a + b) == unfinished_sentence(unfinished_sentence(a) + b),
    decreases a.len(),
{
    lemma_sentence_len_bounds(a, 0);
    match sentence_len(a) {
        Some(n) => {
            lemma_len_stays(a, b, 0);
            law_sentences_stay_complete(a.skip(n), b);
            assert((a + b).take(n) =~= a.take(n));
            assert((a + b).skip(n) =~= a.skip(n) + b);
            let rest = unfinished_sentence(a) + b;
            assert(seq![a.take(n)] + (complete_sentences(a.skip(n)) + complete_sentences(rest)) =~= (
            seq![a.take(n)] + complete_sentences(a.skip(n))) + complete_sentences(rest));
        },
        None => {
            assert(complete_sentences(a) + complete_sentences(a + b) =~= complete_sentences(a + b));
        },
    }
}

/// The text of a request, where there is one.
pub open spec fn text_of(request: Option<Seq<char>>) -> Seq<char> {
    match request {
        Some(r) => r,
        None => Seq::empty(),
    }
}

proof fn lemma_push_keeps(pending: Seq<char>, sentence: Seq<char>)
    ensures
        ({
            let (left, handed) = push_spec(pending, sentence);
            text_of(handed) + left == pending + trim_spec(sentence)
        }),
{
    let (left, handed) = push_spec(pending, sentence);
    assert(text_of(handed) + left =~= pending + trim_spec(sentence));
}

/// Looking for something to speak loses no sentence.
proof fn lemma_next_request_keeps(buf: Seq<char>, short: Seq<char>)
    ensures
        ({
            let (left, waiting, request) = next_request(buf, short);
            &&& text_of(request) + waiting + said_sentences(left) == short + said_sentences(buf)
            &&& unfinished_sentence(left) == unfinished_sentence(buf)
            &&& request is None ==> sentence_len(left) is None
        }),
    decreases buf.len(),
{
    lemma_sentence_len_bounds(buf, 0);
    let (left, waiting, request) = next_request(buf, short);
    match sentence_len(buf) {
        None => {
            assert(text_of(request) + waiting + said_sentences(left) =~= short + said_sentences(buf));
        },
        Some(n) => {
            let first = buf.take(n);
            let rest = buf.skip(n);
            lemma_said_concat(seq![first], complete_sentences(rest));
            lemma_said_one(first);
            let text = trim_spec(tts_text_spec(first));
            assert(said_sentences(buf) == text + said_sentences(rest));
            lemma_push_keeps(short, tts_text_spec(first));
            let (w, handed) = push_spec(short, tts_text_spec(first));
            assert(text_of(handed) + w + said_sentences(rest) =~= short + said_sentences(buf)) by {
                assert(short + text + said_sentences(rest) =~= short + (text + said_sentences(rest)));
            }
            if handed is None {
                lemma_next_request_keeps(rest, w);
                assert(Seq::<char>::empty() + w =~= w);
            }
        },
    }
}

proof fn lemma_tail_request_keeps(buf: Seq<char>, short: Seq<char>)
    ensures
        text_of(tail_request(buf, short)) == short + trim_spec(tts_text_spec(trim_spec(buf))),
{
    let text = tts_text_spec(trim_spec(buf));
    lemma_push_keeps(short, text);
    let (waiting, request) = push_spec(short, text);
    assert(Seq::<char>::empty() + waiting =~= waiting);
    if request is Some {
        assert(text_of(request) + waiting =~= text_of(request));
    }
}

/// All that is spoken of an answer.
pub open spec fn said_answer(answer: Seq<char>) -> Seq<char> {
    said_sentences(answer) + said_rest(answer)
}

/// What was asked for and what still waits are together what is to be spoken.
pub open spec fn on_course(s: PipeState, answer: Seq<char>, asked: Seq<char>, failed: bool) -> bool {
    &&& !s.incremental
    &&& match s.phase {
        PipePhase::Llm | PipePhase::Asking | PipePhase::Reading => {
            &&& asked + s.short + said_sentences(s.buf) == said_sentences(answer)
            &&& unfinished_sentence(s.buf) == unfinished_sentence(answer)
            &&& s.phase == PipePhase::Llm ==> sentence_len(s.buf) is None
        },
        PipePhase::AskingTail | PipePhase::ReadingTail => asked == said_answer(answer),
        PipePhase::Done => failed || asked == said_answer(answer),
        _ => false,
    }
}

/// The text that a step asks for.
pub open spec fn asked_by(action: ActionView) -> Seq<char> {
    match action {
        ActionView::Synthesize(text) => text,
        _ => Seq::empty(),
    }
}

/// A step keeps the course.
pub open spec fn keeps_course(out: PipeOut, answer: Seq<char>, asked: Seq<char>) -> bool {
    on_course(out.state, answer, asked + asked_by(out.action), ends_with_failure(out.items))
}

proof fn lemma_complete_course(s: PipeState, items: Seq<ItemView>, answer: Seq<char>, asked: Seq<char>)
    requires
        !s.incremental,
        asked == said_answer(answer),
    ensures
        keeps_course(complete(s, items), answer, asked),
{
    reveal(complete);
    assert(asked + Seq::<char>::empty() =~= asked);
}

proof fn lemma_fail_course(
    s: PipeState,
    items: Seq<ItemView>,
    error: Seq<char>,
    code: u16,
    answer: Seq<char>,
    asked: Seq<char>,
)
    requires
        !s.incremental,
    ensures
        keeps_course(fail(s, items, error, code), answer, asked),
{
    reveal(fail);
}

proof fn lemma_tail_course(s: PipeState, items: Seq<ItemView>, answer: Seq<char>, asked: Seq<char>)
    requires
        !s.incremental,
        sentence_len(s.buf) is None,
        asked + s.short == said_sentences(answer),
        s.buf == unfinished_sentence(answer),
    ensures
        keeps_course(tail(s, items), answer, asked),
        keeps_course(after_piece(s, items), answer, asked),
{
    reveal(tail);
    reveal(after_piece);
    lemma_tail_request_keeps(s.buf, s.short);
    let text = text_of(tail_request(s.buf, s.short));
    assert(asked + text =~= said_answer(answer)) by {
        assert(asked + (s.short + said_rest(answer)) =~= asked + s.short + said_rest(answer));
    }
    let t = PipeState { short: Seq::empty(), ..s };
    if tail_request(s.buf, s.short) is None {
        assert(asked + text =~= asked);
        lemma_complete_course(t, items, answer, asked);
    }
    if !s.final_seen {
        assert(said_sentences(s.buf) =~= Seq::<char>::empty());
        assert(asked + Seq::<char>::empty() + s.short + said_sentences(s.buf) =~= asked + s.short);
    }
}

proof fn lemma_next_course(s: PipeState, items: Seq<ItemView>, answer: Seq<char>, asked: Seq<char>)
    requires
        !s.incremental,
        asked + s.short + said_sentences(s.buf) == said_sentences(answer),
        unfinished_sentence(s.buf) == unfinished_sentence(answer),
    ensures
        keeps_course(next_sentence(s, items), answer, asked),
{
    reveal(next_sentence);
    lemma_next_request_keeps(s.buf, s.short);
    let (buf, short, request) = next_request(s.buf, s.short);
    let text = text_of(request);
    assert(asked + text + short + said_sentences(buf) =~= asked + s.short + said_sentences(s.buf)) by {
        assert(asked + (text + short + said_sentences(buf)) =~= asked + text + short + said_sentences(
            buf,
        ));
        assert(asked + (s.short + said_sentences(s.buf)) =~= asked + s.short + said_sentences(s.buf));
    }
    if request is None {
        assert(said_sentences(buf) =~= Seq::<char>::empty());
        assert(asked + text + short + said_sentences(buf) =~= asked + short);
        lemma_tail_course(PipeState { buf, short, ..s }, items, answer, asked);
    }
}

proof fn lemma_over_course(s: PipeState, items: Seq<ItemView>, answer: Seq<char>, asked: Seq<char>)
    requires
        on_course(s, answer, asked, false),
        reading(s.phase),
    ensures
        keeps_course(sentence_over(s, items), answer, asked),
{
    reveal(sentence_over);
    let (audio, more) = audio_end(s.audio);
    let t = PipeState { audio, ..s };
    if s.phase == PipePhase::Reading {
        lemma_next_course(t, items + more, answer, asked);
    } else {
        lemma_complete_course(t, items + more, answer, asked);
    }
}

proof fn lemma_audio_course(
    s: PipeState,
    data: Seq<u8>,
    is_last: bool,
    answer: Seq<char>,
    asked: Seq<char>,
)
    requires
        on_course(s, answer, asked, false),
        reading(s.phase),
    ensures
        keeps_course(on_audio(s, data, is_last), answer, asked),
{
    reveal(on_audio);
    let (audio, items) = audio_feed(s.audio, data);
    assert(asked + Seq::<char>::empty() =~= asked);
    lemma_over_course(PipeState { audio, ..s }, items, answer, asked);
}

/// A step keeps the course of the answer with the piece that came.
proof fn lemma_step_course(t: Told, e: PipeEventView)
    requires
        on_course(t.state, t.answer, t.asked, t.failed),
    ensures
        on_course(tell(t, e).state, tell(t, e).answer, tell(t, e).asked, tell(t, e).failed),
{
    let s = t.state;
    let next = tell(t, e);
    let out = pipe_step(s, e);
    let none = Seq::<ItemView>::empty();
    assert(t.asked + Seq::<char>::empty() =~= t.asked);
    assert(t.answer + Seq::<char>::empty() =~= t.answer);
    match (s.phase, e) {
        (PipePhase::Llm, PipeEventView::Llm { delta, is_final, cleaned }) => {
            reveal(on_llm);
            let answer = t.answer + delta;
            let v = PipeState { final_seen: is_final, buf: s.buf + delta, ..s };
            law_sentences_stay_complete(t.answer, delta);
            law_sentences_stay_complete(s.buf, delta);
            lemma_said_concat(
                complete_sentences(t.answer),
                complete_sentences(unfinished_sentence(t.answer) + delta),
            );
            assert(unfinished_sentence(s.buf) == s.buf);
            assert(said_sentences(s.buf) =~= Seq::<char>::empty());
            assert(t.asked + s.short + said_sentences(s.buf) =~= t.asked + s.short);
            assert(t.asked + s.short + said_sentences(v.buf) == said_sentences(answer));
            lemma_next_course(v, seq![ItemView::Llm { delta, is_final }], answer, t.asked);
        },
        (PipePhase::Llm, PipeEventView::LlmCallFailed(m)) => {
            lemma_fail_course(s, none, "llm error: "@ + m, 1002, t.answer, t.asked);
        },
        (PipePhase::Llm, PipeEventView::LlmStreamFailed(m)) => {
            lemma_fail_course(s, none, "llm stream: "@ + m, 1003, t.answer, t.asked);
        },
        (PipePhase::Llm, PipeEventView::LlmEnded) => {
            assert(said_sentences(s.buf) =~= Seq::<char>::empty());
            assert(t.asked + s.short + said_sentences(s.buf) =~= t.asked + s.short);
            lemma_tail_course(s, none, t.answer, t.asked);
        },
        (PipePhase::Asking, PipeEventView::TtsCallFailed(m)) => {
            lemma_fail_course(s, none, "tts error: "@ + m, 1004, t.answer, t.asked);
        },
        (PipePhase::AskingTail, PipeEventView::TtsCallFailed(_)) => {
            lemma_complete_course(s, none, t.answer, t.asked);
        },
        (PipePhase::Reading, PipeEventView::Audio { data, is_last }) => {
            lemma_audio_course(s, data, is_last, t.answer, t.asked);
        },
        (PipePhase::ReadingTail, PipeEventView::Audio { data, is_last }) => {
            lemma_audio_course(s, data, is_last, t.answer, t.asked);
        },
        (PipePhase::Reading, PipeEventView::TtsStreamFailed(m)) => {
            lemma_fail_course(s, none, "tts stream: "@ + m, 1005, t.answer, t.asked);
        },
        (PipePhase::ReadingTail, PipeEventView::TtsStreamFailed(_)) => {
            lemma_over_course(s, none, t.answer, t.asked);
        },
        (PipePhase::Reading, PipeEventView::TtsEnded) => {
            lemma_over_course(s, none, t.answer, t.asked);
        },
        (PipePhase::ReadingTail, PipeEventView::TtsEnded) => {
            lemma_over_course(s, none, t.answer, t.asked);
        },
        _ => {},
    }
}

proof fn lemma_run_course(es: Seq<PipeEventView>)
    ensures
        ({
            let t = tell_all(false, es);
            on_course(t.state, t.answer, t.asked, t.failed)
        }),
    decreases es.len(),
{
    if es.len() == 0 {
        let t = untold(false);
        assert(said_sentences(t.answer) =~= Seq::<char>::empty());
        assert(t.asked + t.state.short + said_sentences(t.state.buf) =~= Seq::<char>::empty());
    } else {
        lemma_run_course(es.drop_last());
        lemma_step_course(tell_all(false, es.drop_last()), es.last());
    }
}

/// Nothing of an answer goes unspoken. Whatever happens in whatever order, once the last text was
/// asked for, or the pipeline is done and did not fail, the texts that it asked to be spoken are,
/// joined, what is spoken of every complete sentence of the answer and of what is left behind the
/// last mark.
pub proof fn law_whole_answer_is_spoken(es: Seq<PipeEventView>)
    requires
        ({
            let t = tell_all(false, es);
            ||| t.state.phase == PipePhase::AskingTail
            ||| t.state.phase == PipePhase::ReadingTail
            ||| (t.state.phase == PipePhase::Done && !t.failed)
        }),
    ensures
        ({
            let t = tell_all(false, es);
            t.asked == said_sentences(t.answer) + said_rest(t.answer)
        }),
{
    lemma_run_course(es);
}

/// While the answer comes in nothing is spoken twice, early or out of order: what was asked for
/// begins what is spoken of the sentences that are complete.
pub proof fn law_sentences_are_spoken_in_order(es: Seq<PipeEventView>)
    requires
        ({
            let t = tell_all(false, es);
            t.state.phase == PipePhase::Llm || t.state.phase == PipePhase::Asking || t.state.phase
                == PipePhase::Reading
        }),
    ensures
        ({
            let t = tell_all(false, es);
            t.asked.is_prefix_of(said_sentences(t.answer))
        }),
{
    lemma_run_course(es);
    let t = tell_all(false, es);
    let whole = said_sentences(t.answer);
    assert(t.asked =~= whole.take(t.asked.len() as int));
}

/// The rest of an answer that has no mark behind it is spoken last: where it says anything, the
/// step that ends the answer asks for a text that ends with it.
pub proof fn law_rest_is_spoken_last(s: PipeState, items: Seq<ItemView>)
    requires
        !s.incremental,
        sentence_len(s.buf) is None,
    ensures
        ({
            let rest = said_rest(s.buf);
            rest.len() > 0 ==> (tail(s, items).action matches ActionView::Synthesize(text) && text
                == s.short + rest && tail(s, items).state.phase == PipePhase::AskingTail)
        }),
{
    reveal(tail);
    lemma_tail_request_keeps(s.buf, s.short);
}

// ---- text piece by piece ----

/// A text without its white space.
pub open spec fn visible(s: Seq<char>) -> Seq<char>
    decreases s.len(),
{
    if s.len() == 0 {
        Seq::empty()
    } else if white_space(s.last()) {
        visible(s.drop_last())
    } else {
        visible(s.drop_last()).push(s.last())
    }
}

proof fn lemma_visible_concat(a: Seq<char>, b: Seq<char>)
    ensures
        visible(a + b) == visible(a) + visible(b),
    decreases b.len(),
{
    if b.len() == 0 {
        assert(a + b =~= a);
        assert(visible(a) + visible(b) =~= visible(a));
    } else {
        lemma_visible_concat(a, b.drop_last());
        assert((a + b).drop_last() =~= a + b.drop_last());
        assert((a + b).last() == b.last());
        assert((visible(a) + visible(b.drop_last())).push(b.last()) =~= visible(a) + visible(
            b.drop_last(),
        ).push(b.last()));
    }
}

proof fn lemma_visible_blank(s: Seq<char>)
    requires
        blank(s),
    ensures
        visible(s).len() == 0,
    decreases s.len(),
{
    if s.len() > 0 {
        assert(white_space(s[s.len() - 1]));
        assert forall|i: int| 0 <= i < s.drop_last().len() implies white_space(
            #[trigger] s.drop_last()[i],
        ) by {
            assert(white_space(s[i]));
        }
        lemma_visible_blank(s.drop_last());
    }
}

/// What was sent and what is still to be sent are together what was to be spoken, and the state
/// knows what the service has not been told to speak.
pub open spec fn on_wire(
    s: PipeState,
    cleaned: Seq<char>,
    sent: Seq<char>,
    unspoken: Seq<char>,
    failed: bool,
) -> bool {
    &&& s.incremental
    &&& s.phase == PipePhase::Done || visible(sent) + visible(s.rest) == visible(cleaned)
    &&& match s.phase {
        PipePhase::Llm => unspoken == s.buf && s.rest.len() == 0,
        PipePhase::Sending => unspoken == s.buf + s.piece && (!s.completes ==> s.rest.len() == 0),
        PipePhase::Flushing => unspoken.len() == 0 && s.buf.len() == 0,
        PipePhase::FlushingTail => unspoken.len() == 0 && s.rest.len() == 0,
        PipePhase::Ending => blank(unspoken) && s.rest.len() == 0,
        PipePhase::Done => failed || (blank(unspoken) && visible(sent) == visible(cleaned)),
        _ => false,
    }
}

/// The text that a step sends.
pub open spec fn sent_by(action: ActionView) -> Seq<char> {
    match action {
        ActionView::SendText(text) => text,
        _ => Seq::empty(),
    }
}

/// What is unspoken after a step.
pub open spec fn unspoken_after(action: ActionView, unspoken: Seq<char>) -> Seq<char> {
    match action {
        ActionView::SendText(text) => unspoken + text,
        ActionView::Flush => Seq::empty(),
        _ => unspoken,
    }
}

pub open spec fn keeps_wire(
    out: PipeOut,
    cleaned: Seq<char>,
    sent: Seq<char>,
    unspoken: Seq<char>,
) -> bool {
    on_wire(
        out.state,
        cleaned,
        sent + sent_by(out.action),
        unspoken_after(out.action, unspoken),
        ends_with_failure(out.items),
    )
}

proof fn lemma_after_piece_wire(
    s: PipeState,
    items: Seq<ItemView>,
    cleaned: Seq<char>,
    sent: Seq<char>,
    unspoken: Seq<char>,
)
    requires
        s.incremental,
        s.rest.len() == 0,
        unspoken == s.buf,
        visible(sent) == visible(cleaned),
    ensures
        keeps_wire(after_piece(s, items), cleaned, sent, unspoken),
        keeps_wire(tail(s, items), cleaned, sent, unspoken),
{
    reveal(after_piece);
    reveal(tail);
    lemma_trim_blank(s.buf);
    assert(sent + Seq::<char>::empty() =~= sent);
    assert(visible(s.rest) =~= Seq::<char>::empty());
    assert(visible(sent) + visible(s.rest) =~= visible(cleaned));
}

proof fn lemma_next_piece_wire(
    s: PipeState,
    items: Seq<ItemView>,
    cleaned: Seq<char>,
    sent: Seq<char>,
    unspoken: Seq<char>,
)
    requires
        s.incremental,
        unspoken == s.buf,
        visible(sent) + visible(s.rest) == visible(cleaned),
    ensures
        keeps_wire(next_piece(s, items), cleaned, sent, unspoken),
{
    reveal(next_piece);
    if s.rest.len() == 0 {
        assert(visible(sent) + visible(s.rest) =~= visible(sent));
        lemma_after_piece_wire(s, items, cleaned, sent, unspoken);
    } else {
        lemma_sentence_len_bounds(s.rest, 0);
        let n = match sentence_len(s.rest) {
            Some(n) => n,
            None => s.rest.len() as int,
        };
        let piece = s.rest.take(n);
        let rest = s.rest.skip(n);
        assert(s.rest =~= piece + rest);
        lemma_visible_concat(piece, rest);
        lemma_visible_concat(sent, piece);
        assert(visible(sent) + visible(piece) + visible(rest) =~= visible(sent) + (visible(piece)
            + visible(rest)));
        if sentence_len(s.rest) is None {
            assert(piece =~= s.rest);
            assert(rest =~= Seq::<char>::empty());
        }
    }
}

proof fn lemma_step_wire(t: Told, e: PipeEventView)
    requires
        on_wire(t.state, t.cleaned, t.sent, t.unspoken, t.failed),
    ensures
        ({
            let u = tell(t, e);
            on_wire(u.state, u.cleaned, u.sent, u.unspoken, u.failed)
        }),
{
    let s = t.state;
    let none = Seq::<ItemView>::empty();
    assert(t.sent + Seq::<char>::empty() =~= t.sent);
    assert(t.cleaned + Seq::<char>::empty() =~= t.cleaned);
    reveal(fail);
    reveal(complete);
    if s.rest.len() == 0 {
        assert(visible(s.rest) =~= Seq::<char>::empty());
        assert(visible(t.sent) + visible(s.rest) =~= visible(t.sent));
    }
    match (s.phase, e) {
        (PipePhase::Llm, PipeEventView::Llm { delta, is_final, cleaned }) => {
            reveal(on_llm);
            let items = seq![ItemView::Llm { delta, is_final }];
            let v = PipeState { final_seen: is_final, ..s };
            let all = t.cleaned + cleaned;
            lemma_visible_concat(t.cleaned, cleaned);
            if cleaned.len() > 0 && (trim_spec(cleaned).len() > 0 || trim_spec(s.buf).len() > 0) {
                lemma_next_piece_wire(
                    PipeState { rest: cleaned, ..v },
                    items,
                    all,
                    t.sent,
                    t.unspoken,
                );
            } else {
                lemma_trim_blank(cleaned);
                assert(blank(cleaned));
                lemma_visible_blank(cleaned);
                assert(visible(t.cleaned) + visible(cleaned) =~= visible(t.cleaned));
                lemma_after_piece_wire(v, items, all, t.sent, t.unspoken);
            }
        },
        (PipePhase::Llm, PipeEventView::LlmEnded) => {
            lemma_after_piece_wire(s, none, t.cleaned, t.sent, t.unspoken);
        },
        (PipePhase::Sending, PipeEventView::TextSent) => {
            if !s.completes {
                let v = PipeState { buf: s.buf + s.piece, piece: Seq::empty(), ..s };
                lemma_after_piece_wire(v, none, t.cleaned, t.sent, t.unspoken);
            }
        },
        (PipePhase::Flushing, PipeEventView::Flushed(datas)) => {
            let (audio, items) = audio_sentence(s.audio, datas);
            assert(t.unspoken =~= s.buf);
            lemma_next_piece_wire(
                PipeState { audio, ..s },
                items,
                t.cleaned,
                t.sent,
                t.unspoken,
            );
        },
        _ => {},
    }
}

proof fn lemma_run_wire(es: Seq<PipeEventView>)
    ensures
        ({
            let t = tell_all(true, es);
            on_wire(t.state, t.cleaned, t.sent, t.unspoken, t.failed)
        }),
    decreases es.len(),
{
    if es.len() > 0 {
        lemma_run_wire(es.drop_last());
        lemma_step_wire(tell_all(true, es.drop_last()), es.last());
    } else {
        let none = Seq::<char>::empty();
        assert(visible(none) + visible(none) =~= visible(none));
    }
}

/// A service that takes text piece by piece gets the whole answer: once the session is being
/// ended, or was ended without a failure, the texts that were sent are, joined, what there is to
/// speak, but for white space that nothing was spoken before; and nothing that was sent is left
/// for which the service was not told to speak.
pub proof fn law_whole_answer_is_sent(es: Seq<PipeEventView>)
    requires
        ({
            let t = tell_all(true, es);
            t.state.phase == PipePhase::Ending || (t.state.phase == PipePhase::Done && !t.failed)
        }),
    ensures
        ({
            let t = tell_all(true, es);
            visible(t.sent) == visible(t.cleaned) && blank(t.unspoken)
        }),
{
    lemma_run_wire(es);
    let t = tell_all(true, es);
    if t.state.phase == PipePhase::Ending {
        assert(visible(t.state.rest) =~= Seq::<char>::empty());
        assert(visible(t.sent) + visible(t.state.rest) =~= visible(t.sent));
    }
}

// ---- audio ----

/// The audio that some items carry, piece by piece: `pcm` is cut into as many parts as there are
/// pieces of audio, and each piece stands for its part.
pub open spec fn carries(items: Seq<ItemView>, pcm: Seq<u8>) -> bool
    decreases items.len(),
{
    if items.len() == 0 {
        pcm.len() == 0
    } else {
        match items.last() {
            ItemView::Tts { audio, is_last, .. } => if is_last {
                carries(items.drop_last(), pcm)
            } else {
                exists|k: int|
                    #![trigger pcm.take(k)]
                    0 <= k <= pcm.len() && audio == base64_text(pcm.skip(k)) && carries(
                        items.drop_last(),
                        pcm.take(k),
                    )
            },
            _ => carries(items.drop_last(), pcm),
        }
    }
}

pub proof fn lemma_carries_emitted(items: Seq<ItemView>, pcm: Seq<u8>, seq: u32, more: Seq<u8>)
    requires
        carries(items, pcm),
    ensures
        carries(items + emit_spec(seq, more).1, pcm + more),
{
    let out = emit_spec(seq, more).1;
    let all = items + out;
    let whole = pcm + more;
    if more.len() == 0 {
        assert(all =~= items);
        assert(whole =~= pcm);
    } else {
        assert(all.drop_last() =~= items);
        assert(all.last() == out[0]);
        let k = pcm.len() as int;
        assert(whole.take(k) =~= pcm);
        assert(whole.skip(k) =~= more);
    }
}

pub proof fn lemma_carries_other(items: Seq<ItemView>, pcm: Seq<u8>, item: ItemView)
    requires
        carries(items, pcm),
        item is Tts ==> item->is_last,
    ensures
        carries(items.push(item), pcm),
{
    assert(items.push(item).drop_last() =~= items);
}

pub proof fn lemma_fader_stays_wf(s: FaderState, x: Seq<u8>)
    requires
        fader_wf(s),
    ensures
        fader_wf(begin_spec(s)),
        fader_wf(feed_spec(s, x).0),
        fader_wf(end_spec(s).0),
        fader_wf(finish_spec(s).0),
{
}

pub proof fn lemma_feed_nothing(s: FaderState)
    requires
        fader_wf(s),
    ensures
        feed_spec(s, Seq::empty()) == (s, Seq::<u8>::empty()),
{
    let none = Seq::<u8>::empty();
    if s.head_done {
        let pool = s.hold + none;
        assert(pool =~= s.hold);
        assert(pool.skip(0) =~= s.hold);
        assert(pool.take(0) =~= none);
    } else {
        assert(s.head + none =~= s.head);
    }
}

pub proof fn lemma_faded_wf(xs: Seq<Seq<u8>>)
    ensures
        fader_wf(faded(xs).0),
    decreases xs.len(),
{
    if xs.len() > 0 {
        lemma_faded_wf(xs.drop_last());
        let (s, _sent) = faded(xs.drop_last());
        lemma_fader_stays_wf(s, xs.last());
        lemma_fader_stays_wf(begin_spec(s), xs.last());
        lemma_fader_stays_wf(feed_spec(begin_spec(s), xs.last()).0, xs.last());
    }
}

/// What a cross-fader holds and has sent after some sentences and a part of the next.
pub open spec fn faded_part(xs: Seq<Seq<u8>>, voice: Seq<u8>) -> (FaderState, Seq<u8>) {
    let (s, sent) = faded(xs);
    let fed = feed_spec(begin_spec(s), voice);
    (fed.0, sent + fed.1)
}

/// The audio that was passed on and what is held are those of the sentences so far.
pub open spec fn in_voice(
    s: PipeState,
    spoken: Seq<Seq<u8>>,
    voice: Seq<u8>,
    items: Seq<ItemView>,
    failed: bool,
) -> bool {
    match s.phase {
        PipePhase::Reading | PipePhase::ReadingTail => s.audio.fader == faded_part(spoken, voice).0
            && carries(items, faded_part(spoken, voice).1),
        PipePhase::Done => failed || carries(items, faded_stream(spoken)),
        _ => voice.len() == 0 && s.audio.fader == faded(spoken).0 && carries(items, faded(spoken).1),
    }
}

/// A step that changes no audio.
proof fn lemma_done_voice(s: PipeState, items: Seq<ItemView>, spoken: Seq<Seq<u8>>, before: Seq<ItemView>)
    requires
        s.audio.fader == faded(spoken).0,
        carries(before + items, faded(spoken).1),
    ensures
        ({
            let out = complete(s, items);
            in_voice(out.state, spoken, Seq::empty(), before + out.items, false)
        }),
{
    reveal(complete);
    let (fader, pcm) = finish_spec(s.audio.fader);
    let (seq, more) = emit_spec(s.audio.seq, pcm);
    lemma_carries_emitted(before + items, faded(spoken).1, s.audio.seq, pcm);
    let out = complete(s, items);
    let mark = audio_finish(s.audio).1.last();
    assert(out.items =~= items + more + seq![mark]);
    assert(before + out.items =~= (before + items + more).push(mark));
    lemma_carries_other(before + items + more, faded_stream(spoken), mark);
}

proof fn lemma_idle_voice(s: PipeState, items: Seq<ItemView>, spoken: Seq<Seq<u8>>, before: Seq<ItemView>)
    requires
        s.audio.fader == faded(spoken).0,
        carries(before + items, faded(spoken).1),
    ensures
        ({
            let out = tail(s, items);
            in_voice(out.state, spoken, Seq::empty(), before + out.items, false)
        }),
        ({
            let out = after_piece(s, items);
            in_voice(out.state, spoken, Seq::empty(), before + out.items, false)
        }),
        ({
            let out = next_sentence(s, items);
            in_voice(out.state, spoken, Seq::empty(), before + out.items, false)
        }),
        ({
            let out = next_piece(s, items);
            in_voice(out.state, spoken, Seq::empty(), before + out.items, false)
        }),
{
    reveal(tail);
    reveal(after_piece);
    reveal(next_sentence);
    reveal(next_piece);
    lemma_done_voice(PipeState { short: Seq::empty(), ..s }, items, spoken, before);
    let (buf, short, request) = next_request(s.buf, s.short);
    lemma_done_voice(PipeState { short: Seq::empty(), buf, ..s }, items, spoken, before);
}

proof fn lemma_over_voice(
    s: PipeState,
    items: Seq<ItemView>,
    spoken: Seq<Seq<u8>>,
    voice: Seq<u8>,
    before: Seq<ItemView>,
)
    requires
        reading(s.phase),
        s.audio.fader == faded_part(spoken, voice).0,
        carries(before + items, faded_part(spoken, voice).1),
    ensures
        ({
            let out = sentence_over(s, items);
            in_voice(out.state, spoken.push(voice), Seq::empty(), before + out.items, false)
        }),
{
    reveal(sentence_over);
    let (fader, pcm) = end_spec(s.audio.fader);
    let (audio, more) = audio_end(s.audio);
    let xs = spoken.push(voice);
    assert(xs.drop_last() =~= spoken);
    lemma_carries_emitted(before + items, faded_part(spoken, voice).1, s.audio.seq, pcm);
    assert(before + items + more =~= before + (items + more));
    let t = PipeState { audio, ..s };
    lemma_idle_voice(t, items + more, xs, before);
    lemma_done_voice(t, items + more, xs, before);
}

proof fn lemma_audio_voice(
    s: PipeState,
    data: Seq<u8>,
    is_last: bool,
    spoken: Seq<Seq<u8>>,
    voice: Seq<u8>,
    before: Seq<ItemView>,
)
    requires
        reading(s.phase),
        s.audio.fader == faded_part(spoken, voice).0,
        carries(before, faded_part(spoken, voice).1),
    ensures
        ({
            let out = on_audio(s, data, is_last);
            if is_last {
                in_voice(out.state, spoken.push(voice + data), Seq::empty(), before + out.items, false)
            } else {
                in_voice(out.state, spoken, voice + data, before + out.items, false)
            }
        }),
{
    reveal(on_audio);
    let (f, sent) = faded(spoken);
    lemma_faded_wf(spoken);
    lemma_fader_stays_wf(f, voice);
    law_feed_splits(begin_spec(f), voice, data);
    let (fader, pcm) = feed_spec(s.audio.fader, data);
    let (audio, items) = audio_feed(s.audio, data);
    lemma_carries_emitted(before, faded_part(spoken, voice).1, s.audio.seq, pcm);
    assert(faded_part(spoken, voice + data).1 =~= faded_part(spoken, voice).1 + pcm);
    lemma_over_voice(PipeState { audio, ..s }, items, spoken, voice + data, before);
}

proof fn lemma_feed_all_voice(
    a: AudioState,
    datas: Seq<Seq<u8>>,
    before: Seq<ItemView>,
    sent: Seq<u8>,
)
    requires
        fader_wf(a.fader),
        carries(before, sent),
    ensures
        ({
            let (b, items) = audio_feed_all(a, datas);
            let fed = feed_spec(a.fader, join_bytes(datas));
            b.fader == fed.0 && carries(before + items, sent + fed.1)
        }),
    decreases datas.len(),
{
    if datas.len() == 0 {
        lemma_feed_nothing(a.fader);
        assert(before + Seq::<ItemView>::empty() =~= before);
        assert(sent + Seq::<u8>::empty() =~= sent);
    } else {
        lemma_feed_all_voice(a, datas.drop_last(), before, sent);
        let (b, items) = audio_feed_all(a, datas.drop_last());
        let x = join_bytes(datas.drop_last());
        let y = datas.last();
        law_feed_splits(a.fader, x, y);
        let pcm = feed_spec(b.fader, y).1;
        lemma_carries_emitted(before + items, sent + feed_spec(a.fader, x).1, b.seq, pcm);
        let more = audio_feed(b, y).1;
        assert(before + items + more =~= before + (items + more));
        assert(sent + feed_spec(a.fader, x).1 + pcm =~= sent + (feed_spec(a.fader, x).1 + pcm));
    }
}

proof fn lemma_sentence_voice(
    a: AudioState,
    datas: Seq<Seq<u8>>,
    spoken: Seq<Seq<u8>>,
    before: Seq<ItemView>,
)
    requires
        a.fader == faded(spoken).0,
        carries(before, faded(spoken).1),
    ensures
        ({
            let (b, items) = audio_sentence(a, datas);
            let xs = spoken.push(join_bytes(datas));
            b.fader == faded(xs).0 && carries(before + items, faded(xs).1)
        }),
{
    let x = join_bytes(datas);
    let xs = spoken.push(x);
    assert(xs.drop_last() =~= spoken);
    lemma_faded_wf(spoken);
    lemma_fader_stays_wf(a.fader, x);
    let start = audio_begin(a);
    lemma_feed_all_voice(start, datas, before, faded(spoken).1);
    let (b, items) = audio_feed_all(start, datas);
    let (c, more) = audio_end(b);
    let pcm = end_spec(b.fader).1;
    lemma_carries_emitted(
        before + items,
        faded(spoken).1 + feed_spec(start.fader, x).1,
        b.seq,
        pcm,
    );
    assert(before + items + more =~= before + (items + more));
}

#[verifier::rlimit(40)]
proof fn lemma_step_voice(t: Told, e: PipeEventView)
    requires
        in_voice(t.state, t.spoken, t.voice, t.items, t.failed),
    ensures
        ({
            let u = tell(t, e);
            in_voice(u.state, u.spoken, u.voice, u.items, u.failed)
        }),
{
    let s = t.state;
    let none = Seq::<ItemView>::empty();
    assert(t.items + none =~= t.items);
    reveal(fail);
    if !reading(s.phase) {
        assert(t.voice.len() == 0 || s.phase == PipePhase::Done);
        if s.phase != PipePhase::Done {
            assert(t.voice =~= Seq::<u8>::empty());
        }
    }
    match (s.phase, e) {
        (PipePhase::Llm, PipeEventView::Llm { delta, is_final, cleaned }) => {
            reveal(on_llm);
            let item = ItemView::Llm { delta, is_final };
            lemma_carries_other(t.items, faded(t.spoken).1, item);
            assert(t.items + seq![item] =~= t.items.push(item));
            let v = PipeState { final_seen: is_final, ..s };
            lemma_idle_voice(v, seq![item], t.spoken, t.items);
            lemma_idle_voice(PipeState { buf: s.buf + delta, ..v }, seq![item], t.spoken, t.items);
            lemma_idle_voice(PipeState { rest: cleaned, ..v }, seq![item], t.spoken, t.items);
        },
        (PipePhase::Llm, PipeEventView::LlmEnded) => {
            lemma_idle_voice(s, none, t.spoken, t.items);
        },
        (PipePhase::Asking, PipeEventView::TtsStarted) => {
            lemma_faded_wf(t.spoken);
            lemma_feed_nothing(begin_spec(s.audio.fader));
            assert(faded(t.spoken).1 + Seq::<u8>::empty() =~= faded(t.spoken).1);
        },
        (PipePhase::AskingTail, PipeEventView::TtsStarted) => {
            lemma_faded_wf(t.spoken);
            lemma_feed_nothing(begin_spec(s.audio.fader));
            assert(faded(t.spoken).1 + Seq::<u8>::empty() =~= faded(t.spoken).1);
        },
        (PipePhase::AskingTail, PipeEventView::TtsCallFailed(_)) => {
            lemma_done_voice(s, none, t.spoken, t.items);
        },
        (PipePhase::Reading, PipeEventView::Audio { data, is_last }) => {
            lemma_audio_voice(s, data, is_last, t.spoken, t.voice, t.items);
        },
        (PipePhase::ReadingTail, PipeEventView::Audio { data, is_last }) => {
            lemma_audio_voice(s, data, is_last, t.spoken, t.voice, t.items);
        },
        (PipePhase::ReadingTail, PipeEventView::TtsStreamFailed(_)) => {
            lemma_over_voice(s, none, t.spoken, t.voice, t.items);
        },
        (PipePhase::Reading, PipeEventView::TtsEnded) => {
            lemma_over_voice(s, none, t.spoken, t.voice, t.items);
        },
        (PipePhase::ReadingTail, PipeEventView::TtsEnded) => {
            lemma_over_voice(s, none, t.spoken, t.voice, t.items);
        },
        (PipePhase::Sending, PipeEventView::TextSent) => {
            let v = PipeState { buf: s.buf + s.piece, piece: Seq::empty(), ..s };
            lemma_idle_voice(v, none, t.spoken, t.items);
        },
        (PipePhase::Flushing, PipeEventView::Flushed(datas)) => {
            lemma_sentence_voice(s.audio, datas, t.spoken, t.items);
            let (audio, items) = audio_sentence(s.audio, datas);
            lemma_idle_voice(
                PipeState { audio, ..s },
                items,
                t.spoken.push(join_bytes(datas)),
                t.items,
            );
        },
        (PipePhase::FlushingTail, PipeEventView::Flushed(datas)) => {
            lemma_sentence_voice(s.audio, datas, t.spoken, t.items);
        },
        (PipePhase::Ending, PipeEventView::SessionEnded) => {
            lemma_done_voice(s, none, t.spoken, t.items);
        },
        _ => {},
    }
}

proof fn lemma_run_voice(incremental: bool, es: Seq<PipeEventView>)
    ensures
        ({
            let t = tell_all(incremental, es);
            in_voice(t.state, t.spoken, t.voice, t.items, t.failed)
        }),
    decreases es.len(),
{
    if es.len() > 0 {
        lemma_run_voice(incremental, es.drop_last());
        lemma_step_voice(tell_all(incremental, es.drop_last()), es.last());
    }
}

/// Every byte of speech is passed on. Whatever happens in whatever order, once the pipeline is
/// done and did not fail, the audio that it passed on is the audio of the sentences that were
/// spoken, whole, in order, and blended where one follows another.
pub proof fn law_whole_speech_is_passed_on(incremental: bool, es: Seq<PipeEventView>)
    requires
        ({
            let t = tell_all(incremental, es);
            t.state.phase == PipePhase::Done && !t.failed
        }),
    ensures
        ({
            let t = tell_all(incremental, es);
            carries(t.items, faded_stream(t.spoken))
        }),
{
    lemma_run_voice(incremental, es);
}

/// A single sentence is passed on byte for byte.
pub proof fn law_single_sentence_is_passed_on(incremental: bool, es: Seq<PipeEventView>)
    requires
        ({
            let t = tell_all(incremental, es);
            t.state.phase == PipePhase::Done && !t.failed && t.spoken.len() == 1
        }),
    ensures
        ({
            let t = tell_all(incremental, es);
            carries(t.items, t.spoken[0])
        }),
{
    lemma_run_voice(incremental, es);
    let t = tell_all(incremental, es);
    let x = t.spoken[0];
    let none = Seq::<Seq<u8>>::empty();
    assert(t.spoken.drop_last() =~= none);
    let (s, sent) = faded(none);
    law_single_sentence_is_unchanged(s, x);
    let fed = feed_spec(begin_spec(s), x);
    let ended = end_spec(fed.0);
    assert(faded(t.spoken) == (ended.0, sent + fed.1 + ended.1));
    assert(sent + fed.1 + ended.1 =~= fed.1 + ended.1);
    assert(faded_stream(t.spoken) =~= x);
}

// ---- failures ----

/// The words of a failure, where an event is one that ends the answer in this phase.
pub open spec fn failure_in(s: PipeState, e: PipeEventView) -> Option<Seq<char>> {
    match e {
        PipeEventView::LlmCallFailed(m) => if s.phase == PipePhase::Llm {
            Some(m)
        } else {
            None
        },
        PipeEventView::LlmStreamFailed(m) => if s.phase == PipePhase::Llm {
            Some(m)
        } else {
            None
        },
        PipeEventView::TtsCallFailed(m) => if s.phase == PipePhase::Asking {
            Some(m)
        } else {
            None
        },
        PipeEventView::TtsStreamFailed(m) => if s.phase == PipePhase::Reading {
            Some(m)
        } else {
            None
        },
        PipeEventView::SessionFailed(m) => if s.phase == PipePhase::Sending || s.phase
            == PipePhase::Flushing {
            Some(m)
        } else {
            None
        },
        _ => None,
    }
}

/// A service that fails in the middle ends the answer at once, and the failure is passed on alone
/// and in its own words; what was open is closed.
pub proof fn law_failure_ends_the_answer(s: PipeState, e: PipeEventView, m: Seq<char>)
    requires
        failure_in(s, e) == Some(m),
    ensures
        ({
            let out = pipe_step(s, e);
            &&& out.items.len() == 1
            &&& out.items[0] matches ItemView::Failed { error, .. } && m.is_suffix_of(error)
            &&& out.state.phase == PipePhase::Done
            &&& out.action == (ActionView::Stop { close: s.incremental })
        }),
{
    reveal(fail);
    let out = pipe_step(s, e);
    let error = out.items[0]->error;
    assert(error.subrange(error.len() - m.len(), error.len() as int) =~= m);
}

/// A model that fails and a voice that fails are told apart: the codes of the two have nothing in
/// common.
pub proof fn law_failures_are_told_apart(s: PipeState, t: PipeState, m: Seq<char>, n: Seq<char>)
    requires
        s.phase == PipePhase::Llm,
        t.phase == PipePhase::Asking,
    ensures
        pipe_step(s, PipeEventView::LlmCallFailed(m)).items[0]->code != pipe_step(
            t,
            PipeEventView::TtsCallFailed(n),
        ).items[0]->code,
        pipe_step(s, PipeEventView::LlmCallFailed(m)).items[0]->code != pipe_step(
            s,
            PipeEventView::LlmStreamFailed(m),
        ).items[0]->code,
        pipe_step(s, PipeEventView::LlmStreamFailed(m)).items[0]->code != pipe_step(
            t,
            PipeEventView::TtsCallFailed(n),
        ).items[0]->code,
{
    reveal(fail);
}

/// A voice that fails only on the rest of the answer spoils nothing: what was spoken is passed on,
/// and the answer ends as it should.
pub proof fn law_rest_may_fail(s: PipeState, m: Seq<char>)
    ensures
        s.phase == PipePhase::AskingTail ==> ends_with_mark(
            pipe_step(s, PipeEventView::TtsCallFailed(m)).items,
        ),
        s.phase == PipePhase::ReadingTail ==> ends_with_mark(
            pipe_step(s, PipeEventView::TtsStreamFailed(m)).items,
        ),
{
    reveal(sentence_over);
    reveal(complete);
    let x = complete(s, Seq::empty()).items;
    assert(x.last() == audio_finish(s.audio).1.last());
    let (audio, more) = audio_end(s.audio);
    let t = PipeState { audio, ..s };
    let y = complete(t, Seq::<ItemView>::empty() + more).items;
    assert(y.last() == audio_finish(audio).1.last());
}

// ---- the end of the answer ----

/// The last piece of an answer is the last that is read: from then on the pipeline never asks for
/// another.
pub proof fn law_last_piece_is_the_last(s: PipeState, e: PipeEventView)
    requires
        s.final_seen && s.phase != PipePhase::Llm || (s.phase == PipePhase::Llm
            && (e matches PipeEventView::Llm { is_final, .. } && is_final)),
    ensures
        ({
            let out = pipe_step(s, e);
            out.state.final_seen && out.state.phase != PipePhase::Llm && !(out.action is ReadLlm)
        }),
{
    reveal(on_llm);
    reveal(on_audio);
    reveal(sentence_over);
    reveal(next_sentence);
    reveal(next_piece);
    reveal(after_piece);
    reveal(tail);
    reveal(complete);
    reveal(fail);
}

} // verus!

//! What holds of a whole text that is read aloud, and of the lines in which an answer is told.

use vstd::prelude::*;

use crate::admin::{
    error_json, law_sentences_are_asked_in_order, speech_line_spec, spoken_texts, stage_line_spec,
    stage_step, text_complete, text_next, text_spoken, text_start, text_step, voices_json,
    StageEvent, StagePhase, StageState, TextActionView, TextEventView, TextPhase, TextState,
    TextStepView,
};
use crate::answer::{
    carries, faded_part, lemma_carries_emitted, lemma_carries_other, lemma_faded_wf,
    lemma_fader_stays_wf, lemma_feed_nothing,
};
use crate::chat::{
    lemma_members_behind, lemma_one_behind, member_if, members_behind, next_member, next_option,
};
use crate::crossfade::{
    begin_spec, end_spec, faded, faded_stream, feed_spec, finish_spec, law_feed_splits,
};
use crate::events::AsrEvent;
use crate::json::{array_text, json_string, object_text, Member};
use crate::llm_tts::ends_with_failure;
use crate::pipeline::{audio_end, audio_feed, audio_finish, emit_spec, ItemView};
use crate::text::decimal;
use crate::voices::voice_table;

verus! {

// ---- a text that is read aloud ----

/// Everything that has happened to a text that is read aloud.
pub ghost struct Recital {
    pub state: TextState,
    /// The texts of which speech was asked for.
    pub asked: Seq<Seq<char>>,
    /// The audio of those that were spoken.
    pub spoken: Seq<Seq<u8>>,
    /// The audio of the one that is being spoken.
    pub voice: Seq<u8>,
    /// Everything that was passed on.
    pub items: Seq<ItemView>,
    pub failed: bool,
}

/// The text that is asked for, where one is.
pub open spec fn asked_in(step: TextStepView) -> Seq<Seq<char>> {
    match step.action {
        TextActionView::Synthesize(x) => seq![x],
        _ => Seq::empty(),
    }
}

pub open spec fn is_reading(phase: TextPhase) -> bool {
    phase == TextPhase::Reading || phase == TextPhase::ReadingTail
}

/// The beginning.
pub open spec fn recital_start(text: Seq<char>) -> Recital {
    let (state, step) = text_next(text_start(text), Seq::empty());
    Recital {
        state,
        asked: asked_in(step),
        spoken: Seq::empty(),
        voice: Seq::empty(),
        items: step.items,
        failed: false,
    }
}

/// The audio of what is being spoken, with what an event adds to it.
pub open spec fn voice_with(r: Recital, e: TextEventView) -> Seq<u8> {
    match e {
        TextEventView::Audio { data, .. } => if is_reading(r.state.phase) {
            r.voice + data
        } else {
            r.voice
        },
        _ => r.voice,
    }
}

/// An event ends what is being spoken.
pub open spec fn voice_ends(r: Recital, e: TextEventView) -> bool {
    match e {
        TextEventView::Audio { is_last, .. } => is_reading(r.state.phase) && is_last,
        TextEventView::StreamEnded => is_reading(r.state.phase),
        TextEventView::StreamFailed(_) => r.state.phase == TextPhase::ReadingTail,
        _ => false,
    }
}

/// What happens next.
pub open spec fn recite(r: Recital, e: TextEventView) -> Recital {
    let (state, step) = text_step(r.state, e);
    Recital {
        state,
        asked: r.asked + asked_in(step),
        spoken: if voice_ends(r, e) {
            r.spoken.push(voice_with(r, e))
        } else {
            r.spoken
        },
        voice: if voice_ends(r, e) {
            Seq::empty()
        } else {
            voice_with(r, e)
        },
        items: r.items + step.items,
        failed: r.failed || ends_with_failure(step.items),
    }
}

/// Everything that has happened after some events.
pub open spec fn recite_all(text: Seq<char>, es: Seq<TextEventView>) -> Recital
    decreases es.len(),
{
    if es.len() == 0 {
        recital_start(text)
    } else {
        recite(recite_all(text, es.drop_last()), es.last())
    }
}

/// What was asked for and what is left are together the text.
pub open spec fn on_text(s: TextState, text: Seq<char>, asked: Seq<Seq<char>>, failed: bool) -> bool {
    match s.phase {
        TextPhase::Over => failed || asked == spoken_texts(text),
        TextPhase::AskingTail | TextPhase::ReadingTail => asked == spoken_texts(text),
        _ => asked + spoken_texts(s.buf) == spoken_texts(text),
    }
}

proof fn lemma_nothing_left()
    ensures
        spoken_texts(Seq::empty()) == Seq::<Seq<char>>::empty(),
{
    let none = Seq::<char>::empty();
    crate::sentence::lemma_sentence_len_bounds(none, 0);
    crate::text::lemma_trim_blank(none);
    assert(spoken_texts(none) =~= Seq::<Seq<char>>::empty());
}

proof fn lemma_next_on_text(s: TextState, items: Seq<ItemView>, text: Seq<char>, asked: Seq<Seq<char>>)
    requires
        asked + spoken_texts(s.buf) == spoken_texts(text),
    ensures
        ({
            let (t, step) = text_next(s, items);
            on_text(t, text, asked + asked_in(step), false)
        }),
{
    law_sentences_are_asked_in_order(s, items);
    lemma_nothing_left();
    let (t, step) = text_next(s, items);
    match step.action {
        TextActionView::Synthesize(x) => {
            assert(asked + seq![x] + spoken_texts(t.buf) =~= asked + (seq![x] + spoken_texts(t.buf)));
            if t.phase == TextPhase::AskingTail {
                assert(asked + seq![x] + Seq::<Seq<char>>::empty() =~= asked + seq![x]);
            }
        },
        _ => {
            assert(asked + Seq::<Seq<char>>::empty() =~= asked);
            assert(asked + spoken_texts(s.buf) =~= asked);
        },
    }
}

proof fn lemma_recite_on_text(r: Recital, e: TextEventView, text: Seq<char>)
    requires
        on_text(r.state, text, r.asked, r.failed),
    ensures
        on_text(recite(r, e).state, text, recite(r, e).asked, recite(r, e).failed),
{
    let s = r.state;
    assert(r.asked + Seq::<Seq<char>>::empty() =~= r.asked);
    let none = Seq::<ItemView>::empty();
    if s.phase == TextPhase::Reading {
        match e {
            TextEventView::Audio { data, is_last } => {
                let (audio, items) = audio_feed(s.audio, data);
                let t = TextState { audio, ..s };
                let (after, more) = audio_end(audio);
                lemma_next_on_text(TextState { audio: after, ..t }, items + more, text, r.asked);
            },
            TextEventView::StreamEnded => {
                let (after, more) = audio_end(s.audio);
                lemma_next_on_text(TextState { audio: after, ..s }, none + more, text, r.asked);
            },
            _ => {},
        }
    }
}

proof fn lemma_recital_on_text(text: Seq<char>, es: Seq<TextEventView>)
    ensures
        ({
            let r = recite_all(text, es);
            on_text(r.state, text, r.asked, r.failed)
        }),
    decreases es.len(),
{
    if es.len() == 0 {
        let none = Seq::<Seq<char>>::empty();
        assert(none + spoken_texts(text) =~= spoken_texts(text));
        lemma_next_on_text(text_start(text), Seq::empty(), text, none);
        let step = text_next(text_start(text), Seq::empty()).1;
        assert(none + asked_in(step) =~= asked_in(step));
    } else {
        lemma_recital_on_text(text, es.drop_last());
        lemma_recite_on_text(recite_all(text, es.drop_last()), es.last(), text);
    }
}

/// A text is read aloud whole: whatever happens, once it is over and nothing failed, speech was
/// asked for of each of its sentences, in order, and of what stands behind the last mark.
pub proof fn law_whole_text_is_read(text: Seq<char>, es: Seq<TextEventView>)
    requires
        recite_all(text, es).state.phase == TextPhase::Over,
        !recite_all(text, es).failed,
    ensures
        recite_all(text, es).asked == spoken_texts(text),
{
    lemma_recital_on_text(text, es);
}

/// The audio that was passed on and what is held are those of the sentences so far.
pub open spec fn is_heard(
    s: TextState,
    spoken: Seq<Seq<u8>>,
    voice: Seq<u8>,
    items: Seq<ItemView>,
    failed: bool,
) -> bool {
    match s.phase {
        TextPhase::Reading | TextPhase::ReadingTail => s.audio.fader == faded_part(spoken, voice).0
            && carries(items, faded_part(spoken, voice).1),
        TextPhase::Over => failed || carries(items, faded_stream(spoken)),
        _ => voice.len() == 0 && s.audio.fader == faded(spoken).0 && carries(items, faded(spoken).1),
    }
}

proof fn lemma_complete_is_heard(
    s: TextState,
    items: Seq<ItemView>,
    spoken: Seq<Seq<u8>>,
    before: Seq<ItemView>,
)
    requires
        s.audio.fader == faded(spoken).0,
        carries(before + items, faded(spoken).1),
    ensures
        ({
            let (t, step) = text_complete(s, items);
            is_heard(t, spoken, Seq::empty(), before + step.items, false)
        }),
        ({
            let (t, step) = text_next(s, items);
            is_heard(t, spoken, Seq::empty(), before + step.items, false)
        }),
{
    let (fader, pcm) = finish_spec(s.audio.fader);
    let more = emit_spec(s.audio.seq, pcm).1;
    lemma_carries_emitted(before + items, faded(spoken).1, s.audio.seq, pcm);
    let (t, step) = text_complete(s, items);
    let mark = audio_finish(s.audio).1.last();
    assert(step.items =~= items + more + seq![mark]);
    assert(before + step.items =~= (before + items + more).push(mark));
    lemma_carries_other(before + items + more, faded_stream(spoken), mark);
}

proof fn lemma_spoken_is_heard(
    s: TextState,
    items: Seq<ItemView>,
    spoken: Seq<Seq<u8>>,
    voice: Seq<u8>,
    before: Seq<ItemView>,
)
    requires
        is_reading(s.phase),
        s.audio.fader == faded_part(spoken, voice).0,
        carries(before + items, faded_part(spoken, voice).1),
    ensures
        ({
            let (t, step) = text_spoken(s, items);
            is_heard(t, spoken.push(voice), Seq::empty(), before + step.items, false)
        }),
{
    let pcm = end_spec(s.audio.fader).1;
    let (audio, more) = audio_end(s.audio);
    let xs = spoken.push(voice);
    assert(xs.drop_last() =~= spoken);
    lemma_carries_emitted(before + items, faded_part(spoken, voice).1, s.audio.seq, pcm);
    assert(before + items + more =~= before + (items + more));
    lemma_complete_is_heard(TextState { audio, ..s }, items + more, xs, before);
}

proof fn lemma_recite_is_heard(r: Recital, e: TextEventView)
    requires
        is_heard(r.state, r.spoken, r.voice, r.items, r.failed),
    ensures
        ({
            let n = recite(r, e);
            is_heard(n.state, n.spoken, n.voice, n.items, n.failed)
        }),
{
    let s = r.state;
    let none = Seq::<ItemView>::empty();
    assert(r.items + none =~= r.items);
    match e {
        TextEventView::Started => {
            if s.phase == TextPhase::Asking || s.phase == TextPhase::AskingTail {
                lemma_faded_wf(r.spoken);
                lemma_fader_stays_wf(s.audio.fader, r.voice);
                lemma_feed_nothing(begin_spec(s.audio.fader));
                assert(r.voice =~= Seq::<u8>::empty());
                assert(faded(r.spoken).1 + Seq::<u8>::empty() =~= faded(r.spoken).1);
            }
        },
        TextEventView::CallFailed(_) => {
            if s.phase == TextPhase::AskingTail {
                assert(r.voice =~= Seq::<u8>::empty());
                lemma_complete_is_heard(s, none, r.spoken, r.items);
            }
        },
        TextEventView::Audio { data, is_last } => {
            if is_reading(s.phase) {
                let f = faded(r.spoken).0;
                lemma_faded_wf(r.spoken);
                lemma_fader_stays_wf(f, r.voice);
                law_feed_splits(begin_spec(f), r.voice, data);
                let pcm = feed_spec(s.audio.fader, data).1;
                let (audio, items) = audio_feed(s.audio, data);
                lemma_carries_emitted(r.items, faded_part(r.spoken, r.voice).1, s.audio.seq, pcm);
                assert(faded_part(r.spoken, r.voice + data).1 =~= faded_part(r.spoken, r.voice).1 + pcm);
                lemma_spoken_is_heard(
                    TextState { audio, ..s },
                    items,
                    r.spoken,
                    r.voice + data,
                    r.items,
                );
            }
        },
        TextEventView::StreamFailed(_) => {
            if s.phase == TextPhase::ReadingTail {
                lemma_spoken_is_heard(s, none, r.spoken, r.voice, r.items);
            }
        },
        TextEventView::StreamEnded => {
            if is_reading(s.phase) {
                lemma_spoken_is_heard(s, none, r.spoken, r.voice, r.items);
            }
        },
    }
}

proof fn lemma_recital_is_heard(text: Seq<char>, es: Seq<TextEventView>)
    ensures
        ({
            let r = recite_all(text, es);
            is_heard(r.state, r.spoken, r.voice, r.items, r.failed)
        }),
    decreases es.len(),
{
    if es.len() == 0 {
        let none = Seq::<ItemView>::empty();
        assert(none + none =~= none);
        let xs = Seq::<Seq<u8>>::empty();
        assert(carries(none + none, faded(xs).1));
        lemma_complete_is_heard(text_start(text), none, xs, none);
        let step = text_next(text_start(text), none).1;
        assert(none + step.items =~= step.items);
    } else {
        lemma_recital_is_heard(text, es.drop_last());
        lemma_recite_is_heard(recite_all(text, es.drop_last()), es.last());
    }
}

/// Of a text that is read aloud every byte of speech is passed on: once it is over and nothing
/// failed, the audio that was passed on is that of the sentences, whole, in order, and blended
/// where one follows another.
pub proof fn law_whole_recital_is_heard(text: Seq<char>, es: Seq<TextEventView>)
    requires
        recite_all(text, es).state.phase == TextPhase::Over,
        !recite_all(text, es).failed,
    ensures
        carries(recite_all(text, es).items, faded_stream(recite_all(text, es).spoken)),
{
    lemma_recital_is_heard(text, es);
}

// ---- lines ----

/// An object as it is written: its first member, then the others.
pub open spec fn written_object(name: Seq<char>, value: Seq<char>, others: Seq<char>) -> Seq<char> {
    seq!['{', '"'] + name + seq!['"', ':'] + value + others + seq!['}']
}

pub open spec fn truth(b: bool) -> Seq<char> {
    if b {
        "true"@
    } else {
        "false"@
    }
}

/// An object of three members.
proof fn lemma_object_of_three(
    n: (Seq<char>, Seq<char>, Seq<char>),
    v: (Seq<char>, Seq<char>, Seq<char>),
)
    ensures
        object_text(
            seq![Member { name: n.0, value: v.0 }] + seq![Member { name: n.1, value: v.1 }] + seq![
                Member { name: n.2, value: v.2 },
            ],
        ) == written_object(n.0, v.0, next_member(n.1, v.1) + next_member(n.2, v.2)),
        object_text(
            seq![Member { name: n.0, value: v.0 }] + seq![Member { name: n.1, value: v.1 }],
        ) == written_object(n.0, v.0, next_member(n.1, v.1)),
{
    let first = Member { name: n.0, value: v.0 };
    let none = Seq::<Member>::empty();
    let one = member_if(n.1, Some(v.1));
    let two = one + member_if(n.2, Some(v.2));
    lemma_one_behind(none, n.1, Some(v.1));
    assert(none + one =~= one);
    assert(members_behind(none) + next_option(n.1, Some(v.1)) =~= next_member(n.1, v.1));
    lemma_one_behind(one, n.2, Some(v.2));
    lemma_members_behind(first, one);
    lemma_members_behind(first, two);
    assert(seq![first] + two =~= seq![first] + one + member_if(n.2, Some(v.2)));
    assert(object_text(seq![first] + two) =~= written_object(n.0, v.0, members_behind(two)));
    assert(object_text(seq![first] + one) =~= written_object(n.0, v.0, members_behind(one)));
}

proof fn lemma_object_of_four(
    n: (Seq<char>, Seq<char>, Seq<char>, Seq<char>),
    v: (Seq<char>, Seq<char>, Seq<char>, Seq<char>),
)
    ensures
        object_text(
            seq![Member { name: n.0, value: v.0 }] + seq![Member { name: n.1, value: v.1 }] + seq![
                Member { name: n.2, value: v.2 },
            ] + seq![Member { name: n.3, value: v.3 }],
        ) == written_object(
            n.0,
            v.0,
            next_member(n.1, v.1) + next_member(n.2, v.2) + next_member(n.3, v.3),
        ),
{
    let first = Member { name: n.0, value: v.0 };
    let none = Seq::<Member>::empty();
    let one = member_if(n.1, Some(v.1));
    let two = one + member_if(n.2, Some(v.2));
    let three = two + member_if(n.3, Some(v.3));
    lemma_one_behind(none, n.1, Some(v.1));
    assert(none + one =~= one);
    assert(members_behind(none) + next_option(n.1, Some(v.1)) =~= next_member(n.1, v.1));
    lemma_one_behind(one, n.2, Some(v.2));
    lemma_one_behind(two, n.3, Some(v.3));
    lemma_members_behind(first, three);
    assert(seq![first] + three =~= seq![first] + one + member_if(n.2, Some(v.2)) + member_if(
        n.3,
        Some(v.3),
    ));
    assert(object_text(seq![first] + three) =~= written_object(n.0, v.0, members_behind(three)));
}

/// What a pipeline passes on is told on a line of its own, with its stage, and nothing of it is
/// lost: the text and whether it is the last; the number, the audio and whether it is the last;
/// the failure and its code.
pub proof fn law_items_are_told(item: ItemView)
    ensures
        stage_line_spec(item) == (match item {
            ItemView::Llm { delta, is_final } => written_object(
                "stage"@,
                json_string("llm"@),
                next_member("delta"@, json_string(delta)) + next_member("is_final"@, truth(is_final)),
            ),
            ItemView::Tts { seq, audio, is_last } => written_object(
                "stage"@,
                json_string("tts"@),
                next_member("seq"@, decimal(seq as nat)) + next_member("audio"@, json_string(audio))
                    + next_member("is_last"@, truth(is_last)),
            ),
            ItemView::Failed { error, code } => written_object(
                "error"@,
                json_string(error),
                next_member("code"@, decimal(code as nat)),
            ),
        }) + seq!['\n'],
{
    match item {
        ItemView::Llm { delta, is_final } => {
            lemma_object_of_three(
                ("stage"@, "delta"@, "is_final"@),
                (json_string("llm"@), json_string(delta), truth(is_final)),
            );
        },
        ItemView::Tts { seq, audio, is_last } => {
            lemma_object_of_four(
                ("stage"@, "seq"@, "audio"@, "is_last"@),
                (json_string("tts"@), decimal(seq as nat), json_string(audio), truth(is_last)),
            );
        },
        ItemView::Failed { error, code } => {
            lemma_plain_error(error, code);
        },
    }
}

proof fn lemma_plain_error(error: Seq<char>, code: u16)
    ensures
        error_json(error, code, None, None) == written_object(
            "error"@,
            json_string(error),
            next_member("code"@, decimal(code as nat)),
        ),
{
    lemma_object_of_three(
        ("error"@, "code"@, ""@),
        (json_string(error), decimal(code as nat), ""@),
    );
    let none = Seq::<Member>::empty();
    let two = seq![Member { name: "error"@, value: json_string(error) }] + seq![
        Member { name: "code"@, value: decimal(code as nat) },
    ];
    assert(two + none + none =~= two);
}

/// Where only speech is told, every piece of audio and every failure has its line, and the text of
/// the answer has none.
pub proof fn law_speech_is_told(item: ItemView)
    ensures
        item is Llm ==> speech_line_spec(item) is None,
        item matches ItemView::Tts { seq, audio, is_last } ==> speech_line_spec(item) == Some(
            written_object(
                "seq"@,
                decimal(seq as nat),
                next_member("audio"@, json_string(audio)) + next_member("is_last"@, truth(is_last)),
            ) + seq!['\n'],
        ),
        item matches ItemView::Failed { error, code } ==> speech_line_spec(item) == Some(
            written_object(
                "error"@,
                json_string(error),
                next_member("code"@, decimal(code as nat)),
            ) + seq!['\n'],
        ),
{
    match item {
        ItemView::Tts { seq, audio, is_last } => {
            lemma_object_of_three(
                ("seq"@, "audio"@, "is_last"@),
                (decimal(seq as nat), json_string(audio), truth(is_last)),
            );
            let none = Seq::<Member>::empty();
            let all = seq![Member { name: "seq"@, value: decimal(seq as nat) }] + seq![
                Member { name: "audio"@, value: json_string(audio) },
            ] + seq![Member { name: "is_last"@, value: truth(is_last) }];
            assert(none + seq![Member { name: "seq"@, value: decimal(seq as nat) }] + seq![
                Member { name: "audio"@, value: json_string(audio) },
            ] + seq![Member { name: "is_last"@, value: truth(is_last) }] =~= all);
        },
        ItemView::Failed { error, code } => {
            lemma_plain_error(error, code);
        },
        _ => {},
    }
}

/// Every result of recognition is told as it came, on a line of its own, and what was recognised
/// last and says something is what counts.
pub proof fn law_results_are_told(s: StageState, h: AsrEvent)
    requires
        s.phase == StagePhase::Hearing,
    ensures
        ({
            let (t, step) = stage_step(s, StageEvent::Heard(h));
            &&& step.line == Some(
                written_object(
                    "stage"@,
                    json_string("asr"@),
                    next_member("text"@, json_string(h.text@)) + next_member(
                        "is_final"@,
                        truth(h.is_final),
                    ),
                ) + seq!['\n'],
            )
            &&& step.action is Wait
            &&& t.phase == StagePhase::Hearing
            &&& h.text@.len() > 0 ==> t.prompt == h.text@
            &&& h.text@.len() == 0 ==> t.prompt == s.prompt
        }),
{
    lemma_object_of_three(
        ("stage"@, "text"@, "is_final"@),
        (json_string("asr"@), json_string(h.text@), truth(h.is_final)),
    );
}

/// The list of voices holds the name of every voice by which a client can ask for it, in order, and
/// the one that is used where none is asked for.
pub proof fn law_every_voice_is_listed(default: Seq<char>)
    ensures
        voices_json(default) == written_object(
            "voices"@,
            array_text(Seq::new(voice_table().len(), |i: int| json_string(voice_table()[i].short))),
            next_member("default"@, json_string(default)),
        ),
{
    let list = array_text(
        Seq::new(voice_table().len(), |i: int| json_string(voice_table()[i].short)),
    );
    lemma_object_of_three(("voices"@, "default"@, ""@), (list, json_string(default), ""@));
}

} // verus!

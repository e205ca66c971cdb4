//! What is written to the services and to the client: every setting that is there is in the frame,
//! under its own name and with its own value, and none that is not.

use vstd::prelude::*;

use crate::asr_stream::{event_line, failure_line, started_line, RealtimeView};
use crate::chat::{next_member, next_option};
use crate::funasr::{chunk_json, first_frame_members, numbers_json, FunasrConfig};
use crate::json::{
    bool_member, join_with_comma, json_string, member_text, members_text, number_member,
    object_text, opt_bool_member, opt_number_member, opt_raw_member, opt_text_member, raw_member,
    text_member, Member,
};
use crate::memory::{message_members, Role, Said};
use crate::text::{decimal, opt_view};
use crate::tts::{request_members, RequestView};
use crate::tts_ws::{control_json, input_text_json, or_else, TtsWsConfig};

verus! {

/// A text as it stands in a frame, where there is one.
pub open spec fn text_value(o: Option<Seq<char>>) -> Option<Seq<char>> {
    match o {
        Some(s) => Some(json_string(s)),
        None => None,
    }
}

/// A number as it stands in a frame, where there is one.
pub open spec fn number_value(o: Option<u32>) -> Option<Seq<char>> {
    match o {
        Some(n) => Some(decimal(n as nat)),
        None => None,
    }
}

pub open spec fn truth_value(b: bool) -> Seq<char> {
    if b {
        "true"@
    } else {
        "false"@
    }
}

/// A truth value as it stands in a frame, where there is one.
pub open spec fn opt_truth_value(o: Option<bool>) -> Option<Seq<char>> {
    match o {
        Some(b) => Some(truth_value(b)),
        None => None,
    }
}

/// The first member of a frame.
pub open spec fn first_member(name: Seq<char>, value: Seq<char>) -> Seq<char> {
    seq!['"'] + name + seq!['"', ':'] + value
}

/// A frame as it is written.
pub open spec fn frame(inner: Seq<char>) -> Seq<char> {
    seq!['{'] + inner + seq!['}']
}

/// What stands between the braces.
pub open spec fn inner(ms: Seq<Member>) -> Seq<char> {
    join_with_comma(members_text(ms))
}

proof fn lemma_first(name: Seq<char>, value: Seq<char>)
    ensures
        inner(raw_member(name, value)) == first_member(name, value),
{
    let ms = raw_member(name, value);
    assert(members_text(ms) =~= seq![member_text(ms[0])]);
}

proof fn lemma_next(ms: Seq<Member>, name: Seq<char>, value: Seq<char>)
    requires
        ms.len() > 0,
    ensures
        inner(ms + raw_member(name, value)) == inner(ms) + next_member(name, value),
        (ms + raw_member(name, value)).len() > 0,
{
    let all = ms + raw_member(name, value);
    assert(members_text(all).drop_last() =~= members_text(ms));
    assert(members_text(all).last() == member_text(Member { name, value }));
    assert(inner(all) == inner(ms) + seq![','] + member_text(Member { name, value }));
    assert(inner(all) =~= inner(ms) + next_member(name, value));
}

proof fn lemma_next_raw(ms: Seq<Member>, name: Seq<char>, value: Option<Seq<char>>)
    requires
        ms.len() > 0,
    ensures
        inner(ms + opt_raw_member(name, value)) == inner(ms) + next_option(name, value),
        (ms + opt_raw_member(name, value)).len() > 0,
{
    match value {
        Some(v) => lemma_next(ms, name, v),
        None => {
            assert(ms + opt_raw_member(name, value) =~= ms);
            assert(inner(ms) + next_option(name, value) =~= inner(ms));
        },
    }
}

proof fn lemma_next_text(ms: Seq<Member>, name: Seq<char>, value: Option<Seq<char>>)
    requires
        ms.len() > 0,
    ensures
        inner(ms + opt_text_member(name, value)) == inner(ms) + next_option(name, text_value(value)),
        (ms + opt_text_member(name, value)).len() > 0,
{
    lemma_next_raw(ms, name, text_value(value));
    assert(opt_text_member(name, value) == opt_raw_member(name, text_value(value)));
}

proof fn lemma_next_number(ms: Seq<Member>, name: Seq<char>, value: Option<u32>)
    requires
        ms.len() > 0,
    ensures
        inner(ms + opt_number_member(name, value)) == inner(ms) + next_option(
            name,
            number_value(value),
        ),
        (ms + opt_number_member(name, value)).len() > 0,
{
    lemma_next_raw(ms, name, number_value(value));
    assert(opt_number_member(name, value) == opt_raw_member(name, number_value(value)));
}

proof fn lemma_next_truth(ms: Seq<Member>, name: Seq<char>, value: Option<bool>)
    requires
        ms.len() > 0,
    ensures
        inner(ms + opt_bool_member(name, value)) == inner(ms) + next_option(
            name,
            opt_truth_value(value),
        ),
        (ms + opt_bool_member(name, value)).len() > 0,
{
    lemma_next_raw(ms, name, opt_truth_value(value));
    assert(opt_bool_member(name, value) == opt_raw_member(name, opt_truth_value(value)));
}

// ---- speech ----

/// A request for speech holds the text that is to be spoken, and every setting that is there under
/// its own name.
pub proof fn law_speech_request_says_everything(r: RequestView)
    requires
        r.input is Some,
    ensures
        object_text(request_members(r)) == frame(
            first_member("input"@, json_string(r.input->0)) + next_option("model"@, text_value(r.model))
                + next_option("voice"@, text_value(r.voice)) + next_option(
                "response_format"@,
                text_value(r.response_format),
            ) + next_option("speed"@, r.speed) + next_option("task_type"@, text_value(r.task_type))
                + next_option("language"@, text_value(r.language)) + next_option(
                "instructions"@,
                text_value(r.instructions),
            ) + next_option("max_new_tokens"@, number_value(r.max_new_tokens)) + next_option(
                "initial_codec_chunk_frames"@,
                number_value(r.initial_codec_chunk_frames),
            ) + next_option("non_streaming_mode"@, opt_truth_value(r.non_streaming_mode))
                + next_option("stream"@, opt_truth_value(r.stream)) + next_option(
                "stream_format"@,
                text_value(r.stream_format),
            ) + next_option("ref_audio"@, text_value(r.ref_audio)) + next_option(
                "ref_text"@,
                text_value(r.ref_text),
            ) + next_option("x_vector_only_mode"@, opt_truth_value(r.x_vector_only_mode))
                + next_option("sample_rate"@, number_value(r.sample_rate)),
        ),
{
    let m1 = opt_text_member("input"@, r.input);
    lemma_first("input"@, json_string(r.input->0));
    let m2 = m1 + opt_text_member("model"@, r.model);
    lemma_next_text(m1, "model"@, r.model);
    let m3 = m2 + opt_text_member("voice"@, r.voice);
    lemma_next_text(m2, "voice"@, r.voice);
    let m4 = m3 + opt_text_member("response_format"@, r.response_format);
    lemma_next_text(m3, "response_format"@, r.response_format);
    let m5 = m4 + opt_raw_member("speed"@, r.speed);
    lemma_next_raw(m4, "speed"@, r.speed);
    let m6 = m5 + opt_text_member("task_type"@, r.task_type);
    lemma_next_text(m5, "task_type"@, r.task_type);
    let m7 = m6 + opt_text_member("language"@, r.language);
    lemma_next_text(m6, "language"@, r.language);
    let m8 = m7 + opt_text_member("instructions"@, r.instructions);
    lemma_next_text(m7, "instructions"@, r.instructions);
    let m9 = m8 + opt_number_member("max_new_tokens"@, r.max_new_tokens);
    lemma_next_number(m8, "max_new_tokens"@, r.max_new_tokens);
    let m10 = m9 + opt_number_member("initial_codec_chunk_frames"@, r.initial_codec_chunk_frames);
    lemma_next_number(m9, "initial_codec_chunk_frames"@, r.initial_codec_chunk_frames);
    let m11 = m10 + opt_bool_member("non_streaming_mode"@, r.non_streaming_mode);
    lemma_next_truth(m10, "non_streaming_mode"@, r.non_streaming_mode);
    let m12 = m11 + opt_bool_member("stream"@, r.stream);
    lemma_next_truth(m11, "stream"@, r.stream);
    let m13 = m12 + opt_text_member("stream_format"@, r.stream_format);
    lemma_next_text(m12, "stream_format"@, r.stream_format);
    let m14 = m13 + opt_text_member("ref_audio"@, r.ref_audio);
    lemma_next_text(m13, "ref_audio"@, r.ref_audio);
    let m15 = m14 + opt_text_member("ref_text"@, r.ref_text);
    lemma_next_text(m14, "ref_text"@, r.ref_text);
    let m16 = m15 + opt_bool_member("x_vector_only_mode"@, r.x_vector_only_mode);
    lemma_next_truth(m15, "x_vector_only_mode"@, r.x_vector_only_mode);
    lemma_next_number(m16, "sample_rate"@, r.sample_rate);
}

/// The frame that sets up a connection holds every setting that is there under its own name; a
/// voice or a rate that the client asks for takes the place of the configured one.
pub proof fn law_session_frame_says_everything(
    c: TtsWsConfig,
    voice: Option<Seq<char>>,
    sample_rate: Option<u32>,
)
    ensures
        object_text(c.session_members(voice, sample_rate)) == frame(
            first_member("type"@, json_string("session.config"@)) + next_option(
                "voice"@,
                text_value(
                    if voice is Some {
                        voice
                    } else {
                        opt_view(c.voice)
                    },
                ),
            ) + next_option("task_type"@, text_value(opt_view(c.task_type))) + next_option(
                "language"@,
                text_value(opt_view(c.language)),
            ) + next_option("instructions"@, text_value(opt_view(c.instructions))) + next_member(
                "response_format"@,
                json_string(c.response_format@),
            ) + next_option("speed"@, opt_view(c.speed)) + next_option(
                "ref_audio"@,
                text_value(opt_view(c.ref_audio)),
            ) + next_option("ref_text"@, text_value(opt_view(c.ref_text))) + next_option(
                "max_new_tokens"@,
                number_value(c.max_new_tokens),
            ) + next_option(
                "stream_audio"@,
                if c.stream_audio {
                    Some("true"@)
                } else {
                    None
                },
            ) + next_option(
                "sample_rate"@,
                number_value(
                    if sample_rate is Some {
                        sample_rate
                    } else {
                        c.sample_rate
                    },
                ),
            ),
        ),
{
    let v = or_else(voice, opt_view(c.voice));
    let rate = or_else(sample_rate, c.sample_rate);
    let audio = if c.stream_audio {
        Some(true)
    } else {
        None
    };
    let m1 = text_member("type"@, "session.config"@);
    lemma_first("type"@, json_string("session.config"@));
    let m2 = m1 + opt_text_member("voice"@, v);
    lemma_next_text(m1, "voice"@, v);
    let m3 = m2 + opt_text_member("task_type"@, opt_view(c.task_type));
    lemma_next_text(m2, "task_type"@, opt_view(c.task_type));
    let m4 = m3 + opt_text_member("language"@, opt_view(c.language));
    lemma_next_text(m3, "language"@, opt_view(c.language));
    let m5 = m4 + opt_text_member("instructions"@, opt_view(c.instructions));
    lemma_next_text(m4, "instructions"@, opt_view(c.instructions));
    let m6 = m5 + text_member("response_format"@, c.response_format@);
    lemma_next(m5, "response_format"@, json_string(c.response_format@));
    let m7 = m6 + opt_raw_member("speed"@, opt_view(c.speed));
    lemma_next_raw(m6, "speed"@, opt_view(c.speed));
    let m8 = m7 + opt_text_member("ref_audio"@, opt_view(c.ref_audio));
    lemma_next_text(m7, "ref_audio"@, opt_view(c.ref_audio));
    let m9 = m8 + opt_text_member("ref_text"@, opt_view(c.ref_text));
    lemma_next_text(m8, "ref_text"@, opt_view(c.ref_text));
    let m10 = m9 + opt_number_member("max_new_tokens"@, c.max_new_tokens);
    lemma_next_number(m9, "max_new_tokens"@, c.max_new_tokens);
    let m11 = m10 + opt_bool_member("stream_audio"@, audio);
    lemma_next_truth(m10, "stream_audio"@, audio);
    lemma_next_number(m11, "sample_rate"@, rate);
}

/// A frame that carries text carries it as it is; a frame of control only says what it is.
pub proof fn law_text_frame_carries_the_text(text: Seq<char>, kind: Seq<char>)
    ensures
        input_text_json(text) == frame(
            first_member("type"@, json_string("input.text"@)) + next_member("text"@, json_string(text)),
        ),
        control_json(kind) == frame(first_member("type"@, json_string(kind))),
{
    let m1 = text_member("type"@, "input.text"@);
    lemma_first("type"@, json_string("input.text"@));
    lemma_next(m1, "text"@, json_string(text));
    lemma_first("type"@, json_string(kind));
}

// ---- recognition ----

/// The numbers of an array are written one after the other.
pub proof fn law_numbers_are_written_in_order(v: Seq<u32>, n: u32)
    ensures
        numbers_json(Seq::empty()) == seq!['[', ']'],
        numbers_json(seq![n]) == seq!['['] + decimal(n as nat) + seq![']'],
        v.len() > 0 ==> numbers_json(v.push(n)) == numbers_json(v).drop_last() + seq![','] + decimal(
            n as nat,
        ) + seq![']'],
{
    let text = |s: Seq<u32>| Seq::new(s.len(), |i: int| decimal(s[i] as nat));
    assert(text(Seq::empty()) =~= Seq::<Seq<char>>::empty());
    assert(numbers_json(Seq::empty()) =~= seq!['[', ']']);
    assert(text(seq![n]) =~= seq![decimal(n as nat)]);
    if v.len() > 0 {
        assert(text(v.push(n)).drop_last() =~= text(v));
        assert(text(v.push(n)).last() == decimal(n as nat));
        assert(numbers_json(v.push(n)) =~= numbers_json(v).drop_last() + seq![','] + decimal(n as nat)
            + seq![']']);
    }
}

/// The frame that opens a session of recognition says that speech begins, and holds every setting
/// under its own name.
pub proof fn law_first_frame_says_everything(c: FunasrConfig)
    ensures
        object_text(first_frame_members(&c)) == frame(
            first_member("audio_fs"@, decimal(c.sample_rate as nat)) + next_option(
                "chunk_size"@,
                chunk_json(c.chunk_size),
            ) + next_option("hotwords"@, text_value(opt_view(c.hotwords))) + next_member(
                "is_speaking"@,
                "true"@,
            ) + next_member("itn"@, truth_value(c.itn)) + next_member(
                "mode"@,
                json_string(c.mode.name_spec()),
            ) + next_member("svs_itn"@, truth_value(c.svs_itn)) + next_option(
                "svs_lang"@,
                text_value(opt_view(c.svs_lang)),
            ) + next_member("wav_format"@, json_string(c.wav_format@)) + next_member(
                "wav_name"@,
                json_string(c.wav_name@),
            ),
        ),
{
    let m1 = number_member("audio_fs"@, c.sample_rate as nat);
    lemma_first("audio_fs"@, decimal(c.sample_rate as nat));
    let m2 = m1 + opt_raw_member("chunk_size"@, chunk_json(c.chunk_size));
    lemma_next_raw(m1, "chunk_size"@, chunk_json(c.chunk_size));
    let m3 = m2 + opt_text_member("hotwords"@, opt_view(c.hotwords));
    lemma_next_text(m2, "hotwords"@, opt_view(c.hotwords));
    let m4 = m3 + bool_member("is_speaking"@, true);
    lemma_next(m3, "is_speaking"@, "true"@);
    let m5 = m4 + bool_member("itn"@, c.itn);
    lemma_next(m4, "itn"@, truth_value(c.itn));
    let m6 = m5 + text_member("mode"@, c.mode.name_spec());
    lemma_next(m5, "mode"@, json_string(c.mode.name_spec()));
    let m7 = m6 + bool_member("svs_itn"@, c.svs_itn);
    lemma_next(m6, "svs_itn"@, truth_value(c.svs_itn));
    let m8 = m7 + opt_text_member("svs_lang"@, opt_view(c.svs_lang));
    lemma_next_text(m7, "svs_lang"@, opt_view(c.svs_lang));
    let m9 = m8 + text_member("wav_format"@, c.wav_format@);
    lemma_next(m8, "wav_format"@, json_string(c.wav_format@));
    lemma_next(m9, "wav_name"@, json_string(c.wav_name@));
}

/// What the browser is told of streamed recognition: the words as they were recognised, whether
/// they may still change or not, and everything else by its own name.
pub proof fn law_browser_is_told_the_words(e: RealtimeView, text: Seq<char>)
    ensures
        event_line(RealtimeView::Partial(text)) == frame(
            first_member("text"@, json_string(text)) + next_member("type"@, json_string("partial"@)),
        ),
        event_line(RealtimeView::Final(text)) == frame(
            first_member("text"@, json_string(text)) + next_member("type"@, json_string("final"@)),
        ),
        event_line(RealtimeView::SpeechStarted) == frame(
            first_member("type"@, json_string("speech_started"@)),
        ),
        event_line(RealtimeView::SpeechStopped) == frame(
            first_member("type"@, json_string("speech_stopped"@)),
        ),
        event_line(RealtimeView::Finished) == frame(
            first_member("type"@, json_string("finished"@)),
        ),
        failure_line(text) == frame(
            first_member("message"@, json_string(text)) + next_member("type"@, json_string("error"@)),
        ),
        started_line(text) == frame(
            first_member("session_id"@, json_string(text)) + next_member(
                "type"@,
                json_string("started"@),
            ),
        ),
{
    lemma_first("text"@, json_string(text));
    lemma_next(text_member("text"@, text), "type"@, json_string("partial"@));
    lemma_next(text_member("text"@, text), "type"@, json_string("final"@));
    lemma_first("type"@, json_string("speech_started"@));
    lemma_first("type"@, json_string("speech_stopped"@));
    lemma_first("type"@, json_string("finished"@));
    lemma_first("message"@, json_string(text));
    lemma_next(text_member("message"@, text), "type"@, json_string("error"@));
    lemma_first("session_id"@, json_string(text));
    lemma_next(text_member("session_id"@, text), "type"@, json_string("started"@));
}

// ---- memory ----

/// A message is stored with its role and its content.
pub proof fn law_message_is_stored_whole(m: Said)
    ensures
        object_text(message_members(m)) == frame(
            first_member(
                "role"@,
                json_string(
                    match m.role {
                        Role::System => "System"@,
                        Role::User => "User"@,
                        Role::Assistant => "Assistant"@,
                    },
                ),
            ) + next_member("content"@, json_string(m.content)),
        ),
{
    lemma_first("role"@, json_string(m.role.stored_spec()));
    lemma_next(text_member("role"@, m.role.stored_spec()), "content"@, json_string(m.content));
}

} // verus!

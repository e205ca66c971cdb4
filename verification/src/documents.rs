//! What is understood of the documents that the services send: every field that is there is found
//! under its name, wherever it stands, and means what it says.

use vstd::prelude::*;
use vstd::utf8::encode_utf8;

use crate::config::authorization_spec;
use crate::funasr::{frame_names, frame_of, server_event_spec};
use crate::handshake::{first_bad, keyed_failure, ws_address};
use crate::json::NodeView;
use crate::llm::{
    choice_output, choice_view, chunk_names, chunk_parts, done_payload, first_choice, payload_result,
    response_parts, response_result, words_names, words_view, ChatUsage, Part,
};
use crate::memory::{law_roles_are_read_back, stored_message, stored_messages, Role, Said};
use crate::record::{after_space, array_elements, field_in, object_members, required_text, value_of};
use crate::string_map::{header_name_ok, header_value_ok};
use crate::text::trim_spec;
use crate::tts::{all_texts, listed_voices, speech_parts};
use crate::tts_ws::{
    control_frame_spec, control_names, law_frames_have_names, place_from, pool_ok, remove_spec,
    PoolState, ServerView,
};

verus! {

/// The value of a field of an object, where the field is there; nothing where the document is no
/// object or has the field twice.
pub open spec fn field_of(d: Seq<u8>, name: Seq<char>) -> Option<Option<Seq<u8>>> {
    match object_members(d) {
        Some(ms) => field_in(ms, name),
        None => None,
    }
}

/// The field is there, and it is this text.
pub open spec fn says_text(d: Seq<u8>, name: Seq<char>, text: Seq<char>) -> bool {
    field_of(d, name) matches Some(Some(v)) && value_of(v) == Some(NodeView::Text(text))
}

/// The field is there, and it is this truth value.
pub open spec fn says_truth(d: Seq<u8>, name: Seq<char>, b: bool) -> bool {
    field_of(d, name) matches Some(Some(v)) && value_of(v) == Some(NodeView::Bool(b))
}

/// The object does not have the field.
pub open spec fn lacks(d: Seq<u8>, name: Seq<char>) -> bool {
    field_of(d, name) == Some(None::<Seq<u8>>)
}

/// Words of the model: content alone.
pub open spec fn says_content(w: Seq<u8>, text: Seq<char>) -> bool {
    says_text(w, "content"@, text) && lacks(w, "refusal"@) && lacks(w, "reasoning_content"@)
}

/// A piece of a streamed answer is the content of its first choice, and the last one is the one
/// that gives a reason for the end.
pub proof fn law_streamed_words_are_understood(
    d: Seq<u8>,
    v: Seq<u8>,
    cs: Seq<Seq<u8>>,
    w: Seq<u8>,
    text: Seq<char>,
    reason: Seq<char>,
)
    requires
        lacks(d, "id"@),
        lacks(d, "created"@),
        lacks(d, "model"@),
        lacks(d, "usage"@),
        field_of(d, "choices"@) == Some(Some(v)),
        array_elements(v) == Some(cs),
        cs.len() > 0,
        forall|i: int| 0 <= i < cs.len() ==> choice_view(#[trigger] cs[i], Part::Delta) is Some,
        lacks(cs[0], "index"@),
        field_of(cs[0], "delta"@) == Some(Some(w)),
        lacks(cs[0], "finish_reason"@) || says_text(cs[0], "finish_reason"@, reason),
        says_content(w, text),
    ensures
        payload_result(d) matches Ok(Some(o)) && o.delta == text && o.is_final == !lacks(
            cs[0],
            "finish_reason"@,
        ) && o.usage is None && o.reasoning_content is None,
{
    let done = done_payload();
    assert(after_space(done) == done);
    assert(d != done);
    let words = words_view(w, !lacks(cs[0], "finish_reason"@));
    assert(words_names()[0] == "content"@);
    assert(words is Some);
    let names = seq!["index"@, "delta"@, "finish_reason"@];
    assert(names[0] == "index"@ && names[1] == "delta"@ && names[2] == "finish_reason"@);
    assert(choice_view(cs[0], Part::Delta) == words);
    assert(first_choice(cs, Part::Delta) == Some(words));
    let all = chunk_names();
    assert(all[0] == "id"@ && all[1] == "created"@ && all[2] == "model"@ && all[3] == "choices"@
        && all[4] == "usage"@);
    assert(chunk_parts(d) == Some((words, None::<ChatUsage>)));
}

/// A whole answer is the content of its first choice and is complete.
pub proof fn law_whole_answer_is_understood(
    d: Seq<u8>,
    v: Seq<u8>,
    c: Seq<u8>,
    w: Seq<u8>,
    text: Seq<char>,
)
    requires
        field_of(d, "choices"@) == Some(Some(v)),
        lacks(d, "usage"@),
        array_elements(v) == Some(seq![c]),
        field_of(c, "message"@) == Some(Some(w)),
        says_content(w, text),
    ensures
        response_result(d) matches Ok(o) && o.delta == text && o.is_final && o.usage is None,
{
    let vs = seq![c];
    assert(vs[0] == c);
    assert(words_names()[0] == "content"@);
    let words = words_view(w, true);
    assert(words is Some);
    let one = seq!["message"@];
    assert(one[0] == "message"@);
    assert(choice_view(c, Part::Message) == words);
    assert(first_choice(vs, Part::Message) == Some(words));
    let names = seq!["choices"@, "usage"@];
    assert(names[0] == "choices"@ && names[1] == "usage"@);
    assert(response_parts(d) == Some((words, None::<ChatUsage>)));
}

/// Where a model says something and declines as well, both are heard, what it says first.
pub proof fn law_words_and_refusal_are_heard(
    w: Seq<u8>,
    text: Seq<char>,
    refusal: Seq<char>,
    thoughts: Seq<char>,
    finished: bool,
)
    requires
        says_text(w, "content"@, text),
        says_text(w, "refusal"@, refusal),
        says_text(w, "reasoning_content"@, thoughts),
        text.len() > 0,
        refusal.len() > 0,
        trim_spec(thoughts).len() > 0,
    ensures
        words_view(w, finished) matches Some(c) && choice_output(c, None).delta == text + seq!['\n']
            + refusal && choice_output(c, None).reasoning_content == Some(thoughts) && choice_output(
            c,
            None,
        ).is_final == finished,
{
    let names = words_names();
    assert(names[0] == "content"@ && names[1] == "refusal"@ && names[2] == "reasoning_content"@);
}

/// A frame of live recognition is its mode, its text and whether the sentence has ended.
pub proof fn law_recognised_frame_is_understood(
    d: Seq<u8>,
    mode: Seq<char>,
    text: Seq<char>,
    is_final: bool,
)
    requires
        says_text(d, "mode"@, mode),
        says_text(d, "text"@, text),
        says_truth(d, "is_final"@, is_final),
        lacks(d, "wav_name"@),
        lacks(d, "timestamp"@),
        lacks(d, "stamp_sents"@),
    ensures
        frame_of(d) == Some((mode, text, is_final)),
        mode.len() > 0 ==> (server_event_spec(d) matches Ok(Some(r)) && r.text == text && r.is_final
            == is_final),
{
    let names = frame_names();
    assert(names[0] == "mode"@ && names[1] == "text"@ && names[2] == "is_final"@ && names[3]
        == "wav_name"@ && names[4] == "timestamp"@ && names[5] == "stamp_sents"@);
}

/// A frame of control means what its type says; an error carries its message.
pub proof fn law_control_frame_is_understood(text: Seq<char>, message: Seq<char>)
    requires
        lacks(encode_utf8(text), "error"@),
    ensures
        ({
            let d = encode_utf8(text);
            &&& says_text(d, "type"@, "session.done"@) && lacks(d, "message"@) ==> control_frame_spec(text)
                == Ok::<ServerView, Seq<char>>(ServerView::SessionDone)
            &&& says_text(d, "type"@, "audio.start"@) && lacks(d, "message"@) ==> control_frame_spec(text)
                == Ok::<ServerView, Seq<char>>(ServerView::AudioStart)
            &&& says_text(d, "type"@, "error"@) && says_text(d, "message"@, message)
                ==> control_frame_spec(text) == Ok::<ServerView, Seq<char>>(ServerView::Error(message))
        }),
{
    let d = encode_utf8(text);
    let names = control_names();
    assert(names[0] == "type"@ && names[1] == "error"@ && names[2] == "message"@);
    law_frames_have_names(text, false, message);
}

/// A stored message is its role and its content.
pub proof fn law_stored_message_is_understood(document: Seq<char>, role: Role, content: Seq<char>)
    requires
        says_text(encode_utf8(document), "role"@, role.stored_spec()),
        says_text(encode_utf8(document), "content"@, content),
    ensures
        stored_message(document) == Some(Said { role, content }),
{
    law_roles_are_read_back(role);
    let names = seq!["role"@, "content"@];
    assert(names[0] == "role"@ && names[1] == "content"@);
}

/// In storage the newest message comes first; what is read is in the order in which it was said, and
/// what cannot be read is passed over.
pub proof fn law_stored_list_is_read_from_its_end(list: Seq<Seq<char>>, newest: Seq<char>)
    ensures
        stored_message(newest) matches Some(m) ==> stored_messages(seq![newest] + list)
            == stored_messages(list).push(m),
        stored_message(newest) is None ==> stored_messages(seq![newest] + list) == stored_messages(list),
        stored_messages(Seq::empty()).len() == 0,
{
    let all = seq![newest] + list;
    assert(all.drop_first() =~= list);
    assert(all[0] == newest);
}

/// The voices of a list are its texts, in order; without a list there are none.
pub proof fn law_listed_voices_are_understood(d: Seq<u8>, v: Seq<u8>, vs: Seq<Seq<u8>>, names: Seq<Seq<char>>)
    requires
        lacks(d, "voices"@) || (field_of(d, "voices"@) == Some(Some(v)) && array_elements(v) == Some(vs)),
        vs.len() == names.len(),
        forall|i: int|
            0 <= i < vs.len() ==> value_of(#[trigger] vs[i]) == Some(NodeView::Text(names[i])),
    ensures
        lacks(d, "voices"@) ==> listed_voices(d) == Some(Seq::<Seq<char>>::empty()),
        !lacks(d, "voices"@) ==> listed_voices(d) == Some(names),
{
    let one = seq!["voices"@];
    assert(one[0] == "voices"@);
    if !lacks(d, "voices"@) {
        assert(forall|i: int|
            0 <= i < vs.len() ==> required_text(Some(#[trigger] vs[i])) == Some(names[i]));
        assert(all_texts(vs)->0 =~= names);
    }
}

/// A document of streamed speech is its audio, or the message of its failure.
pub proof fn law_speech_document_is_understood(
    d: Seq<u8>,
    e: Seq<u8>,
    audio: Seq<char>,
    message: Seq<char>,
)
    ensures
        says_text(d, "audio"@, audio) && lacks(d, "error"@) ==> speech_parts(d) == Some(
            (Some(audio), None::<Seq<char>>),
        ),
        lacks(d, "audio"@) && field_of(d, "error"@) == Some(Some(e)) && value_of(e) != Some(
            NodeView::Null,
        ) && says_text(e, "message"@, message) ==> speech_parts(d) == Some(
            (None::<Seq<char>>, Some(message)),
        ),
{
    let names = seq!["audio"@, "error"@];
    assert(names[0] == "audio"@ && names[1] == "error"@);
    let one = seq!["message"@];
    assert(one[0] == "message"@);
}

/// A handshake with a key is refused exactly where its address is none, its key cannot be sent, or
/// one of its headers cannot.
pub proof fn law_handshake_is_refused_for_cause(
    url: Seq<char>,
    key: Option<Seq<char>>,
    pairs: Seq<(String, String)>,
)
    ensures
        keyed_failure(url, key, pairs) is Some <==> ws_address(url) is Err || (key matches Some(k)
            && !header_value_ok(authorization_spec(k))) || exists|i: int|
            0 <= i < pairs.len() && (!header_name_ok((#[trigger] pairs[i]).0@) || !header_value_ok(
                pairs[i].1@,
            )),
{
    lemma_first_bad(pairs, 0);
}

proof fn lemma_first_bad(pairs: Seq<(String, String)>, from: int)
    requires
        0 <= from,
    ensures
        first_bad(pairs, from) is Some <==> exists|i: int|
            from <= i < pairs.len() && (!header_name_ok((#[trigger] pairs[i]).0@) || !header_value_ok(
                pairs[i].1@,
            )),
    decreases pairs.len() - from,
{
    if from < pairs.len() {
        lemma_first_bad(pairs, from + 1);
        if !header_name_ok(pairs[from].0@) || !header_value_ok(pairs[from].1@) {
            assert(first_bad(pairs, from) is Some);
        }
    }
}

/// A connection that is removed is gone, and every other one stays as it is, in its order.
pub proof fn law_removed_connection_is_gone(p: PoolState, id: u64, i: int)
    requires
        pool_ok(p),
        0 <= i < p.conns.len(),
    ensures
        forall|k: int| 0 <= k < remove_spec(p, id).conns.len() ==> (#[trigger] remove_spec(p, id).conns[k]).id
            != id,
        p.conns[i].id != id ==> remove_spec(p, id).conns.contains(p.conns[i]),
        remove_spec(p, id).max == p.max,
        remove_spec(p, id).next_id == p.next_id,
{
    lemma_place(p, id, 0);
    let q = remove_spec(p, id);
    match place_from(p.conns, id, 0) {
        Some(n) => {
            if p.conns[i].id != id {
                if i < n {
                    assert(q.conns[i] == p.conns[i]);
                } else {
                    assert(q.conns[i - 1] == p.conns[i]);
                }
            }
            assert forall|k: int| 0 <= k < q.conns.len() implies (#[trigger] q.conns[k]).id != id by {
                if k < n {
                    assert(q.conns[k] == p.conns[k]);
                } else {
                    assert(q.conns[k] == p.conns[k + 1]);
                }
            }
        },
        None => {
            assert(q.conns[i] == p.conns[i]);
        },
    }
}

proof fn lemma_place(p: PoolState, id: u64, from: int)
    requires
        0 <= from,
    ensures
        match place_from(p.conns, id, from) {
            Some(n) => from <= n < p.conns.len() && p.conns[n].id == id && forall|k: int|
                from <= k < n ==> (#[trigger] p.conns[k]).id != id,
            None => forall|k: int| from <= k < p.conns.len() ==> (#[trigger] p.conns[k]).id != id,
        },
    decreases p.conns.len() - from,
{
    if from < p.conns.len() && p.conns[from].id != id {
        lemma_place(p, id, from + 1);
    }
}

} // verus!

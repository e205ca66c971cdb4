//! What a chat service is asked and what is understood of its answer: the order of a conversation,
//! the options of a request, and the pieces of an event stream.

use vstd::prelude::*;
use vstd::utf8::encode_utf8;

use crate::events::LlmItem;
use crate::json::{
    join_with_comma, json_string, member_text, members_text, object_text, plain_name, plain_names,
    text_member, text_object, Member,
};
use crate::llm::{
    chunk_output, hinted, line_item, line_result, lines_items, message_json, messages_json,
    payload_result, response_text_spec, single_turn, ChatUsage, ChoiceView, HttpLlmClient,
    MessageView, OutputView,
};
use crate::record::{
    after_space, array_elements, closed_value, elements_at, followed_by, json_first, lemma_ascii,
    reads_first,
};
use crate::text::{decimal, lemma_encode_concat, opt_view, trim_spec};

verus! {

// ---- the request ----

/// A message as it is written: an object of its role and its content.
pub open spec fn written_message(m: MessageView) -> Seq<char> {
    seq!['{', '"'] + "role"@ + seq!['"', ':'] + json_string(m.role) + seq![',', '"'] + "content"@ + seq![
        '"',
        ':',
    ] + json_string(m.content) + seq!['}']
}

proof fn lemma_join_two(a: Seq<char>, b: Seq<char>)
    ensures
        join_with_comma(seq![a, b]) == a + seq![','] + b,
        join_with_comma(seq![a]) == a,
{
    assert(join_with_comma(seq![a]) == a);
    assert(seq![a, b].drop_last() =~= seq![a]);
}

proof fn lemma_written_message(m: MessageView)
    ensures
        message_json(m) == written_message(m),
{
    let role = Member { name: "role"@, value: json_string(m.role) };
    let content = Member { name: "content"@, value: json_string(m.content) };
    let members = seq![role] + seq![content];
    assert(members_text(members) =~= seq![member_text(role), member_text(content)]);
    lemma_join_two(member_text(role), member_text(content));
    assert(message_json(m) =~= written_message(m));
}

/// A conversation is written message by message in the order in which it was held: one more
/// message stands behind all the others, as an object of its role and its content.
pub proof fn law_conversation_is_written_in_order(ms: Seq<MessageView>, m: MessageView)
    ensures
        messages_json(Seq::empty()) == seq!['[', ']'],
        messages_json(seq![m]) == seq!['['] + written_message(m) + seq![']'],
        ms.len() > 0 ==> messages_json(ms.push(m)) == messages_json(ms).drop_last() + seq![',']
            + written_message(m) + seq![']'],
{
    let text = |v: Seq<MessageView>| Seq::new(v.len(), |i: int| message_json(v[i]));
    lemma_written_message(m);
    assert(text(Seq::empty()) =~= Seq::<Seq<char>>::empty());
    assert(messages_json(Seq::empty()) =~= seq!['[', ']']);
    assert(text(seq![m]) =~= seq![message_json(m)]);
    if ms.len() > 0 {
        let parts = text(ms);
        let all = text(ms.push(m));
        assert(all.drop_last() =~= parts);
        assert(all.last() == message_json(m));
        assert(join_with_comma(all) == join_with_comma(parts) + seq![','] + message_json(m));
        assert(messages_json(ms.push(m)) =~= messages_json(ms).drop_last() + seq![',']
            + written_message(m) + seq![']']);
    }
}

/// The last message of a request is the last of the conversation.
pub proof fn law_question_comes_last(ms: Seq<MessageView>)
    requires
        ms.len() > 0,
    ensures
        exists|before: Seq<char>|
            messages_json(ms) == #[trigger] (before + (written_message(ms.last()) + seq![']'])),
{
    let m = ms.last();
    let before = ms.drop_last();
    assert(before.push(m) =~= ms);
    law_conversation_is_written_in_order(before, m);
    if before.len() == 0 {
        assert(ms =~= seq![m]);
        assert(messages_json(ms) =~= seq!['['] + (written_message(m) + seq![']']));
    } else {
        let front = messages_json(before).drop_last() + seq![','];
        assert(messages_json(ms) =~= front + (written_message(m) + seq![']']));
    }
}

/// `serde_json` reads to its end every value that was written here, whatever follows it.
pub open spec fn values_are_read() -> bool {
    forall|s: Seq<u8>| #[trigger] reads_first(s, json_first(s))
}

/// What an array is written as from its value `k` on.
pub open spec fn array_from(values: Seq<Seq<char>>, k: int) -> Seq<char>
    decreases values.len() - k,
{
    if 0 <= k < values.len() - 1 {
        values[k] + (seq![','] + array_from(values, k + 1))
    } else {
        values[k] + seq![']']
    }
}

proof fn lemma_array_from(values: Seq<Seq<char>>, k: int)
    requires
        0 <= k < values.len(),
    ensures
        join_with_comma(values) + seq![']'] == (if k > 0 {
            join_with_comma(values.take(k)) + seq![',']
        } else {
            Seq::empty()
        }) + array_from(values, k),
    decreases values.len() - k,
{
    let front = join_with_comma(values.take(k));
    let longer = values.take(k + 1);
    assert(longer.drop_last() =~= values.take(k));
    assert(longer.last() == values[k]);
    if k == 0 {
        assert(longer =~= seq![values[0]]);
    }
    if k < values.len() - 1 {
        lemma_array_from(values, k + 1);
        let next = array_from(values, k + 1);
        if k > 0 {
            assert(join_with_comma(longer) + seq![','] + next =~= front + seq![','] + (values[k] + (seq![
                ',',
            ] + next)));
        } else {
            assert(join_with_comma(longer) + seq![','] + next =~= Seq::<char>::empty() + (values[k] + (
            seq![','] + next)));
        }
    } else {
        assert(longer =~= values);
        if k > 0 {
            assert(join_with_comma(values) + seq![']'] =~= front + seq![','] + (values[k] + seq![']']));
        } else {
            assert(join_with_comma(values) + seq![']'] =~= Seq::<char>::empty() + (values[k] + seq![
                ']',
            ]));
        }
    }
}

/// The bytes of some texts.
pub open spec fn encoded(values: Seq<Seq<char>>) -> Seq<Seq<u8>> {
    Seq::new(values.len(), |i: int| encode_utf8(values[i]))
}

proof fn lemma_elements_are_read(values: Seq<Seq<char>>, k: int)
    requires
        values_are_read(),
        0 <= k < values.len(),
        forall|i: int|
            0 <= i < values.len() ==> closed_value(#[trigger] values[i]) && values[i].len() > 0
                && values[i][0] == '{',
    ensures
        elements_at(encode_utf8(array_from(values, k))) == Some(
            (encoded(values).skip(k), Seq::<u8>::empty()),
        ),
    decreases values.len() - k,
{
    let value = values[k];
    let last = k == values.len() - 1;
    let behind = if last {
        seq![']']
    } else {
        seq![','] + array_from(values, k + 1)
    };
    let s = encode_utf8(array_from(values, k));
    let rest = encode_utf8(behind);
    lemma_encode_concat(value, behind);
    assert(s == followed_by(value, rest));
    assert(closed_value(value));
    assert(reads_first(s, json_first(s)));
    let v = encode_utf8(value);
    assert(s.take(v.len() as int) =~= v);
    assert(s.skip(v.len() as int) =~= rest);
    lemma_ascii(',');
    lemma_ascii(']');
    assert(seq![',' as u8] =~= seq![0x2Cu8]);
    assert(seq![']' as u8] =~= seq![0x5Du8]);
    assert(v == encoded(values)[k]);
    lemma_value_takes_room(value);
    if last {
        assert(rest == seq![0x5Du8]);
        assert(after_space(rest) == rest);
        assert(rest.skip(1) =~= Seq::<u8>::empty());
        assert(encoded(values).skip(k) =~= seq![v]);
    } else {
        let next = encode_utf8(array_from(values, k + 1));
        lemma_encode_concat(seq![','], array_from(values, k + 1));
        assert(rest =~= seq![0x2Cu8] + next);
        assert(after_space(rest) == rest);
        assert(rest.skip(1) =~= next);
        lemma_elements_are_read(values, k + 1);
        assert(seq![v] + encoded(values).skip(k + 1) =~= encoded(values).skip(k));
    }
}

/// An object takes up at least one byte.
proof fn lemma_value_takes_room(value: Seq<char>)
    requires
        value.len() > 0,
        value[0] == '{',
    ensures
        encode_utf8(value).len() > 0,
        encode_utf8(value)[0] == 0x7B,
{
    let rest = value.skip(1);
    assert(value =~= seq!['{'] + rest);
    lemma_encode_concat(seq!['{'], rest);
    lemma_ascii('{');
    assert(seq!['{' as u8] =~= seq![0x7Bu8]);
}

proof fn lemma_message_is_closed(m: MessageView)
    ensures
        closed_value(message_json(m)),
        message_json(m).len() > 0,
        message_json(m)[0] == '{',
{
    let pairs = seq![("role"@, m.role), ("content"@, m.content)];
    reveal_strlit("role");
    reveal_strlit("content");
    assert("role"@.len() != "content"@.len());
    assert(plain_name("role"@));
    assert(plain_name("content"@));
    assert(plain_names(pairs));
    let role = Member { name: "role"@, value: json_string(m.role) };
    let content = Member { name: "content"@, value: json_string(m.content) };
    assert(Seq::new(
        pairs.len(),
        |i: int| Member { name: pairs[i].0, value: json_string(pairs[i].1) },
    ) =~= seq![role] + seq![content]);
    assert(message_json(m) == text_object(pairs));
}

/// The messages of a request, read back, are the messages of the conversation: as many elements,
/// and each is the object of the role and the content of the message in its place.
pub proof fn law_conversation_is_read_back(ms: Seq<MessageView>)
    requires
        values_are_read(),
    ensures
        array_elements(encode_utf8(messages_json(ms))) matches Some(elements) && elements.len()
            == ms.len() && forall|i: int|
            0 <= i < ms.len() ==> #[trigger] elements[i] == encode_utf8(written_message(ms[i])),
{
    let values = Seq::new(ms.len(), |i: int| message_json(ms[i]));
    let d = encode_utf8(messages_json(ms));
    lemma_ascii('[');
    lemma_ascii(']');
    assert(seq!['[' as u8] =~= seq![0x5Bu8]);
    assert(seq![']' as u8] =~= seq![0x5Du8]);
    let inner = join_with_comma(values) + seq![']'];
    assert(messages_json(ms) =~= seq!['['] + inner);
    lemma_encode_concat(seq!['['], inner);
    let t = encode_utf8(inner);
    assert(d =~= seq![0x5Bu8] + t);
    assert(after_space(d) == d);
    assert(d.skip(1) =~= t);
    if ms.len() == 0 {
        assert(values =~= Seq::<Seq<char>>::empty());
        assert(inner =~= seq![']']);
        assert(t == seq![0x5Du8]);
        assert(after_space(t) == t);
        assert(t.skip(1) =~= Seq::<u8>::empty());
    } else {
        assert forall|i: int| 0 <= i < values.len() implies closed_value(#[trigger] values[i])
            && values[i].len() > 0 && values[i][0] == '{' by {
            lemma_message_is_closed(ms[i]);
        }
        lemma_array_from(values, 0);
        assert(inner =~= array_from(values, 0));
        lemma_elements_are_read(values, 0);
        let text = array_from(values, 0);
        assert(closed_value(values[0]));
        assert(text[0] == values[0][0]);
        lemma_value_takes_room(text);
        assert(after_space(t) == t);
        assert(encoded(values).skip(0) =~= encoded(values));
        assert forall|i: int| 0 <= i < ms.len() implies #[trigger] encoded(values)[i] == encode_utf8(
            written_message(ms[i]),
        ) by {
            lemma_written_message(ms[i]);
        }
    }
}

/// A member as it is written behind others.
pub open spec fn next_member(name: Seq<char>, value: Seq<char>) -> Seq<char> {
    seq![',', '"'] + name + seq!['"', ':'] + value
}

/// A member that is left out where there is no value.
pub open spec fn next_option(name: Seq<char>, value: Option<Seq<char>>) -> Seq<char> {
    match value {
        Some(v) => next_member(name, v),
        None => Seq::empty(),
    }
}

/// The members of an object, each behind the one before it.
pub open spec fn members_behind(members: Seq<Member>) -> Seq<char>
    decreases members.len(),
{
    if members.len() == 0 {
        Seq::empty()
    } else {
        members_behind(members.drop_last()) + next_member(members.last().name, members.last().value)
    }
}

pub proof fn lemma_members_behind(first: Member, members: Seq<Member>)
    ensures
        join_with_comma(members_text(seq![first] + members)) == member_text(first) + members_behind(
            members,
        ),
    decreases members.len(),
{
    let all = seq![first] + members;
    let parts = members_text(all);
    if members.len() == 0 {
        assert(parts =~= seq![member_text(first)]);
        assert(member_text(first) + members_behind(members) =~= member_text(first));
    } else {
        lemma_members_behind(first, members.drop_last());
        assert(all.drop_last() =~= seq![first] + members.drop_last());
        assert(parts.drop_last() =~= members_text(all.drop_last()));
        let m = members.last();
        assert(parts.last() == member_text(m));
        let front = member_text(first) + members_behind(members.drop_last());
        assert(front + seq![','] + member_text(m) =~= member_text(first) + (members_behind(
            members.drop_last(),
        ) + next_member(m.name, m.value)));
    }
}

proof fn lemma_members_behind_concat(a: Seq<Member>, b: Seq<Member>)
    ensures
        members_behind(a + b) == members_behind(a) + members_behind(b),
    decreases b.len(),
{
    if b.len() == 0 {
        assert(a + b =~= a);
        assert(members_behind(a) + members_behind(b) =~= members_behind(a));
    } else {
        lemma_members_behind_concat(a, b.drop_last());
        assert((a + b).drop_last() =~= a + b.drop_last());
        let m = b.last();
        assert(members_behind(a) + members_behind(b.drop_last()) + next_member(m.name, m.value)
            =~= members_behind(a) + (members_behind(b.drop_last()) + next_member(m.name, m.value)));
    }
}

/// A member, where there is a value for it.
pub open spec fn member_if(name: Seq<char>, value: Option<Seq<char>>) -> Seq<Member> {
    match value {
        Some(v) => seq![Member { name, value: v }],
        None => Seq::empty(),
    }
}

pub proof fn lemma_one_behind(members: Seq<Member>, name: Seq<char>, value: Option<Seq<char>>)
    ensures
        members_behind(members + member_if(name, value)) == members_behind(members) + next_option(
            name,
            value,
        ),
{
    let one = member_if(name, value);
    lemma_members_behind_concat(members, one);
    if value is Some {
        assert(one.drop_last() =~= Seq::<Member>::empty());
        assert(members_behind(one.drop_last()) =~= Seq::<char>::empty());
        assert(Seq::<char>::empty() + next_option(name, value) =~= next_option(name, value));
    }
}

/// The options of a request as they are written.
pub open spec fn written_options(c: HttpLlmClient) -> Seq<char> {
    next_option(
        "max_completion_tokens"@,
        match c.max_completion_tokens {
            Some(n) => Some(decimal(n as nat)),
            None => None,
        },
    ) + next_option("temperature"@, opt_view(c.temperature)) + next_option("top_p"@, opt_view(c.top_p))
        + next_option(
        "reasoning_effort"@,
        match c.reasoning_effort {
            Some(s) => Some(json_string(s@)),
            None => None,
        },
    ) + next_option(
        "stream_options"@,
        if c.include_usage {
            Some(seq!['{', '"'] + "include_usage"@ + seq!['"', ':'] + "true"@ + seq!['}'])
        } else {
            None
        },
    )
}

proof fn lemma_usage_option()
    ensures
        object_text(seq![Member { name: "include_usage"@, value: "true"@ }]) == seq!['{', '"']
            + "include_usage"@ + seq!['"', ':'] + "true"@ + seq!['}'],
{
    let usage = Member { name: "include_usage"@, value: "true"@ };
    lemma_members_behind(usage, Seq::empty());
    assert(seq![usage] + Seq::<Member>::empty() =~= seq![usage]);
    assert(object_text(seq![usage]) =~= seq!['{', '"'] + "include_usage"@ + seq!['"', ':'] + "true"@
        + seq!['}']);
}

proof fn lemma_seven_behind(
    n: (Seq<char>, Seq<char>, Seq<char>, Seq<char>, Seq<char>, Seq<char>, Seq<char>),
    v: (
        Option<Seq<char>>,
        Option<Seq<char>>,
        Option<Seq<char>>,
        Option<Seq<char>>,
        Option<Seq<char>>,
        Option<Seq<char>>,
        Option<Seq<char>>,
    ),
)
    ensures
        members_behind(
            member_if(n.0, v.0) + member_if(n.1, v.1) + member_if(n.2, v.2) + member_if(n.3, v.3)
                + member_if(n.4, v.4) + member_if(n.5, v.5) + member_if(n.6, v.6),
        ) == next_option(n.0, v.0) + next_option(n.1, v.1) + (next_option(n.2, v.2) + next_option(
            n.3,
            v.3,
        ) + next_option(n.4, v.4) + next_option(n.5, v.5) + next_option(n.6, v.6)),
{
    let m0 = Seq::<Member>::empty();
    let m1 = member_if(n.0, v.0);
    let m2 = m1 + member_if(n.1, v.1);
    let m3 = m2 + member_if(n.2, v.2);
    let m4 = m3 + member_if(n.3, v.3);
    let m5 = m4 + member_if(n.4, v.4);
    let m6 = m5 + member_if(n.5, v.5);
    lemma_one_behind(m0, n.0, v.0);
    assert(m0 + m1 =~= m1);
    assert(members_behind(m0) + next_option(n.0, v.0) =~= next_option(n.0, v.0));
    lemma_one_behind(m1, n.1, v.1);
    lemma_one_behind(m2, n.2, v.2);
    lemma_one_behind(m3, n.3, v.3);
    lemma_one_behind(m4, n.4, v.4);
    lemma_one_behind(m5, n.5, v.5);
    lemma_one_behind(m6, n.6, v.6);
    let a = next_option(n.0, v.0) + next_option(n.1, v.1);
    let b2 = next_option(n.2, v.2);
    let b3 = next_option(n.3, v.3);
    let b4 = next_option(n.4, v.4);
    let b5 = next_option(n.5, v.5);
    let b6 = next_option(n.6, v.6);
    assert(a + b2 + b3 + b4 + b5 + b6 =~= a + (b2 + b3 + b4 + b5 + b6));
}

/// A request names the model, holds the conversation and asks for a stream; every option that is
/// configured is in it as configured, and none that is not.
pub proof fn law_request_says_what_is_configured(c: HttpLlmClient, ms: Seq<MessageView>)
    ensures
        object_text(c.body_members(ms)) == seq!['{', '"'] + "model"@ + seq!['"', ':'] + json_string(
            c.model@,
        ) + (next_member("messages"@, messages_json(ms)) + next_member("stream"@, "true"@)
            + written_options(c)) + seq!['}'],
{
    let first = Member { name: "model"@, value: json_string(c.model@) };
    let usage = seq![Member { name: "include_usage"@, value: "true"@ }];
    lemma_usage_option();
    let n = (
        "messages"@,
        "stream"@,
        "max_completion_tokens"@,
        "temperature"@,
        "top_p"@,
        "reasoning_effort"@,
        "stream_options"@,
    );
    let v = (
        Some(messages_json(ms)),
        Some("true"@),
        match c.max_completion_tokens {
            Some(k) => Some(decimal(k as nat)),
            None => None,
        },
        opt_view(c.temperature),
        opt_view(c.top_p),
        match c.reasoning_effort {
            Some(s) => Some(json_string(s@)),
            None => None,
        },
        if c.include_usage {
            Some(object_text(usage))
        } else {
            None
        },
    );
    lemma_seven_behind(n, v);
    let rest = member_if(n.0, v.0) + member_if(n.1, v.1) + member_if(n.2, v.2) + member_if(n.3, v.3)
        + member_if(n.4, v.4) + member_if(n.5, v.5) + member_if(n.6, v.6);
    let m = text_member("model"@, c.model@);
    assert(m == seq![first]);
    assert(c.body_members(ms) =~= m + rest) by {
        lemma_regroup(
            m,
            member_if(n.0, v.0),
            member_if(n.1, v.1),
            member_if(n.2, v.2),
            member_if(n.3, v.3),
            member_if(n.4, v.4),
            member_if(n.5, v.5),
            member_if(n.6, v.6),
        );
    }
    lemma_members_behind(first, rest);
    let head = seq!['{', '"'] + "model"@ + seq!['"', ':'] + json_string(c.model@);
    assert(seq!['{'] + member_text(first) =~= head);
    assert(seq!['{'] + (member_text(first) + members_behind(rest)) =~= head + members_behind(rest));
}

proof fn lemma_regroup(
    m: Seq<Member>,
    a: Seq<Member>,
    b: Seq<Member>,
    c: Seq<Member>,
    d: Seq<Member>,
    e: Seq<Member>,
    f: Seq<Member>,
    g: Seq<Member>,
)
    ensures
        m + a + b + c + d + e + f + g == m + (a + b + c + d + e + f + g),
{
    assert(m + a + b + c + d + e + f + g =~= m + (a + b + c + d + e + f + g));
}

/// A note goes in front of a conversation and changes nothing of it: the note is the only message
/// that is added, it speaks for the system and holds the hint, and the last message stays the last.
pub proof fn law_note_goes_first(ms: Seq<MessageView>, hint: Option<Seq<char>>)
    ensures
        hint is None ==> hinted(ms, hint) == ms,
        hint matches Some(h) ==> {
            let all = hinted(ms, hint);
            &&& all.len() == ms.len() + 1
            &&& all.skip(1) == ms
            &&& all[0].role == "system"@
            &&& exists|a: Seq<char>, b: Seq<char>| all[0].content == #[trigger] (a + h + b)
        },
{
    if hint is Some {
        let all = hinted(ms, hint);
        assert(all.skip(1) =~= ms);
    }
}

/// A single question is the last thing that is said, and the user says it.
pub proof fn law_prompt_is_the_question(prompt: Seq<char>, hint: Option<Seq<char>>)
    ensures
        single_turn(prompt, hint).last() == (MessageView { role: "user"@, content: prompt }),
        hint is None ==> single_turn(prompt, hint).len() == 1,
{
    let q = seq![MessageView { role: "user"@, content: prompt }];
    law_note_goes_first(q, hint);
    let all = single_turn(prompt, hint);
    if hint is Some {
        assert(all.skip(1)[0] == all[1]);
    }
}

// ---- the answer ----

/// What a choice says is heard: its content, its refusal, or both on lines of their own, the
/// content first.
pub proof fn law_nothing_said_is_dropped(c: Seq<char>, r: Seq<char>)
    ensures
        response_text_spec(Some(c), None) == c,
        response_text_spec(None, Some(r)) == r,
        response_text_spec(None, None).len() == 0,
        c.len() == 0 ==> response_text_spec(Some(c), Some(r)) == r,
        r.len() == 0 ==> response_text_spec(Some(c), Some(r)) == c,
        c.len() > 0 && r.len() > 0 ==> response_text_spec(Some(c), Some(r)) == c + seq!['\n'] + r,
{
    if c.len() == 0 && r.len() == 0 {
        assert(c =~= r);
    }
}

/// The pieces of an answer, joined.
pub open spec fn collected(items: Seq<LlmItem>) -> Seq<char>
    decreases items.len(),
{
    if items.len() == 0 {
        Seq::empty()
    } else {
        collected(items.drop_last()) + (match items.last() {
            LlmItem::Event { delta, .. } => delta,
            _ => Seq::empty(),
        })
    }
}

/// What the lines of a stream say, joined.
pub open spec fn said_in(lines: Seq<Seq<u8>>) -> Seq<char>
    decreases lines.len(),
{
    if lines.len() == 0 {
        Seq::empty()
    } else {
        said_in(lines.drop_last()) + (match line_result(lines.last()) {
            Ok(Some(o)) => o.delta,
            _ => Seq::empty(),
        })
    }
}

/// Every piece that a stream brings is passed on, in order, as long as nothing fails: the pieces,
/// joined, are what the lines say, joined; and the end of the answer is passed on even where it
/// says nothing.
pub proof fn law_stream_is_passed_on(lines: Seq<Seq<u8>>)
    requires
        forall|i: int| 0 <= i < lines.len() ==> (line_result(#[trigger] lines[i]) is Ok),
    ensures
        !lines_items(lines).1,
        collected(lines_items(lines).0) == said_in(lines),
        (lines.len() > 0 && (line_result(lines.last()) matches Ok(Some(o)) && o.is_final)) ==> {
            let items = lines_items(lines).0;
            items.len() > 0 && (items.last() matches LlmItem::Event { is_final, .. } && is_final)
        },
    decreases lines.len(),
{
    if lines.len() > 0 {
        let before = lines.drop_last();
        assert forall|i: int| 0 <= i < before.len() implies (line_result(#[trigger] before[i]) is Ok) by {
            assert(before[i] == lines[i]);
        }
        law_stream_is_passed_on(before);
        assert(line_result(lines[lines.len() - 1]) is Ok);
        let (items, _failed) = lines_items(before);
        match line_item(lines.last()) {
            Some(item) => {
                assert(items.push(item).drop_last() =~= items);
            },
            None => {
                assert(said_in(lines) =~= said_in(before));
            },
        }
    }
}

/// The first line that cannot be read ends the stream: it is told, and nothing behind it counts.
pub proof fn law_bad_line_ends_the_stream(a: Seq<Seq<u8>>, bad: Seq<u8>, b: Seq<Seq<u8>>)
    requires
        forall|i: int| 0 <= i < a.len() ==> (line_result(#[trigger] a[i]) is Ok),
        line_result(bad) is Err,
    ensures
        ({
            let items = lines_items(a + seq![bad] + b).0;
            &&& items == lines_items(a).0.push(items.last())
            &&& items.last() is Failed
            &&& collected(items) == said_in(a)
        }),
    decreases b.len(),
{
    law_stream_is_passed_on(a);
    let all = a + seq![bad] + b;
    if b.len() == 0 {
        assert(all.drop_last() =~= a);
        assert(all.last() == bad);
        let items = lines_items(all).0;
        assert(items.drop_last() =~= lines_items(a).0);
        assert(collected(items) =~= said_in(a));
    } else {
        law_bad_line_ends_the_stream(a, bad, b.drop_last());
        assert(all.drop_last() =~= a + seq![bad] + b.drop_last());
        lemma_failed_stays(a, bad, b.drop_last());
    }
}

proof fn lemma_failed_stays(a: Seq<Seq<u8>>, bad: Seq<u8>, b: Seq<Seq<u8>>)
    requires
        line_result(bad) is Err,
    ensures
        lines_items(a + seq![bad] + b).1,
    decreases b.len(),
{
    let all = a + seq![bad] + b;
    if b.len() == 0 {
        assert(all.drop_last() =~= a);
        assert(all.last() == bad);
    } else {
        lemma_failed_stays(a, bad, b.drop_last());
        assert(all.drop_last() =~= a + seq![bad] + b.drop_last());
    }
}

/// Of a document of a stream the first choice counts, with the usage that came with it; where there
/// is no choice, the usage alone; and where there is neither, nothing.
pub proof fn law_document_is_understood(c: ChoiceView, usage: Option<ChatUsage>)
    ensures
        chunk_output(Some(c), usage) matches Some(o) && o.usage == usage && o.is_final == c.finished
            && o.delta == response_text_spec(c.content, c.refusal) && (o.reasoning_content matches Some(
            r,
        ) ==> c.reasoning_content == Some(r) && trim_spec(r).len() > 0) && ((
        c.reasoning_content matches Some(r) && trim_spec(r).len() > 0) ==> o.reasoning_content is Some),
        usage is Some ==> (chunk_output(None, usage) matches Some(o) && o.usage == usage && o.delta.len()
            == 0 && !o.is_final),
        chunk_output(None, None) is None,
{
}

/// A `data:` line says what stands behind the colon, with a space before it or without; every other
/// line says nothing, and neither does an empty one or the end mark.
pub proof fn law_data_lines_are_read(p: Seq<u8>, line: Seq<u8>)
    ensures
        ({
            let data = seq![0x64u8, 0x61, 0x74, 0x61, 0x3A];
            &&& line_result(data + seq![0x20u8] + p) == payload_result(p)
            &&& p.len() == 0 || p[0] != 0x20 ==> line_result(data + p) == payload_result(p)
            &&& !data.is_prefix_of(line) ==> line_result(line) == Ok::<Option<OutputView>, Seq<char>>(
                None,
            )
            &&& payload_result(Seq::empty()) == Ok::<Option<OutputView>, Seq<char>>(None)
            &&& payload_result(seq![0x5Bu8, 0x44, 0x4F, 0x4E, 0x45, 0x5D]) == Ok::<
                Option<OutputView>,
                Seq<char>,
            >(None)
        }),
{
    let data = seq![0x64u8, 0x61, 0x74, 0x61, 0x3A];
    let a = data + seq![0x20u8] + p;
    assert(a.subrange(0, 5) =~= data);
    assert(a.skip(5) =~= seq![0x20u8] + p);
    assert((seq![0x20u8] + p).drop_first() =~= p);
    let b = data + p;
    assert(b.subrange(0, 5) =~= data);
    assert(b.skip(5) =~= p);
}

} // verus!

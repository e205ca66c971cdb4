//! Records: JSON objects and arrays taken apart into the fields of a type.
//!
//! `serde_json` reads names and values, one after another; only the punctuation between them is
//! read here. A record is an object, of which each field may occur once and other members do not
//! matter, or an array with the fields in their order.

use vstd::prelude::*;
use vstd::utf8::{encode_utf8, is_ascii_chars, is_ascii_chars_encode_utf8};

use crate::audio::copy_range;
use crate::json::{
    join_with_comma, json_node, json_string, member_text, members_text, node_view, object_text,
    plain_name, plain_names, reads_text, text_object, Document, JsonNode, Member, NodeView,
};
use crate::text::{lemma_encode_concat, opt_view, parse_spec, parse_uint, same};

verus! {

// ---- values one after another ----

/// The text that stands as a JSON string at the start, and how many bytes it takes up there; none
/// where there is no such text.
pub uninterp spec fn json_first_text(bytes: Seq<u8>) -> Option<(Seq<char>, nat)>;

/// How many bytes the JSON value at the start takes up; none where there is no such value.
pub uninterp spec fn json_first(bytes: Seq<u8>) -> Option<nat>;

/// A name in quotes.
pub open spec fn quoted(name: Seq<char>) -> Seq<char> {
    seq!['"'] + name + seq!['"']
}

/// A text, then more bytes.
pub open spec fn followed_by(text: Seq<char>, rest: Seq<u8>) -> Seq<u8> {
    encode_utf8(text) + rest
}

/// A value as it is written here, of which the last character shows that it ends: a string or an
/// object of strings.
pub open spec fn closed_value(value: Seq<char>) -> bool {
    ||| exists|t: Seq<char>| value == #[trigger] json_string(t)
    ||| exists|pairs: Seq<(Seq<char>, Seq<char>)>|
        plain_names(pairs) && value == #[trigger] text_object(pairs)
}

pub open spec fn first_text_view(r: Option<(String, usize)>) -> Option<(Seq<char>, nat)> {
    match r {
        Some((s, n)) => Some((s@, n as nat)),
        None => None,
    }
}

pub open spec fn first_view(r: Option<usize>) -> Option<nat> {
    match r {
        Some(n) => Some(n as nat),
        None => None,
    }
}

/// Something takes up at least one byte, and no more than there are.
pub open spec fn takes_up(n: Option<nat>, bytes: Seq<u8>) -> bool {
    match n {
        Some(n) => 0 < n <= bytes.len(),
        None => true,
    }
}

pub open spec fn length_of(r: Option<(Seq<char>, nat)>) -> Option<nat> {
    match r {
        Some((_, n)) => Some(n),
        None => None,
    }
}

/// A string that was written is read, whatever follows it; so is a plain name in quotes.
pub open spec fn reads_first_text(bytes: Seq<u8>, r: Option<(Seq<char>, nat)>) -> bool {
    &&& forall|t: Seq<char>, rest: Seq<u8>|
        bytes == #[trigger] followed_by(json_string(t), rest) ==> r == Some(
            (t, encode_utf8(json_string(t)).len()),
        )
    &&& forall|name: Seq<char>, rest: Seq<u8>|
        plain_name(name) && bytes == #[trigger] followed_by(quoted(name), rest) ==> r == Some(
            (name, encode_utf8(quoted(name)).len()),
        )
}

/// A value that was written is read, whatever follows it.
pub open spec fn reads_first(bytes: Seq<u8>, r: Option<nat>) -> bool {
    forall|value: Seq<char>, rest: Seq<u8>|
        closed_value(value) && bytes == #[trigger] followed_by(value, rest) ==> r == Some(
            encode_utf8(value).len(),
        )
}

/// The first item of a `serde_json::StreamDeserializer` of strings, and its `byte_offset` then.
/// Which bytes begin with a string is left to `serde_json`; a string that `json_string` wrote, or a
/// plain name in quotes, is read back.
#[verifier::external_body]
fn first_text(bytes: &[u8]) -> (r: Option<(String, usize)>)
    ensures
        first_text_view(r) == json_first_text(bytes@),
        takes_up(length_of(first_text_view(r)), bytes@),
        reads_first_text(bytes@, first_text_view(r)),
{
    let mut stream = serde_json::Deserializer::from_slice(bytes).into_iter::<String>();
    let text = stream.next()?.ok()?;
    Some((text, stream.byte_offset()))
}

/// The `byte_offset` of a `serde_json::StreamDeserializer` of ignored values after its first item.
/// Which bytes begin with a value is left to `serde_json`; a string or an object of strings that
/// was written here is read to its end.
#[verifier::external_body]
fn first_value(bytes: &[u8]) -> (r: Option<usize>)
    ensures
        first_view(r) == json_first(bytes@),
        takes_up(first_view(r), bytes@),
        reads_first(bytes@, first_view(r)),
{
    let mut stream = serde_json::Deserializer::from_slice(bytes).into_iter::<serde::de::IgnoredAny>();
    stream.next()?.ok()?;
    Some(stream.byte_offset())
}

// ---- punctuation ----

pub open spec fn is_space(b: u8) -> bool {
    b == 0x20 || b == 0x09 || b == 0x0A || b == 0x0D
}

/// What follows the white space at the start.
pub open spec fn after_space(s: Seq<u8>) -> Seq<u8>
    decreases s.len(),
{
    if s.len() > 0 && is_space(s[0]) {
        after_space(s.skip(1))
    } else {
        s
    }
}

fn skip_space(bytes: &[u8], from: usize) -> (r: usize)
    requires
        from <= bytes@.len(),
    ensures
        from <= r <= bytes@.len(),
        bytes@.skip(r as int) == after_space(bytes@.skip(from as int)),
{
    let mut i: usize = from;
    while i < bytes.len() && (bytes[i] == 0x20 || bytes[i] == 0x09 || bytes[i] == 0x0A || bytes[i]
        == 0x0D)
        invariant
            from <= i <= bytes@.len(),
            after_space(bytes@.skip(i as int)) == after_space(bytes@.skip(from as int)),
        decreases bytes@.len() - i,
    {
        assert(bytes@.skip(i as int).skip(1) =~= bytes@.skip(i + 1));
        i += 1;
    }
    i
}

// ---- objects ----

/// A member of an object: its name, and its value as it is written.
pub ghost struct RawMember {
    pub name: Seq<char>,
    pub value: Seq<u8>,
}

/// The member at the start, and what follows it.
pub open spec fn member_at(s: Seq<u8>) -> Option<(RawMember, Seq<u8>)> {
    match json_first_text(s) {
        Some((name, n)) => {
            let t = after_space(s.skip(n as int));
            if t.len() > 0 && t[0] == 0x3A {
                let u = t.skip(1);
                match json_first(u) {
                    Some(m) => Some(
                        (RawMember { name, value: u.take(m as int) }, after_space(u.skip(m as int))),
                    ),
                    None => None,
                }
            } else {
                None
            }
        },
        None => None,
    }
}

/// The members up to the closing brace, at least one of them, and what follows it.
pub open spec fn members_at(s: Seq<u8>) -> Option<(Seq<RawMember>, Seq<u8>)>
    decreases s.len(),
{
    match member_at(s) {
        Some((m, t)) => if 0 < t.len() < s.len() && t[0] == 0x7D {
            Some((seq![m], t.skip(1)))
        } else if 0 < t.len() < s.len() && t[0] == 0x2C {
            match members_at(t.skip(1)) {
                Some((ms, end)) => Some((seq![m] + ms, end)),
                None => None,
            }
        } else {
            None
        },
        None => None,
    }
}

/// The members of a document that is an object.
pub open spec fn object_members(d: Seq<u8>) -> Option<Seq<RawMember>> {
    let s = after_space(d);
    if s.len() > 0 && s[0] == 0x7B {
        let t = after_space(s.skip(1));
        let found = if t.len() > 0 && t[0] == 0x7D {
            Some((Seq::<RawMember>::empty(), t.skip(1)))
        } else {
            members_at(t)
        };
        match found {
            Some((ms, end)) => if after_space(end).len() == 0 {
                Some(ms)
            } else {
                None
            },
            None => None,
        }
    } else {
        None
    }
}

/// Members whose names are plain and whose values show where they end.
pub open spec fn closed_members(members: Seq<Member>) -> bool {
    forall|i: int|
        0 <= i < members.len() ==> plain_name((#[trigger] members[i]).name) && closed_value(
            members[i].value,
        )
}

pub open spec fn encoded_member(m: Member) -> RawMember {
    RawMember { name: m.name, value: encode_utf8(m.value) }
}

pub open spec fn encoded_members(members: Seq<Member>) -> Seq<RawMember> {
    Seq::new(members.len(), |i: int| encoded_member(members[i]))
}

/// What an object is written as from its member `k` on.
pub open spec fn written_from(members: Seq<Member>, k: int) -> Seq<char>
    decreases members.len() - k,
{
    if 0 <= k < members.len() - 1 {
        member_text(members[k]) + seq![','] + written_from(members, k + 1)
    } else {
        member_text(members[k]) + seq!['}']
    }
}

/// What is written behind the value of member `k`.
pub open spec fn written_behind(members: Seq<Member>, k: int) -> Seq<char> {
    if k < members.len() - 1 {
        seq![','] + written_from(members, k + 1)
    } else {
        seq!['}']
    }
}

proof fn lemma_written_from(members: Seq<Member>, k: int)
    requires
        0 <= k < members.len(),
    ensures
        ({
            let parts = members_text(members);
            let front = join_with_comma(parts.take(k));
            join_with_comma(parts) + seq!['}'] == (if k > 0 {
                front + seq![',']
            } else {
                front
            }) + written_from(members, k)
        }),
    decreases members.len() - k,
{
    let parts = members_text(members);
    let front = join_with_comma(parts.take(k));
    assert(parts.take(k + 1).drop_last() =~= parts.take(k));
    assert(parts.take(k + 1).last() == parts[k]);
    if k == 0 {
        assert(parts.take(0) =~= Seq::<Seq<char>>::empty());
        assert(parts.take(1)[0] == parts[0]);
    }
    if k < members.len() - 1 {
        lemma_written_from(members, k + 1);
        let next = written_from(members, k + 1);
        let longer = join_with_comma(parts.take(k + 1));
        if k > 0 {
            assert(longer == front + seq![','] + parts[k]);
            assert(longer + seq![','] + next =~= front + seq![','] + (parts[k] + seq![','] + next));
        } else {
            assert(longer == parts[0]);
            assert(longer + seq![','] + next =~= front + (parts[k] + seq![','] + next));
        }
    } else {
        assert(parts.take(k + 1) =~= parts);
        let whole = join_with_comma(parts);
        if k > 0 {
            assert(whole + seq!['}'] =~= front + seq![','] + (parts[k] + seq!['}']));
        } else {
            assert(whole + seq!['}'] =~= front + (parts[k] + seq!['}']));
        }
    }
}

pub proof fn lemma_ascii(c: char)
    requires
        c <= '\u{7f}',
    ensures
        encode_utf8(seq![c]) == seq![c as u8],
{
    let s = seq![c];
    assert(is_ascii_chars(s));
    is_ascii_chars_encode_utf8(s);
    assert(encode_utf8(s) =~= seq![s[0] as u8]);
}

/// How the bytes of an object go on from its member `k`.
proof fn lemma_written_bytes(members: Seq<Member>, k: int)
    requires
        0 <= k < members.len(),
    ensures
        ({
            let m = members[k];
            let behind = encode_utf8(written_behind(members, k));
            &&& encode_utf8(written_from(members, k)) == followed_by(
                quoted(m.name),
                seq![0x3Au8] + followed_by(m.value, behind),
            )
            &&& behind == if k < members.len() - 1 {
                seq![0x2Cu8] + encode_utf8(written_from(members, k + 1))
            } else {
                seq![0x7Du8]
            }
        }),
{
    let m = members[k];
    let name = quoted(m.name);
    let after = written_behind(members, k);
    let behind = encode_utf8(after);
    let text = written_from(members, k);
    assert(text =~= name + (seq![':'] + (m.value + after)));
    lemma_encode_concat(name, seq![':'] + (m.value + after));
    lemma_encode_concat(seq![':'], m.value + after);
    lemma_encode_concat(m.value, after);
    lemma_ascii(':');
    lemma_ascii(',');
    lemma_ascii('}');
    assert(seq![':' as u8] =~= seq![0x3Au8]);
    assert(seq![',' as u8] =~= seq![0x2Cu8]);
    assert(seq!['}' as u8] =~= seq![0x7Du8]);
    if k < members.len() - 1 {
        lemma_encode_concat(seq![','], written_from(members, k + 1));
    }
}

/// A member that was written is read, and then what stands behind it.
pub open spec fn reads_member(s: Seq<u8>) -> bool {
    forall|members: Seq<Member>, k: int|
        closed_members(members) && 0 <= k < members.len() && s == encode_utf8(
            #[trigger] written_from(members, k),
        ) ==> member_at(s) == Some(
            (encoded_member(members[k]), encode_utf8(written_behind(members, k))),
        )
}

proof fn lemma_reads_member(s: Seq<u8>)
    requires
        reads_first_text(s, json_first_text(s)),
        json_first_text(s) is Some ==> {
            let t = after_space(s.skip(length_of(json_first_text(s))->0 as int));
            t.len() > 0 && t[0] == 0x3A ==> reads_first(t.skip(1), json_first(t.skip(1)))
        },
    ensures
        reads_member(s),
{
    assert forall|members: Seq<Member>, k: int|
        closed_members(members) && 0 <= k < members.len() && s == encode_utf8(
            #[trigger] written_from(members, k),
        ) implies member_at(s) == Some(
        (encoded_member(members[k]), encode_utf8(written_behind(members, k))),
    ) by {
        lemma_written_bytes(members, k);
        let m = members[k];
        let behind = encode_utf8(written_behind(members, k));
        let name = quoted(m.name);
        let n = encode_utf8(name).len() as int;
        let u = followed_by(m.value, behind);
        let t = seq![0x3Au8] + u;
        assert(s == followed_by(name, t));
        assert(s.skip(n) =~= t);
        assert(after_space(t) == t);
        assert(t.skip(1) =~= u);
        let v = encode_utf8(m.value).len() as int;
        assert(json_first(u) == Some(v as nat));
        assert(u.take(v) =~= encode_utf8(m.value));
        assert(u.skip(v) =~= behind);
        assert(behind[0] == 0x2C || behind[0] == 0x7D);
        assert(after_space(behind) == behind);
    }
}

fn read_member(bytes: &[u8], from: usize) -> (r: Option<(String, Vec<u8>, usize)>)
    requires
        from <= bytes@.len(),
    ensures
        match r {
            Some((name, value, next)) => from < next <= bytes@.len() && member_at(
                bytes@.skip(from as int),
            ) == Some((RawMember { name: name@, value: value@ }, bytes@.skip(next as int))),
            None => member_at(bytes@.skip(from as int)) is None,
        },
        reads_member(bytes@.skip(from as int)),
{
    let ghost s = bytes@.skip(from as int);
    let rest = vstd::slice::slice_subrange(bytes, from, bytes.len());
    assert(rest@ =~= s);
    let (name, n): (String, usize) = match first_text(rest) {
        Some(x) => x,
        None => {
            proof {
                lemma_reads_member(s);
            }
            return None;
        },
    };
    assert(bytes@.skip(from + n) =~= s.skip(n as int));
    let colon = skip_space(bytes, from + n);
    let ghost t = bytes@.skip(colon as int);
    if colon >= bytes.len() || bytes[colon] != 0x3A {
        proof {
            lemma_reads_member(s);
        }
        return None;
    }
    let rest = vstd::slice::slice_subrange(bytes, colon + 1, bytes.len());
    assert(rest@ =~= t.skip(1));
    let m: Option<usize> = first_value(rest);
    proof {
        lemma_reads_member(s);
    }
    match m {
        Some(m) => {
            let value = copy_range(rest, 0, m);
            assert(value@ =~= t.skip(1).take(m as int));
            assert(bytes@.skip(colon + 1 + m) =~= t.skip(1).skip(m as int));
            Some((name, value, skip_space(bytes, colon + 1 + m)))
        },
        None => None,
    }
}

pub open spec fn pair_members(v: Seq<(String, Vec<u8>)>) -> Seq<RawMember> {
    Seq::new(v.len(), |i: int| RawMember { name: v[i].0@, value: v[i].1@ })
}

/// An object that was written is read.
pub open spec fn reads_object(d: Seq<u8>) -> bool {
    forall|members: Seq<Member>|
        closed_members(members) && d == encode_utf8(#[trigger] object_text(members))
            ==> object_members(d) == Some(encoded_members(members))
}

proof fn lemma_object_bytes(members: Seq<Member>)
    ensures
        ({
            let d = encode_utf8(object_text(members));
            &&& d.len() > 1 && d[0] == 0x7B
            &&& members.len() == 0 ==> d.skip(1) == seq![0x7Du8]
            &&& members.len() > 0 ==> d.skip(1) == encode_utf8(written_from(members, 0))
            &&& members.len() > 0 ==> d.skip(1).len() > 0 && d[1] == 0x22
        }),
{
    let d = encode_utf8(object_text(members));
    lemma_ascii('{');
    lemma_ascii('}');
    assert(seq!['{' as u8] =~= seq![0x7Bu8]);
    assert(seq!['}' as u8] =~= seq![0x7Du8]);
    let parts = members_text(members);
    let inner = join_with_comma(parts) + seq!['}'];
    assert(object_text(members) =~= seq!['{'] + inner);
    lemma_encode_concat(seq!['{'], inner);
    assert(d.skip(1) =~= encode_utf8(inner));
    if members.len() == 0 {
        assert(inner =~= seq!['}']);
    } else {
        lemma_written_from(members, 0);
        assert(parts.take(0) =~= Seq::<Seq<char>>::empty());
        assert(inner =~= written_from(members, 0));
        lemma_written_bytes(members, 0);
        let name = quoted(members[0].name);
        assert(name =~= seq!['"'] + (members[0].name + seq!['"']));
        lemma_encode_concat(seq!['"'], members[0].name + seq!['"']);
        lemma_ascii('"');
        assert(seq!['"' as u8] =~= seq![0x22u8]);
        assert(d.skip(1)[0] == 0x22);
    }
}

/// Members that were written are read.
pub open spec fn reads_members(s: Seq<u8>) -> bool {
    forall|members: Seq<Member>|
        closed_members(members) && members.len() > 0 && s == encode_utf8(
            #[trigger] written_from(members, 0),
        ) ==> members_at(s) == Some((encoded_members(members), Seq::<u8>::empty()))
}

/// After `k` members that were written this is what is left.
spec fn left_after(whole: Seq<u8>, out: Seq<RawMember>, s: Seq<u8>) -> bool {
    forall|members: Seq<Member>|
        closed_members(members) && members.len() > 0 && whole == encode_utf8(
            #[trigger] written_from(members, 0),
        ) ==> out.len() < members.len() && out == encoded_members(members).take(out.len() as int) && s
            == encode_utf8(written_from(members, out.len() as int))
}

/// Behind the first `out.len()` of these members the next one stands, and then what was written
/// behind it.
spec fn next_is_read(members: Seq<Member>, out: Seq<RawMember>, s: Seq<u8>) -> bool {
    let k = out.len() + 1;
    let (m, t) = member_at(s)->0;
    &&& member_at(s) is Some
    &&& out.push(m) == encoded_members(members).take(k as int)
    &&& k < members.len() ==> t.len() > 0 && t[0] == 0x2C && t.skip(1) == encode_utf8(
        written_from(members, k as int),
    )
    &&& k == members.len() ==> t.len() == 1 && t[0] == 0x7D && out.push(m) == encoded_members(members)
    &&& k <= members.len()
}

proof fn lemma_left_after(whole: Seq<u8>, out: Seq<RawMember>, s: Seq<u8>)
    requires
        left_after(whole, out, s),
        reads_member(s),
    ensures
        forall|members: Seq<Member>|
            closed_members(members) && members.len() > 0 && whole == encode_utf8(
                #[trigger] written_from(members, 0),
            ) ==> next_is_read(members, out, s),
{
    let k = out.len() as int;
    assert forall|members: Seq<Member>|
        closed_members(members) && members.len() > 0 && whole == encode_utf8(
            #[trigger] written_from(members, 0),
        ) implies next_is_read(members, out, s) by {
        lemma_written_bytes(members, k);
        let again = written_from(members, k);
        let (m, t) = member_at(s)->0;
        assert(m == encoded_member(members[k]));
        assert(out.push(m) =~= encoded_members(members).take(k + 1));
        if k + 1 < members.len() {
            assert(t.skip(1) =~= encode_utf8(written_from(members, k + 1)));
        } else {
            assert(encoded_members(members).take(k + 1) =~= encoded_members(members));
        }
    }
}

/// The members up to the closing brace, and where it is left behind.
fn read_members_from(bytes: &[u8], from: usize) -> (r: Option<(Vec<(String, Vec<u8>)>, usize)>)
    requires
        from <= bytes@.len(),
    ensures
        match r {
            Some((v, end)) => end <= bytes@.len() && members_at(bytes@.skip(from as int)) == Some(
                (pair_members(v@), bytes@.skip(end as int)),
            ),
            None => members_at(bytes@.skip(from as int)) is None,
        },
        reads_members(bytes@.skip(from as int)),
{
    let ghost whole = bytes@.skip(from as int);
    let ghost all = members_at(whole);
    let mut out: Vec<(String, Vec<u8>)> = Vec::new();
    let mut pos: usize = from;
    proof {
        assert(pair_members(out@) =~= Seq::<RawMember>::empty());
        if let Some((ms, e)) = all {
            assert(pair_members(out@) + ms =~= ms);
        }
        assert forall|members: Seq<Member>|
            closed_members(members) && members.len() > 0 && whole == encode_utf8(
                #[trigger] written_from(members, 0),
            ) implies pair_members(out@) == encoded_members(members).take(0) by {
            assert(encoded_members(members).take(0) =~= Seq::<RawMember>::empty());
        }
    }
    loop
        invariant
            pos <= bytes@.len(),
            whole == bytes@.skip(from as int),
            all == members_at(whole),
            all == match members_at(bytes@.skip(pos as int)) {
                Some((ms, e)) => Some((pair_members(out@) + ms, e)),
                None => None,
            },
            left_after(whole, pair_members(out@), bytes@.skip(pos as int)),
        decreases bytes@.len() - pos,
    {
        let ghost s = bytes@.skip(pos as int);
        let ghost before = pair_members(out@);
        let got = read_member(bytes, pos);
        proof {
            lemma_left_after(whole, before, s);
        }
        let (name, value, next): (String, Vec<u8>, usize) = match got {
            Some(x) => x,
            None => {
                return None;
            },
        };
        let ghost m = RawMember { name: name@, value: value@ };
        let ghost t = bytes@.skip(next as int);
        if next >= bytes.len() {
            return None;
        }
        assert(t[0] == bytes@[next as int]);
        assert(bytes@.skip(next + 1) =~= t.skip(1));
        out.push((name, value));
        assert(pair_members(out@) =~= before.push(m));
        if bytes[next] == 0x7D {
            proof {
                assert(before + seq![m] =~= before.push(m));
                assert forall|members: Seq<Member>|
                    closed_members(members) && members.len() > 0 && whole == encode_utf8(
                        #[trigger] written_from(members, 0),
                    ) implies all == Some((encoded_members(members), Seq::<u8>::empty())) by {
                    assert(t.skip(1) =~= Seq::<u8>::empty());
                }
            }
            return Some((out, next + 1));
        }
        if bytes[next] != 0x2C {
            return None;
        }
        proof {
            if let Some((ms, e)) = members_at(t.skip(1)) {
                assert(before + (seq![m] + ms) =~= before.push(m) + ms);
            }
        }
        pos = next + 1;
    }
}

/// The members of a document that is an object.
pub fn read_members(bytes: &[u8]) -> (r: Option<Vec<(String, Vec<u8>)>>)
    ensures
        match r {
            Some(v) => object_members(bytes@) == Some(pair_members(v@)),
            None => object_members(bytes@) is None,
        },
        reads_object(bytes@),
{
    let ghost d = bytes@;
    proof {
        assert(d.skip(0) =~= d);
        assert forall|members: Seq<Member>| d == encode_utf8(#[trigger] object_text(members)) implies {
            &&& d.len() > 1 && d[0] == 0x7B && after_space(d) == d
            &&& d.skip(1)[0] == d[1]
            &&& after_space(d.skip(1)) == d.skip(1)
            &&& members.len() == 0 ==> d[1] == 0x7D && d.skip(1).skip(1) == Seq::<u8>::empty()
                && encoded_members(members) == Seq::<RawMember>::empty()
            &&& members.len() > 0 ==> d[1] == 0x22 && d.skip(1) == encode_utf8(
                written_from(members, 0),
            )
        } by {
            lemma_object_bytes(members);
            if members.len() == 0 {
                assert(d.skip(1)[0] == 0x7D);
                assert(d.skip(1).skip(1) =~= Seq::<u8>::empty());
                assert(encoded_members(members) =~= Seq::<RawMember>::empty());
            }
        }
    }
    let open: usize = skip_space(bytes, 0);
    if open >= bytes.len() || bytes[open] != 0x7B {
        return None;
    }
    assert(d.skip(open as int).skip(1) =~= d.skip(open + 1));
    let first: usize = skip_space(bytes, open + 1);
    let ghost t = d.skip(first as int);
    let (out, end): (Vec<(String, Vec<u8>)>, usize) = if first < bytes.len() && bytes[first] == 0x7D {
        let none: Vec<(String, Vec<u8>)> = Vec::new();
        assert(pair_members(none@) =~= Seq::<RawMember>::empty());
        assert(d.skip(first + 1) =~= t.skip(1));
        (none, first + 1)
    } else {
        match read_members_from(bytes, first) {
            Some(x) => x,
            None => {
                return None;
            },
        }
    };
    let rest: usize = skip_space(bytes, end);
    if rest < bytes.len() {
        return None;
    }
    Some(out)
}

// ---- arrays ----

/// The elements up to the closing bracket, at least one of them, and what follows it.
pub open spec fn elements_at(s: Seq<u8>) -> Option<(Seq<Seq<u8>>, Seq<u8>)>
    decreases s.len(),
{
    match json_first(s) {
        Some(n) => {
            let v = s.take(n as int);
            let t = after_space(s.skip(n as int));
            if 0 < t.len() < s.len() && t[0] == 0x5D {
                Some((seq![v], t.skip(1)))
            } else if 0 < t.len() < s.len() && t[0] == 0x2C {
                match elements_at(t.skip(1)) {
                    Some((vs, end)) => Some((seq![v] + vs, end)),
                    None => None,
                }
            } else {
                None
            }
        },
        None => None,
    }
}

/// The elements of a document that is an array.
pub open spec fn array_elements(d: Seq<u8>) -> Option<Seq<Seq<u8>>> {
    let s = after_space(d);
    if s.len() > 0 && s[0] == 0x5B {
        let t = after_space(s.skip(1));
        let found = if t.len() > 0 && t[0] == 0x5D {
            Some((Seq::<Seq<u8>>::empty(), t.skip(1)))
        } else {
            elements_at(t)
        };
        match found {
            Some((vs, end)) => if after_space(end).len() == 0 {
                Some(vs)
            } else {
                None
            },
            None => None,
        }
    } else {
        None
    }
}

pub open spec fn byte_views(v: Seq<Vec<u8>>) -> Seq<Seq<u8>> {
    Seq::new(v.len(), |i: int| v[i]@)
}

/// The elements up to the closing bracket, and where it is left behind.
fn read_elements_from(bytes: &[u8], from: usize) -> (r: Option<(Vec<Vec<u8>>, usize)>)
    requires
        from <= bytes@.len(),
    ensures
        match r {
            Some((v, end)) => end <= bytes@.len() && elements_at(bytes@.skip(from as int)) == Some(
                (byte_views(v@), bytes@.skip(end as int)),
            ),
            None => elements_at(bytes@.skip(from as int)) is None,
        },
{
    let ghost all = elements_at(bytes@.skip(from as int));
    let mut out: Vec<Vec<u8>> = Vec::new();
    let mut pos: usize = from;
    proof {
        assert(byte_views(out@) =~= Seq::<Seq<u8>>::empty());
        if let Some((vs, e)) = all {
            assert(byte_views(out@) + vs =~= vs);
        }
    }
    loop
        invariant
            pos <= bytes@.len(),
            all == elements_at(bytes@.skip(from as int)),
            all == match elements_at(bytes@.skip(pos as int)) {
                Some((vs, e)) => Some((byte_views(out@) + vs, e)),
                None => None,
            },
        decreases bytes@.len() - pos,
    {
        let ghost s = bytes@.skip(pos as int);
        let ghost before = byte_views(out@);
        let rest = vstd::slice::slice_subrange(bytes, pos, bytes.len());
        assert(rest@ =~= s);
        let n: usize = match first_value(rest) {
            Some(n) => n,
            None => {
                return None;
            },
        };
        let value = copy_range(rest, 0, n);
        let ghost v = value@;
        assert(v =~= s.take(n as int));
        assert(bytes@.skip(pos + n) =~= s.skip(n as int));
        let next: usize = skip_space(bytes, pos + n);
        let ghost t = bytes@.skip(next as int);
        if next >= bytes.len() {
            return None;
        }
        assert(t[0] == bytes@[next as int]);
        assert(bytes@.skip(next + 1) =~= t.skip(1));
        out.push(value);
        assert(byte_views(out@) =~= before.push(v));
        if bytes[next] == 0x5D {
            assert(before + seq![v] =~= before.push(v));
            return Some((out, next + 1));
        }
        if bytes[next] != 0x2C {
            return None;
        }
        proof {
            if let Some((vs, e)) = elements_at(t.skip(1)) {
                assert(before + (seq![v] + vs) =~= before.push(v) + vs);
            }
        }
        pos = next + 1;
    }
}

/// The elements of a document that is an array.
pub fn read_elements(bytes: &[u8]) -> (r: Option<Vec<Vec<u8>>>)
    ensures
        match r {
            Some(v) => array_elements(bytes@) == Some(byte_views(v@)),
            None => array_elements(bytes@) is None,
        },
{
    let ghost d = bytes@;
    assert(d.skip(0) =~= d);
    let open: usize = skip_space(bytes, 0);
    if open >= bytes.len() || bytes[open] != 0x5B {
        return None;
    }
    assert(d.skip(open as int).skip(1) =~= d.skip(open + 1));
    let first: usize = skip_space(bytes, open + 1);
    let (out, end): (Vec<Vec<u8>>, usize) = if first < bytes.len() && bytes[first] == 0x5D {
        let none: Vec<Vec<u8>> = Vec::new();
        assert(byte_views(none@) =~= Seq::<Seq<u8>>::empty());
        assert(d.skip(first + 1) =~= d.skip(first as int).skip(1));
        (none, first + 1)
    } else {
        match read_elements_from(bytes, first) {
            Some(x) => x,
            None => {
                return None;
            },
        }
    };
    let rest: usize = skip_space(bytes, end);
    if rest < bytes.len() {
        return None;
    }
    Some(out)
}

// ---- fields ----

/// The value of the member of this name, where there is one. Nothing where there are several.
pub open spec fn field_in(ms: Seq<RawMember>, name: Seq<char>) -> Option<Option<Seq<u8>>>
    decreases ms.len(),
{
    if ms.len() == 0 {
        Some(None)
    } else {
        match field_in(ms.drop_last(), name) {
            Some(v) => if ms.last().name != name {
                Some(v)
            } else if v is None {
                Some(Some(ms.last().value))
            } else {
                None
            },
            None => None,
        }
    }
}

/// The fields of a record that have these names, in this order. Nothing where the document is no
/// such record: where a name occurs twice in an object, or where an array has not at least
/// `required` elements or has more elements than there are names.
pub open spec fn record_fields(d: Seq<u8>, names: Seq<Seq<char>>, required: nat) -> Option<
    Seq<Option<Seq<u8>>>,
> {
    match (object_members(d), array_elements(d)) {
        (Some(ms), _) => if forall|i: int|
            0 <= i < names.len() ==> (field_in(ms, #[trigger] names[i])) is Some {
            Some(Seq::new(names.len(), |i: int| field_in(ms, names[i])->0))
        } else {
            None
        },
        (None, Some(vs)) => if required <= vs.len() <= names.len() {
            Some(
                Seq::new(
                    names.len(),
                    |i: int|
                        if i < vs.len() {
                            Some(vs[i])
                        } else {
                            None
                        },
                ),
            )
        } else {
            None
        },
        _ => None,
    }
}

pub open spec fn field_view(f: Option<Vec<u8>>) -> Option<Seq<u8>> {
    match f {
        Some(v) => Some(v@),
        None => None,
    }
}

pub open spec fn field_views(v: Seq<Option<Vec<u8>>>) -> Seq<Option<Seq<u8>>> {
    Seq::new(v.len(), |i: int| field_view(v[i]))
}

pub open spec fn str_views(v: Seq<&str>) -> Seq<Seq<char>> {
    Seq::new(v.len(), |i: int| v[i]@)
}

fn find_field(ms: &Vec<(String, Vec<u8>)>, name: &str) -> (r: Option<Option<Vec<u8>>>)
    ensures
        match r {
            Some(f) => field_in(pair_members(ms@), name@) == Some(field_view(f)),
            None => field_in(pair_members(ms@), name@) is None,
        },
{
    let ghost all = pair_members(ms@);
    let mut found: Option<usize> = None;
    for i in 0..ms.len()
        invariant
            all == pair_members(ms@),
            match found {
                Some(k) => k < i && field_in(all.take(i as int), name@) == Some(
                    Some(all[k as int].value),
                ),
                None => field_in(all.take(i as int), name@) == Some(None::<Seq<u8>>),
            },
    {
        proof {
            assert(all.take(i + 1).drop_last() =~= all.take(i as int));
            assert(all.take(i + 1).last() == all[i as int]);
        }
        if same(ms[i].0.as_str(), name) {
            if found.is_some() {
                proof {
                    lemma_repeated(all, name@, i + 1);
                }
                return None;
            }
            found = Some(i);
        }
    }
    assert(all.take(all.len() as int) =~= all);
    match found {
        Some(k) => Some(Some(copy_range(ms[k].1.as_slice(), 0, ms[k].1.len()))),
        None => Some(None),
    }
}

/// What occurs twice among the first members occurs twice among all.
proof fn lemma_repeated(ms: Seq<RawMember>, name: Seq<char>, i: int)
    requires
        0 <= i <= ms.len(),
        field_in(ms.take(i), name) is None,
    ensures
        field_in(ms, name) is None,
    decreases ms.len(),
{
    if i == ms.len() {
        assert(ms.take(i) =~= ms);
    } else {
        assert(ms.drop_last().take(i) =~= ms.take(i));
        lemma_repeated(ms.drop_last(), name, i);
    }
}

/// Takes a record apart.
pub fn read_record(bytes: &[u8], names: &[&str], required: usize) -> (r: Option<Vec<Option<Vec<u8>>>>)
    ensures
        match r {
            Some(v) => record_fields(bytes@, str_views(names@), required as nat) == Some(
                field_views(v@),
            ) && v@.len() == names@.len(),
            None => record_fields(bytes@, str_views(names@), required as nat) is None,
        },
        reads_object(bytes@),
{
    let ghost wanted = str_views(names@);
    let mut out: Vec<Option<Vec<u8>>> = Vec::new();
    match read_members(bytes) {
        Some(ms) => {
            let ghost all = pair_members(ms@);
            for i in 0..names.len()
                invariant
                    wanted == str_views(names@),
                    all == pair_members(ms@),
                    out@.len() == i,
                    object_members(bytes@) == Some(all),
                    reads_object(bytes@),
                    forall|k: int|
                        0 <= k < i ==> field_in(all, #[trigger] wanted[k]) == Some(
                            field_view(out@[k]),
                        ),
            {
                match find_field(&ms, names[i]) {
                    Some(f) => {
                        out.push(f);
                    },
                    None => {
                        assert(field_in(all, wanted[i as int]) is None);
                        return None;
                    },
                }
            }
            assert(field_views(out@) =~= Seq::new(
                wanted.len(),
                |i: int| field_in(all, wanted[i])->0,
            ));
            Some(out)
        },
        None => match read_elements(bytes) {
            Some(vs) => {
                if vs.len() < required || vs.len() > names.len() {
                    return None;
                }
                for i in 0..names.len()
                    invariant
                        out@.len() == i,
                        forall|k: int|
                            0 <= k < i ==> field_view(#[trigger] out@[k]) == (if k < vs@.len() {
                                Some(vs@[k]@)
                            } else {
                                None
                            }),
                {
                    if i < vs.len() {
                        out.push(Some(copy_range(vs[i].as_slice(), 0, vs[i].len())));
                        assert(vs@[i as int]@.subrange(0, vs@[i as int]@.len() as int)
                            =~= vs@[i as int]@);
                    } else {
                        out.push(None);
                    }
                }
                assert(field_views(out@) =~= record_fields(bytes@, wanted, required as nat)->0);
                Some(out)
            },
            None => None,
        },
    }
}

/// The field of this name in an object that was written, where no name occurs twice.
pub proof fn lemma_written_field(members: Seq<Member>, name: Seq<char>)
    requires
        forall|i: int, j: int|
            0 <= i < j < members.len() ==> (#[trigger] members[i]).name != (
            #[trigger] members[j]).name,
    ensures
        forall|i: int|
            0 <= i < members.len() && (#[trigger] members[i]).name == name ==> field_in(
                encoded_members(members),
                name,
            ) == Some(Some(encode_utf8(members[i].value))),
        (forall|i: int| 0 <= i < members.len() ==> (#[trigger] members[i]).name != name) ==> field_in(
            encoded_members(members),
            name,
        ) == Some(None::<Seq<u8>>),
        field_in(encoded_members(members), name) is Some,
    decreases members.len(),
{
    if members.len() > 0 {
        let fewer = members.drop_last();
        assert(encoded_members(members).drop_last() =~= encoded_members(fewer));
        assert(encoded_members(members).last() == encoded_member(members.last()));
        lemma_written_field(fewer, name);
        if members.last().name == name {
            assert forall|i: int| 0 <= i < fewer.len() implies (#[trigger] fewer[i]).name != name by {
                assert(members[i].name != members[members.len() - 1].name);
            }
        } else {
            assert forall|i: int|
                0 <= i < members.len() && (#[trigger] members[i]).name == name implies field_in(
                encoded_members(members),
                name,
            ) == Some(Some(encode_utf8(members[i].value))) by {
                assert(fewer[i].name == name);
            }
            if forall|i: int| 0 <= i < members.len() ==> (#[trigger] members[i]).name != name {
                assert forall|i: int| 0 <= i < fewer.len() implies (#[trigger] fewer[i]).name != name by {
                    assert(members[i].name != name);
                }
            }
        }
    }
}

// ---- what a field holds ----

/// What the value of a field is.
pub open spec fn value_of(v: Seq<u8>) -> Option<NodeView> {
    json_node(v, ""@)
}

/// What the value of a field is.
pub fn value_node(v: &Vec<u8>) -> (r: Option<JsonNode>)
    ensures
        node_view(r) == value_of(v@),
        reads_text(v@, value_of(v@)),
{
    proof {
        reveal_strlit("");
    }
    (Document { bytes: v.as_slice() }).node("")
}

/// A field that is absent or null.
pub open spec fn is_absent(f: Option<Seq<u8>>) -> bool {
    f is None || value_of(f->0) == Some(NodeView::Null)
}

pub fn field_absent(f: &Option<Vec<u8>>) -> (r: bool)
    ensures
        r == is_absent(field_view(*f)),
{
    match f {
        None => true,
        Some(v) => match value_node(v) {
            Some(JsonNode::Null) => true,
            _ => false,
        },
    }
}

/// The text of a field that may be absent or null. Nothing where it is something else.
pub open spec fn optional_text(f: Option<Seq<u8>>) -> Option<Option<Seq<char>>> {
    match f {
        None => Some(None),
        Some(v) => match value_of(v) {
            Some(NodeView::Null) => Some(None),
            Some(NodeView::Text(s)) => Some(Some(s)),
            _ => None,
        },
    }
}

pub fn field_optional_text(f: &Option<Vec<u8>>) -> (r: Option<Option<String>>)
    ensures
        match r {
            Some(o) => optional_text(field_view(*f)) == Some(opt_view(o)),
            None => optional_text(field_view(*f)) is None,
        },
        f matches Some(v) ==> reads_text(v@, value_of(v@)),
{
    match f {
        None => Some(None),
        Some(v) => match value_node(v) {
            Some(JsonNode::Null) => Some(None),
            Some(JsonNode::Text(s)) => Some(Some(s)),
            _ => None,
        },
    }
}

/// The text of a field that is empty where it is absent. Nothing where it is something else.
pub open spec fn default_text(f: Option<Seq<u8>>) -> Option<Seq<char>> {
    match f {
        None => Some(Seq::empty()),
        Some(_) => required_text(f),
    }
}

pub fn field_default_text(f: &Option<Vec<u8>>) -> (r: Option<String>)
    ensures
        opt_view(r) == default_text(field_view(*f)),
{
    match f {
        None => Some(String::new()),
        Some(_) => field_required_text(f),
    }
}

/// The text of a field that must be there.
pub open spec fn required_text(f: Option<Seq<u8>>) -> Option<Seq<char>> {
    match f {
        Some(v) => match value_of(v) {
            Some(NodeView::Text(s)) => Some(s),
            _ => None,
        },
        None => None,
    }
}

pub fn field_required_text(f: &Option<Vec<u8>>) -> (r: Option<String>)
    ensures
        opt_view(r) == required_text(field_view(*f)),
        f matches Some(v) ==> reads_text(v@, value_of(v@)),
{
    match f {
        Some(v) => match value_node(v) {
            Some(JsonNode::Text(s)) => Some(s),
            _ => None,
        },
        None => None,
    }
}

/// The text that a value is, where it is one.
pub fn value_text(v: &Vec<u8>) -> (r: Option<String>)
    ensures
        opt_view(r) == required_text(Some(v@)),
{
    match value_node(v) {
        Some(JsonNode::Text(s)) => Some(s),
        _ => None,
    }
}

/// The truth value of a field that is false where it is absent.
pub open spec fn default_bool(f: Option<Seq<u8>>) -> Option<bool> {
    match f {
        None => Some(false),
        Some(v) => match value_of(v) {
            Some(NodeView::Bool(b)) => Some(b),
            _ => None,
        },
    }
}

pub fn field_default_bool(f: &Option<Vec<u8>>) -> (r: Option<bool>)
    ensures
        r == default_bool(field_view(*f)),
{
    match f {
        None => Some(false),
        Some(v) => match value_node(v) {
            Some(JsonNode::Bool(b)) => Some(b),
            _ => None,
        },
    }
}

/// The natural number of a field that must be there.
pub open spec fn required_u64(f: Option<Seq<u8>>) -> Option<u64> {
    match f {
        Some(v) => match value_of(v) {
            Some(NodeView::Number(s)) => match parse_spec(s, u64::MAX as nat) {
                Some(n) => Some(n as u64),
                None => None,
            },
            _ => None,
        },
        None => None,
    }
}

pub fn field_required_u64(f: &Option<Vec<u8>>) -> (r: Option<u64>)
    ensures
        r == required_u64(field_view(*f)),
{
    match f {
        Some(v) => match value_node(v) {
            Some(JsonNode::Number(s)) => parse_uint(s.as_str(), u64::MAX),
            _ => None,
        },
        None => None,
    }
}

/// A field that is absent, null or a natural number.
pub open spec fn allows_u64(f: Option<Seq<u8>>) -> bool {
    is_absent(f) || required_u64(f) is Some
}

pub fn field_allows_u64(f: &Option<Vec<u8>>) -> (r: bool)
    ensures
        r == allows_u64(field_view(*f)),
{
    field_absent(f) || field_required_u64(f).is_some()
}

/// A field that is absent, null or a number.
pub open spec fn allows_number(f: Option<Seq<u8>>) -> bool {
    is_absent(f) || value_of(f->0) matches Some(NodeView::Number(_))
}

pub fn field_allows_number(f: &Option<Vec<u8>>) -> (r: bool)
    ensures
        r == allows_number(field_view(*f)),
{
    match f {
        None => true,
        Some(v) => match value_node(v) {
            Some(JsonNode::Null) => true,
            Some(JsonNode::Number(_)) => true,
            _ => false,
        },
    }
}

/// A field that is absent, null or an array.
pub open spec fn allows_array(f: Option<Seq<u8>>) -> bool {
    is_absent(f) || value_of(f->0) matches Some(NodeView::Array(_))
}

pub fn field_allows_array(f: &Option<Vec<u8>>) -> (r: bool)
    ensures
        r == allows_array(field_view(*f)),
{
    match f {
        None => true,
        Some(v) => match value_node(v) {
            Some(JsonNode::Null) => true,
            Some(JsonNode::Array(_)) => true,
            _ => false,
        },
    }
}

/// A field that is absent or any value.
pub open spec fn allows_any(f: Option<Seq<u8>>) -> bool {
    f is None || value_of(f->0) is Some
}

pub fn field_allows_any(f: &Option<Vec<u8>>) -> (r: bool)
    ensures
        r == allows_any(field_view(*f)),
{
    match f {
        None => true,
        Some(v) => value_node(v).is_some(),
    }
}

/// A field that stands in an object twice makes the object unreadable; one that stands there once is
/// found with its value; and one that does not is absent.
pub proof fn law_fields_are_found(ms: Seq<RawMember>, name: Seq<char>, i: int, j: int)
    ensures
        0 <= i < j < ms.len() && ms[i].name == name && ms[j].name == name ==> field_in(ms, name) is None,
        (0 <= i < ms.len() && ms[i].name == name && forall|k: int|
            0 <= k < ms.len() && k != i ==> (#[trigger] ms[k]).name != name) ==> field_in(ms, name) == Some(
            Some(ms[i].value),
        ),
        (forall|k: int| 0 <= k < ms.len() ==> (#[trigger] ms[k]).name != name) ==> field_in(ms, name)
            == Some(None::<Seq<u8>>),
    decreases ms.len(),
{
    if ms.len() > 0 {
        let before = ms.drop_last();
        let n = ms.len() - 1;
        law_fields_are_found(before, name, i, j);
        if 0 <= i < j < ms.len() && ms[i].name == name && ms[j].name == name {
            if j == n {
                lemma_found_once(before, name, i);
            }
        }
        if 0 <= i < ms.len() && ms[i].name == name && forall|k: int|
            0 <= k < ms.len() && k != i ==> (#[trigger] ms[k]).name != name {
            if i < n {
                assert(ms[n].name != name);
                assert forall|k: int| 0 <= k < before.len() && k != i implies (#[trigger] before[k]).name
                    != name by {
                    assert(before[k] == ms[k]);
                }
            } else {
                assert forall|k: int| 0 <= k < before.len() implies (#[trigger] before[k]).name != name by {
                    assert(before[k] == ms[k]);
                }
            }
        }
        if forall|k: int| 0 <= k < ms.len() ==> (#[trigger] ms[k]).name != name {
            assert(ms[n].name != name);
            assert forall|k: int| 0 <= k < before.len() implies (#[trigger] before[k]).name != name by {
                assert(before[k] == ms[k]);
            }
        }
    }
}

proof fn lemma_found_once(ms: Seq<RawMember>, name: Seq<char>, i: int)
    requires
        0 <= i < ms.len(),
        ms[i].name == name,
    ensures
        field_in(ms, name) != Some(None::<Seq<u8>>),
    decreases ms.len(),
{
    if i < ms.len() - 1 {
        lemma_found_once(ms.drop_last(), name, i);
    }
}

} // verus!

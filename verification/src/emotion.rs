//! Emotion tags in recognised speech.
//!
//! A recogniser may put tokens such as `<|zh|><|SAD|><|Speech|>` into its text. The second token
//! tells the speaker's emotion; none of the tokens belongs to what was said.

use vstd::prelude::*;

use crate::text::{
    chars_of, find, find_from, occurs_at, same, string_of, to_ascii_uppercase, trim, trim_spec,
    upper_spec, opt_view,
};

verus! {

/// The emotions that a recogniser can tell.
#[derive(Debug, Clone, Copy, PartialEq, Eq, Structural)]
pub enum Emotion {
    Happy,
    Sad,
    Angry,
    Neutral,
    Fearful,
    Disgusted,
    Surprised,
}

/// What recognised speech says once its tags are taken out.
#[derive(Debug, Clone)]
pub struct AsrParseResult {
    /// The text without tags.
    pub text: String,
    /// The emotion that the second tag names, if it names one.
    pub emotion: Option<String>,
}

impl Default for AsrParseResult {
    fn default() -> (r: Self)
        ensures
            r.text@ == Seq::<char>::empty(),
            r.emotion is None,
    {
        AsrParseResult { text: String::new(), emotion: None }
    }
}

/// The label of an emotion.
pub open spec fn label_spec(e: Emotion) -> Seq<char> {
    match e {
        Emotion::Happy => "开心"@,
        Emotion::Sad => "悲伤"@,
        Emotion::Angry => "愤怒"@,
        Emotion::Neutral => "中性"@,
        Emotion::Fearful => "恐惧"@,
        Emotion::Disgusted => "厌恶"@,
        Emotion::Surprised => "惊讶"@,
    }
}

/// The emotion that a tag names, whatever its case.
pub open spec fn from_tag_spec(tag: Seq<char>) -> Option<Emotion> {
    let t = upper_spec(tag);
    if t == "HAPPY"@ {
        Some(Emotion::Happy)
    } else if t == "SAD"@ {
        Some(Emotion::Sad)
    } else if t == "ANGRY"@ {
        Some(Emotion::Angry)
    } else if t == "NEUTRAL"@ {
        Some(Emotion::Neutral)
    } else if t == "FEARFUL"@ {
        Some(Emotion::Fearful)
    } else if t == "DISGUSTED"@ {
        Some(Emotion::Disgusted)
    } else if t == "SURPRISED"@ {
        Some(Emotion::Surprised)
    } else {
        None
    }
}

/// The label of the emotion that a tag names.
pub open spec fn tag_label(tag: Seq<char>) -> Option<Seq<char>> {
    match from_tag_spec(tag) {
        Some(e) => Some(label_spec(e)),
        None => None,
    }
}

impl Emotion {
    /// The label of the emotion.
    pub fn label_zh(self) -> (r: &'static str)
        ensures
            r@ == label_spec(self),
    {
        match self {
            Emotion::Happy => "开心",
            Emotion::Sad => "悲伤",
            Emotion::Angry => "愤怒",
            Emotion::Neutral => "中性",
            Emotion::Fearful => "恐惧",
            Emotion::Disgusted => "厌恶",
            Emotion::Surprised => "惊讶",
        }
    }

    /// The emotion that `tag` names, whatever its case.
    pub fn from_tag(tag: &str) -> (r: Option<Self>)
        ensures
            r == from_tag_spec(tag@),
    {
        let t = to_ascii_uppercase(tag);
        if same(t.as_str(), "HAPPY") {
            Some(Emotion::Happy)
        } else if same(t.as_str(), "SAD") {
            Some(Emotion::Sad)
        } else if same(t.as_str(), "ANGRY") {
            Some(Emotion::Angry)
        } else if same(t.as_str(), "NEUTRAL") {
            Some(Emotion::Neutral)
        } else if same(t.as_str(), "FEARFUL") {
            Some(Emotion::Fearful)
        } else if same(t.as_str(), "DISGUSTED") {
            Some(Emotion::Disgusted)
        } else if same(t.as_str(), "SURPRISED") {
            Some(Emotion::Surprised)
        } else {
            None
        }
    }
}

pub open spec fn tag_open() -> Seq<char> {
    seq!['<', '|']
}

pub open spec fn tag_close() -> Seq<char> {
    seq!['|', '>']
}

/// Reads `rest` after `count` tags: its text without tags, and the emotion where the second tag
/// lies in it. An opening mark that is never closed is text.
pub open spec fn read_tags(rest: Seq<char>, count: nat) -> (Seq<char>, Option<Seq<char>>)
    decreases rest.len(),
{
    match find_from(rest, tag_open(), 0) {
        None => (rest, None),
        Some(o) => if 0 <= o && o + 2 <= rest.len() {
            let after = rest.skip(o + 2);
            match find_from(after, tag_close(), 0) {
                Some(c) => if 0 <= c && c + 2 <= after.len() {
                    let (text, emotion) = read_tags(after.skip(c + 2), count + 1);
                    (
                        rest.take(o) + text,
                        if count == 1 { tag_label(after.take(c)) } else { emotion },
                    )
                } else {
                    (rest, None)
                },
                None => {
                    let (text, emotion) = read_tags(after, count);
                    (rest.take(o) + tag_open() + text, emotion)
                },
            }
        } else {
            (rest, None)
        },
    }
}

/// What `parse_asr_emotion_tags` makes of `s`.
pub open spec fn parse_tags_spec(s: Seq<char>) -> (Seq<char>, Option<Seq<char>>) {
    (trim_spec(read_tags(s, 0).0), read_tags(s, 0).1)
}

/// Positions of a search in what is left of a text, counted from its start.
proof fn lemma_find_shift(s: Seq<char>, p: Seq<char>, at: int, from: int)
    requires
        0 <= at <= from <= s.len(),
    ensures
        match find_from(s, p, from) {
            Some(i) => find_from(s.skip(at), p, from - at) == Some(i - at),
            None => find_from(s.skip(at), p, from - at) is None,
        },
    decreases s.len() - from,
{
    let t = s.skip(at);
    if from + p.len() <= s.len() {
        assert(t.subrange(from - at, from - at + p.len()) =~= s.subrange(from, from + p.len()));
        if occurs_at(s, p, from) {
            assert(occurs_at(t, p, from - at));
        } else {
            assert(!occurs_at(t, p, from - at));
            if from < s.len() {
                lemma_find_shift(s, p, at, from + 1);
                assert(find_from(s, p, from) == find_from(s, p, from + 1));
                assert(find_from(t, p, from - at) == find_from(t, p, from + 1 - at));
            } else {
                assert(s.subrange(from, from + p.len()) =~= p);
            }
        }
    } else {
        assert(find_from(s, p, from) is None);
        assert(find_from(t, p, from - at) is None);
    }
}

/// What stands next in a tagged text.
enum NextTag {
    /// Nothing but text.
    Text,
    /// A tag that opens at the first position and closes at the second.
    Tag(usize, usize),
    /// An opening mark, at this position, that is never closed.
    Mark(usize),
}

/// Looks for the next tag at or after `pos`.
fn next_tag(v: &Vec<char>, pos: usize) -> (r: NextTag)
    requires
        pos <= v@.len(),
    ensures
        ({
            let rest = v@.skip(pos as int);
            match r {
                NextTag::Text => find_from(rest, tag_open(), 0) is None,
                NextTag::Tag(at, end) => {
                    &&& pos <= at && at + 2 <= end && end + 2 <= v@.len()
                    &&& find_from(rest, tag_open(), 0) == Some(at - pos)
                    &&& find_from(v@.skip(at + 2), tag_close(), 0) == Some(end - (at + 2))
                },
                NextTag::Mark(at) => {
                    &&& pos <= at && at + 2 <= v@.len()
                    &&& find_from(rest, tag_open(), 0) == Some(at - pos)
                    &&& find_from(v@.skip(at + 2), tag_close(), 0) is None
                },
            }
        }),
{
    let n: usize = v.len();
    let mut open: Vec<char> = Vec::new();
    open.push('<');
    open.push('|');
    let mut close: Vec<char> = Vec::new();
    close.push('|');
    close.push('>');
    assert(open@ =~= tag_open());
    assert(close@ =~= tag_close());
    proof {
        lemma_find_shift(v@, tag_open(), pos as int, pos as int);
    }
    match find(v, &open, pos) {
        None => NextTag::Text,
        Some(at) => {
            proof {
                lemma_find_shift(v@, tag_close(), at + 2, at + 2);
                assert(at + 2 <= n);
            }
            match find(v, &close, at + 2) {
                Some(end) => NextTag::Tag(at, end),
                None => NextTag::Mark(at),
            }
        },
    }
}

/// One step of reading: a tag.
proof fn lemma_step_tag(v: Seq<char>, pos: int, at: int, end: int, count: nat)
    requires
        0 <= pos <= at,
        at + 2 <= end,
        end + 2 <= v.len(),
        find_from(v.skip(pos), tag_open(), 0) == Some(at - pos),
        find_from(v.skip(at + 2), tag_close(), 0) == Some(end - (at + 2)),
    ensures
        read_tags(v.skip(pos), count).0 == v.subrange(pos, at) + read_tags(v.skip(end + 2), count + 1).0,
        read_tags(v.skip(pos), count).1 == (if count == 1 {
            tag_label(v.subrange(at + 2, end))
        } else {
            read_tags(v.skip(end + 2), count + 1).1
        }),
{
    let rest = v.skip(pos);
    let after = rest.skip(at - pos + 2);
    assert(after =~= v.skip(at + 2));
    let c = end - (at + 2);
    assert(after.skip(c + 2) =~= v.skip(end + 2));
    assert(after.take(c) =~= v.subrange(at + 2, end));
    assert(rest.take(at - pos) =~= v.subrange(pos, at));
}

/// One step of reading: an opening mark that is text.
proof fn lemma_step_mark(v: Seq<char>, pos: int, at: int, count: nat)
    requires
        0 <= pos <= at,
        at + 2 <= v.len(),
        find_from(v.skip(pos), tag_open(), 0) == Some(at - pos),
        find_from(v.skip(at + 2), tag_close(), 0) is None,
    ensures
        read_tags(v.skip(pos), count).0 == v.subrange(pos, at) + tag_open() + read_tags(
            v.skip(at + 2),
            count,
        ).0,
        read_tags(v.skip(pos), count).1 == read_tags(v.skip(at + 2), count).1,
{
    let rest = v.skip(pos);
    let after = rest.skip(at - pos + 2);
    assert(after =~= v.skip(at + 2));
    assert(rest.take(at - pos) =~= v.subrange(pos, at));
}

/// Takes the tags out of recognised speech and reads the emotion from the second one.
pub fn parse_asr_emotion_tags(text: &str) -> (r: AsrParseResult)
    ensures
        (r.text@, opt_view(r.emotion)) == parse_tags_spec(text@),
{
    let v = chars_of(text);
    let mut out: String = String::new();
    let mut emotion: Option<String> = None;
    let mut count: usize = 0;
    let mut pos: usize = 0;
    let n: usize = v.len();
    assert(v@.skip(0) =~= v@);
    assert(out@ + read_tags(v@, 0).0 =~= read_tags(v@, 0).0);
    loop
        invariant_except_break
            pos <= n == v@.len(),
            v@ == text@,
            count <= 2,
            out@ + read_tags(v@.skip(pos as int), count as nat).0 == read_tags(text@, 0).0,
            count < 2 ==> emotion is None && read_tags(v@.skip(pos as int), count as nat).1 == read_tags(
                text@,
                0,
            ).1,
            count == 2 ==> opt_view(emotion) == read_tags(text@, 0).1,
        ensures
            out@ == read_tags(text@, 0).0,
            opt_view(emotion) == read_tags(text@, 0).1,
        decreases v@.len() - pos,
    {
        let ghost o = out@;
        match next_tag(&v, pos) {
            NextTag::Text => {
                let tail = string_of(&v, pos, v.len());
                assert(v@.skip(pos as int) =~= v@.subrange(pos as int, v@.len() as int));
                out.append(tail.as_str());
                break ;
            },
            NextTag::Tag(at, end) => {
                let plain = string_of(&v, pos, at);
                out.append(plain.as_str());
                let ghost sub = read_tags(v@.skip(end + 2), count as nat + 1).0;
                proof {
                    lemma_step_tag(v@, pos as int, at as int, end as int, count as nat);
                    assert((o + plain@) + sub =~= o + (plain@ + sub));
                    lemma_count_is_irrelevant(v@.skip(end + 2), 3, 2);
                }
                if count == 1 {
                    let content = string_of(&v, at + 2, end);
                    match Emotion::from_tag(content.as_str()) {
                        Some(e) => {
                            emotion = Some(e.label_zh().to_string());
                        },
                        None => {},
                    }
                }
                if count < 2 {
                    count += 1;
                }
                pos = end + 2;
            },
            NextTag::Mark(at) => {
                let plain = string_of(&v, pos, at);
                out.append(plain.as_str());
                out.push('<');
                out.push('|');
                let ghost sub = read_tags(v@.skip(at + 2), count as nat).0;
                proof {
                    lemma_step_mark(v@, pos as int, at as int, count as nat);
                    assert(out@ + sub =~= o + (plain@ + tag_open() + sub));
                }
                pos = at + 2;
            },
        }
    }
    let trimmed = trim(out.as_str());
    AsrParseResult { text: trimmed, emotion }
}

/// The text that is left does not depend on how many tags came before.
proof fn lemma_count_is_irrelevant(rest: Seq<char>, a: nat, b: nat)
    ensures
        read_tags(rest, a).0 == read_tags(rest, b).0,
    decreases rest.len(),
{
    match find_from(rest, tag_open(), 0) {
        None => {},
        Some(o) => {
            if 0 <= o && o + 2 <= rest.len() {
                let after = rest.skip(o + 2);
                match find_from(after, tag_close(), 0) {
                    Some(c) => {
                        if 0 <= c && c + 2 <= after.len() {
                            lemma_count_is_irrelevant(after.skip(c + 2), a + 1, b + 1);
                        }
                    },
                    None => {
                        lemma_count_is_irrelevant(after, a, b);
                    },
                }
            }
        },
    }
}

/// Text without an opening mark is kept as it is, but for white space at its ends, and tells no
/// emotion.
pub proof fn law_untagged_text_is_kept(s: Seq<char>)
    requires
        !crate::text::occurs(s, tag_open()),
    ensures
        parse_tags_spec(s) == (trim_spec(s), None::<Seq<char>>),
{
    crate::text::lemma_find_occurs(s, tag_open(), 0);
    if find_from(s, tag_open(), 0) is Some {
        let i = choose|i: int| 0 <= i && occurs_at(s, tag_open(), i);
        assert(crate::text::occurs(s, tag_open()));
    }
}

/// `s` with `content` in front of it as a tag.
pub open spec fn tagged(content: Seq<char>, s: Seq<char>) -> Seq<char> {
    tag_open() + content + tag_close() + s
}

proof fn lemma_read_one_tag(content: Seq<char>, s: Seq<char>, count: nat)
    requires
        !content.contains('|'),
    ensures
        read_tags(tagged(content, s), count).0 == read_tags(s, count + 1).0,
        read_tags(tagged(content, s), count).1 == (if count == 1 {
            tag_label(content)
        } else {
            read_tags(s, count + 1).1
        }),
{
    let t = tagged(content, s);
    assert(t.subrange(0, 2) =~= tag_open());
    assert(occurs_at(t, tag_open(), 0));
    assert(find_from(t, tag_open(), 0) == Some(0int));
    let after = t.skip(2);
    assert(after =~= content + tag_close() + s);
    let n = content.len() as int;
    assert forall|i: int| 0 <= i < n implies !occurs_at(after, tag_close(), i) by {
        if occurs_at(after, tag_close(), i) {
            assert(after.subrange(i, i + 2)[0] == after[i]);
            assert(after[i] == content[i]);
            assert(tag_close()[0] == '|');
            assert(content.contains(content[i]));
        }
    }
    assert(after.subrange(n, n + 2) =~= tag_close());
    lemma_find_to(after, tag_close(), 0, n);
    assert(find_from(after, tag_close(), 0) == Some(n));
    assert(after.take(n) =~= content);
    assert(after.skip(n + 2) =~= s);
    assert(t.take(0) + read_tags(s, count + 1).0 =~= read_tags(s, count + 1).0);
}

proof fn lemma_find_to(s: Seq<char>, p: Seq<char>, from: int, to: int)
    requires
        0 <= from <= to,
        occurs_at(s, p, to),
        forall|i: int| from <= i < to ==> !occurs_at(s, p, i),
    ensures
        find_from(s, p, from) == Some(to),
    decreases to - from,
{
    if from < to {
        lemma_find_to(s, p, from + 1, to);
    }
}

/// Of tagged speech the words are kept and the second tag tells the emotion, whatever the first
/// one and the words are.
pub proof fn law_second_tag_is_the_emotion(first: Seq<char>, second: Seq<char>, words: Seq<char>)
    requires
        !first.contains('|'),
        !second.contains('|'),
    ensures
        parse_tags_spec(tagged(first, tagged(second, words))) == (
            trim_spec(read_tags(words, 2).0),
            tag_label(second),
        ),
{
    lemma_read_one_tag(first, tagged(second, words), 0);
    lemma_read_one_tag(second, words, 1);
}

/// A tag is taken out wherever it stands, and the words before it and behind it are kept.
pub proof fn law_tags_are_taken_out(before: Seq<char>, content: Seq<char>, rest: Seq<char>, count: nat)
    requires
        !before.contains('<'),
        !content.contains('|'),
    ensures
        read_tags(before + tagged(content, rest), count).0 == before + read_tags(rest, count).0,
        count != 1 ==> read_tags(before + tagged(content, rest), count).1 == read_tags(rest, count + 1).1,
        count == 1 ==> read_tags(before + tagged(content, rest), count).1 == tag_label(content),
{
    let s = before + tagged(content, rest);
    let n = before.len() as int;
    assert forall|i: int| 0 <= i < n implies !occurs_at(s, tag_open(), i) by {
        if occurs_at(s, tag_open(), i) {
            assert(s.subrange(i, i + 2)[0] == s[i]);
            assert(s[i] == before[i]);
            assert(before.contains(before[i]));
        }
    }
    assert(s.subrange(n, n + 2) =~= tag_open());
    lemma_find_to(s, tag_open(), 0, n);
    let t = tagged(content, rest);
    let after = s.skip(n + 2);
    assert(after =~= t.skip(2));
    assert(after =~= content + tag_close() + rest);
    let m = content.len() as int;
    assert forall|i: int| 0 <= i < m implies !occurs_at(after, tag_close(), i) by {
        if occurs_at(after, tag_close(), i) {
            assert(after.subrange(i, i + 2)[0] == after[i]);
            assert(after[i] == content[i]);
            assert(content.contains(content[i]));
        }
    }
    assert(after.subrange(m, m + 2) =~= tag_close());
    lemma_find_to(after, tag_close(), 0, m);
    assert(after.take(m) =~= content);
    assert(after.skip(m + 2) =~= rest);
    assert(s.take(n) =~= before);
    lemma_count_is_irrelevant(rest, count + 1, count);
}

/// Speech with two tags in front is its words and the emotion of the second; with one tag it is its
/// words and no emotion.
pub proof fn law_tagged_speech_is_understood(
    first: Seq<char>,
    second: Seq<char>,
    words: Seq<char>,
)
    requires
        !first.contains('|'),
        !second.contains('|'),
        !crate::text::occurs(words, tag_open()),
    ensures
        parse_tags_spec(tagged(first, tagged(second, words))) == (trim_spec(words), tag_label(second)),
        parse_tags_spec(tagged(first, words)) == (trim_spec(words), None::<Seq<char>>),
{
    law_second_tag_is_the_emotion(first, second, words);
    lemma_read_one_tag(first, words, 0);
    crate::text::lemma_find_occurs(words, tag_open(), 0);
    if find_from(words, tag_open(), 0) is Some {
        let i = choose|i: int| 0 <= i && occurs_at(words, tag_open(), i);
        assert(crate::text::occurs(words, tag_open()));
    }
}

/// How the name of an emotion is written does not matter, and no two emotions share a label.
pub proof fn law_emotions_are_told_apart(a: Seq<char>, b: Seq<char>, x: Emotion, y: Emotion)
    ensures
        upper_spec(a) == upper_spec(b) ==> tag_label(a) == tag_label(b),
        x != y ==> label_spec(x) != label_spec(y),
{
    reveal_strlit("开心");
    reveal_strlit("悲伤");
    reveal_strlit("愤怒");
    reveal_strlit("中性");
    reveal_strlit("恐惧");
    reveal_strlit("厌恶");
    reveal_strlit("惊讶");
    if x != y {
        assert(label_spec(x)[0] != label_spec(y)[0]);
    }
}

} // verus!

//! Where a sentence ends.

use vstd::prelude::*;
use vstd::utf8::encode_utf8;

use crate::text::{chars_of, lemma_utf8_prefix, lemma_utf8_push, string_of, utf8_width};

verus! {

/// The punctuation that ends a sentence, in full and in half width.
pub open spec fn ends_sentence(c: char) -> bool {
    c == '。' || c == '！' || c == '？' || c == '.' || c == '!' || c == '?'
}

/// How many characters the first sentence of `s` has, its mark among them.
pub open spec fn sentence_len_from(s: Seq<char>, from: int) -> Option<int>
    decreases s.len() - from,
{
    if from < 0 || from >= s.len() {
        None
    } else if ends_sentence(s[from]) {
        Some(from + 1)
    } else {
        sentence_len_from(s, from + 1)
    }
}

pub open spec fn sentence_len(s: Seq<char>) -> Option<int> {
    sentence_len_from(s, 0)
}

/// The complete sentences at the start of `s`, in order.
pub open spec fn complete_sentences(s: Seq<char>) -> Seq<Seq<char>>
    decreases s.len(),
{
    match sentence_len(s) {
        Some(n) => if 0 < n <= s.len() {
            seq![s.take(n)] + complete_sentences(s.skip(n))
        } else {
            Seq::empty()
        },
        None => Seq::empty(),
    }
}

/// What is left of `s` after its complete sentences.
pub open spec fn unfinished_sentence(s: Seq<char>) -> Seq<char>
    decreases s.len(),
{
    match sentence_len(s) {
        Some(n) => if 0 < n <= s.len() {
            unfinished_sentence(s.skip(n))
        } else {
            s
        },
        None => s,
    }
}

/// The concatenation of `parts`.
pub open spec fn concat_all(parts: Seq<Seq<char>>) -> Seq<char>
    decreases parts.len(),
{
    if parts.len() == 0 {
        Seq::empty()
    } else {
        parts[0] + concat_all(parts.drop_first())
    }
}

fn is_sentence_end(c: char) -> (r: bool)
    ensures
        r == ends_sentence(c),
{
    c == '。' || c == '！' || c == '？' || c == '.' || c == '!' || c == '?'
}

proof fn lemma_sentence_len_skip(s: Seq<char>, from: int, to: int)
    requires
        0 <= from <= to <= s.len(),
        forall|k: int| from <= k < to ==> !ends_sentence(#[trigger] s[k]),
    ensures
        sentence_len_from(s, from) == sentence_len_from(s, to),
    decreases to - from,
{
    if from < to {
        assert(!ends_sentence(s[from]));
        lemma_sentence_len_skip(s, from + 1, to);
    }
}

/// The length of the first sentence lies within the text, and its last character is the only
/// mark in it.
pub proof fn lemma_sentence_len_bounds(s: Seq<char>, from: int)
    requires
        0 <= from,
    ensures
        sentence_len_from(s, from) is Some ==> from < sentence_len_from(s, from)->0 <= s.len()
            && ends_sentence(s[sentence_len_from(s, from)->0 - 1]),
        sentence_len_from(s, from) is Some ==> forall|k: int|
            from <= k < sentence_len_from(s, from)->0 - 1 ==> !ends_sentence(#[trigger] s[k]),
        sentence_len_from(s, from) is None ==> forall|k: int|
            from <= k < s.len() ==> !ends_sentence(#[trigger] s[k]),
    decreases s.len() - from,
{
    if from < s.len() && !ends_sentence(s[from]) {
        lemma_sentence_len_bounds(s, from + 1);
    }
}

/// The byte position right behind the first punctuation mark that ends a sentence.
pub fn next_sentence_end(buf: &str) -> (r: Option<usize>)
    ensures
        match sentence_len(buf@) {
            Some(n) => r is Some && r->0 == encode_utf8(buf@.take(n)).len() && r->0 > 0,
            None => r is None,
        },
{
    let v = chars_of(buf);
    let bytes = buf.as_bytes();
    let total: usize = bytes.len();
    let mut at: usize = 0;
    let mut i: usize = 0;
    assert(v@.take(0) =~= Seq::<char>::empty());
    assert(encode_utf8(Seq::<char>::empty()).len() == 0);
    while i < v.len()
        invariant
            i <= v@.len(),
            v@ == buf@,
            at == encode_utf8(v@.take(i as int)).len(),
            total == encode_utf8(v@).len(),
            at <= total,
            forall|k: int| 0 <= k < i ==> !ends_sentence(#[trigger] v@[k]),
        decreases v@.len() - i,
    {
        proof {
            lemma_utf8_push(v@.take(i as int), v@[i as int]);
            assert(v@.take(i + 1) =~= v@.take(i as int).push(v@[i as int]));
            lemma_utf8_prefix(v@, i + 1);
        }
        let w: usize = utf8_width(v[i]);
        at += w;
        if is_sentence_end(v[i]) {
            proof {
                lemma_sentence_len_skip(v@, 0, i as int);
            }
            return Some(at);
        }
        i += 1;
    }
    proof {
        lemma_sentence_len_skip(v@, 0, i as int);
    }
    None
}

/// Cuts the first complete sentence off `buf`: the sentence and what follows it.
pub fn split_sentence(buf: &str) -> (r: Option<(String, String)>)
    ensures
        match sentence_len(buf@) {
            Some(n) => r is Some && (r->0).0@ == buf@.take(n) && (r->0).1@ == buf@.skip(n) && 0 < n
                <= buf@.len(),
            None => r is None,
        },
{
    let v = chars_of(buf);
    let mut i: usize = 0;
    while i < v.len()
        invariant
            i <= v@.len(),
            v@ == buf@,
            forall|k: int| 0 <= k < i ==> !ends_sentence(#[trigger] v@[k]),
        decreases v@.len() - i,
    {
        if is_sentence_end(v[i]) {
            proof {
                lemma_sentence_len_skip(v@, 0, i as int);
                assert(v@.take(i + 1) =~= v@.subrange(0, i + 1));
                assert(v@.skip(i + 1) =~= v@.subrange(i + 1, v@.len() as int));
            }
            return Some((string_of(&v, 0, i + 1), string_of(&v, i + 1, v.len())));
        }
        i += 1;
    }
    proof {
        lemma_sentence_len_skip(v@, 0, i as int);
    }
    None
}

/// Cutting a text into sentences loses nothing: the sentences and what is left, joined again,
/// are the text.
pub proof fn law_sentences_make_up_the_text(s: Seq<char>)
    ensures
        concat_all(complete_sentences(s)) + unfinished_sentence(s) == s,
        sentence_len(unfinished_sentence(s)) is None,
    decreases s.len(),
{
    lemma_sentence_len_bounds(s, 0);
    match sentence_len(s) {
        Some(n) => {
            law_sentences_make_up_the_text(s.skip(n));
            let parts = complete_sentences(s);
            assert(parts.drop_first() =~= complete_sentences(s.skip(n)));
            assert(s.take(n) + s.skip(n) =~= s);
            assert(concat_all(parts) + unfinished_sentence(s) =~= s.take(n) + (concat_all(
                complete_sentences(s.skip(n)),
            ) + unfinished_sentence(s.skip(n))));
        },
        None => {
            assert(concat_all(complete_sentences(s)) + s =~= s);
        },
    }
}

/// Each complete sentence ends with a mark and has none before it.
pub proof fn law_sentences_end_with_their_only_mark(s: Seq<char>)
    ensures
        forall|k: int|
            0 <= k < complete_sentences(s).len() ==> sentence_len(#[trigger] complete_sentences(s)[k])
                == Some(complete_sentences(s)[k].len() as int),
    decreases s.len(),
{
    lemma_sentence_len_bounds(s, 0);
    match sentence_len(s) {
        Some(n) => {
            law_sentences_end_with_their_only_mark(s.skip(n));
            let t = s.take(n);
            assert forall|k: int| 0 <= k < n - 1 implies !ends_sentence(#[trigger] t[k]) by {
                assert(!ends_sentence(s[k]));
            }
            lemma_sentence_len_skip(t, 0, n - 1);
            assert(ends_sentence(t[n - 1]));
            assert(sentence_len(t) == Some(n));
            let parts = complete_sentences(s);
            assert forall|k: int| 0 <= k < parts.len() implies sentence_len(#[trigger] parts[k]) == Some(
                parts[k].len() as int,
            ) by {
                if k > 0 {
                    assert(parts[k] == complete_sentences(s.skip(n))[k - 1]);
                }
            }
        },
        None => {},
    }
}

} // verus!

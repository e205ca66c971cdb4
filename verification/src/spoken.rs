//! What is spoken of a written answer, as a listener can tell: what is left out, what is kept and
//! in what order.

use vstd::prelude::*;

use crate::speech::{
    alphanumeric, ascii_punctuation, block_spec, break_tokens, char_from, effective_chars, emoji,
    fence, flush_spec, free_of, inline_spec, join_with_space, lemma_leading, lemma_leading_digits,
    lines_spec, link_at, normalize_spec, push_spec, read_lines, spoken_line, tts_text_spec,
    without_emoji, MIN_TTS_CHARS,
};
use crate::text::{
    blank, is_digit, law_trim_takes_white_space_off, lemma_trim_twice, replace_spec, trim_end_spec,
    trim_spec, trim_start_spec, white_space,
};

verus! {

// ---- code blocks ----

/// A line that begins, behind white space, with three back quotes or three tildes.
pub open spec fn marks_code(line: Seq<char>) -> bool {
    let t = trim_spec(line);
    t.len() >= 3 && ((t[0] == '`' && t[1] == '`' && t[2] == '`') || (t[0] == '~' && t[1] == '~' && t[2]
        == '~'))
}

proof fn lemma_marks_code(line: Seq<char>)
    ensures
        fence(trim_spec(line)) == marks_code(line),
{
    reveal_strlit("```");
    reveal_strlit("~~~");
    let t = trim_spec(line);
    if marks_code(line) {
        if t[0] == '`' {
            assert("```"@ =~= t.take(3));
        } else {
            assert("~~~"@ =~= t.take(3));
        }
    }
    if "```"@.is_prefix_of(t) {
        assert("```"@[0] == t[0] && "```"@[1] == t[1] && "```"@[2] == t[2]);
    }
    if "~~~"@.is_prefix_of(t) {
        assert("~~~"@[0] == t[0] && "~~~"@[1] == t[1] && "~~~"@[2] == t[2]);
    }
}

/// How many lines mark the beginning or the end of a code block.
pub open spec fn code_marks(lines: Seq<Seq<char>>) -> nat
    decreases lines.len(),
{
    if lines.len() == 0 {
        0
    } else {
        code_marks(lines.drop_last()) + (if marks_code(lines.last()) {
            1nat
        } else {
            0
        })
    }
}

proof fn lemma_open_block(lines: Seq<Seq<char>>)
    ensures
        read_lines(lines).0 == (code_marks(lines) % 2 == 1),
    decreases lines.len(),
{
    if lines.len() > 0 {
        lemma_open_block(lines.drop_last());
        lemma_marks_code(lines.last());
    }
}

/// Lines behind closed blocks are read as if they stood alone.
proof fn lemma_read_on(a: Seq<Seq<char>>, b: Seq<Seq<char>>)
    requires
        !read_lines(a).0,
    ensures
        read_lines(a + b).0 == read_lines(b).0,
        read_lines(a + b).1 == read_lines(a).1 + read_lines(b).1,
    decreases b.len(),
{
    if b.len() == 0 {
        assert(a + b =~= a);
        assert(read_lines(a).1 + read_lines(b).1 =~= read_lines(a).1);
    } else {
        lemma_read_on(a, b.drop_last());
        assert((a + b).drop_last() =~= a + b.drop_last());
        assert((a + b).last() == b.last());
        let x = read_lines(a).1;
        let y = read_lines(b.drop_last()).1;
        assert((x + y).push(spoken_line(trim_spec(b.last()))) =~= x + y.push(
            spoken_line(trim_spec(b.last())),
        ));
    }
}

/// Nothing is read inside an open block.
proof fn lemma_read_in_block(a: Seq<Seq<char>>, c: Seq<Seq<char>>)
    requires
        read_lines(a).0,
        forall|i: int| 0 <= i < c.len() ==> !marks_code(#[trigger] c[i]),
    ensures
        read_lines(a + c) == read_lines(a),
    decreases c.len(),
{
    if c.len() == 0 {
        assert(a + c =~= a);
    } else {
        let before = c.drop_last();
        assert forall|i: int| 0 <= i < before.len() implies !marks_code(#[trigger] before[i]) by {
            assert(before[i] == c[i]);
        }
        lemma_read_in_block(a, before);
        assert((a + c).drop_last() =~= a + before);
        assert((a + c).last() == c.last());
        assert(!marks_code(c[c.len() - 1]));
        lemma_marks_code(c.last());
    }
}

/// A code block is never read aloud: whatever stands between the line that opens it and the line
/// that closes it, the lines before the block and behind it are spoken, and nothing else.
pub proof fn law_code_blocks_are_silent(
    before: Seq<Seq<char>>,
    opening: Seq<char>,
    code: Seq<Seq<char>>,
    closing: Seq<char>,
    behind: Seq<Seq<char>>,
)
    requires
        code_marks(before) % 2 == 0,
        marks_code(opening),
        forall|i: int| 0 <= i < code.len() ==> !marks_code(#[trigger] code[i]),
        marks_code(closing),
    ensures
        read_lines(before + seq![opening] + code + seq![closing] + behind).1 == read_lines(before).1
            + read_lines(behind).1,
{
    lemma_open_block(before);
    let a = before + seq![opening];
    assert(a.drop_last() =~= before);
    lemma_marks_code(opening);
    assert(read_lines(a) == (true, read_lines(before).1));
    lemma_read_in_block(a, code);
    let b = a + code + seq![closing];
    assert(b.drop_last() =~= a + code);
    lemma_marks_code(closing);
    assert(read_lines(b) == (false, read_lines(before).1));
    lemma_read_on(b, behind);
}

/// A block that is never closed silences the rest.
pub proof fn law_open_block_silences_the_rest(
    before: Seq<Seq<char>>,
    opening: Seq<char>,
    code: Seq<Seq<char>>,
)
    requires
        code_marks(before) % 2 == 0,
        marks_code(opening),
        forall|i: int| 0 <= i < code.len() ==> !marks_code(#[trigger] code[i]),
    ensures
        read_lines(before + seq![opening] + code).1 == read_lines(before).1,
{
    lemma_open_block(before);
    let a = before + seq![opening];
    assert(a.drop_last() =~= before);
    lemma_marks_code(opening);
    lemma_read_in_block(a, code);
}

/// Outside code blocks every line is spoken, one after the other: what is spoken of lines is what
/// is spoken of the first ones followed by what is spoken of the others.
pub proof fn law_lines_are_spoken_in_order(a: Seq<Seq<char>>, b: Seq<Seq<char>>)
    requires
        code_marks(a) % 2 == 0,
    ensures
        read_lines(a + b).1 == read_lines(a).1 + read_lines(b).1,
{
    lemma_open_block(a);
    lemma_read_on(a, b);
}

// ---- inline marks ----

/// A character that means nothing but itself inside a line.
pub open spec fn plain_char(c: char) -> bool {
    c != '[' && c != '<' && c != '\\' && c != '`' && c != '*' && c != '_' && c != '~'
}

/// A text in which every character means nothing but itself.
pub open spec fn plain(s: Seq<char>) -> bool {
    forall|i: int| 0 <= i < s.len() ==> plain_char(#[trigger] s[i])
}

proof fn lemma_char_from_shift(s: Seq<char>, c: char, at: int, from: int)
    requires
        0 <= at <= from,
    ensures
        match char_from(s, c, from) {
            Some(i) => from <= i < s.len() && s[i] == c && char_from(s.skip(at), c, from - at) == Some(
                i - at,
            ),
            None => at <= s.len() ==> char_from(s.skip(at), c, from - at) is None,
        },
    decreases s.len() - from,
{
    if from < s.len() {
        assert(s.skip(at)[from - at] == s[from]);
        if s[from] != c {
            lemma_char_from_shift(s, c, at, from + 1);
        }
    }
}

/// What is left of a line from a position on depends on nothing before it.
proof fn lemma_inline_shift(s: Seq<char>, at: int, i: int)
    requires
        0 <= at <= i,
        at <= s.len(),
    ensures
        inline_spec(s, i) == inline_spec(s.skip(at), i - at),
    decreases s.len() - i,
{
    let t = s.skip(at);
    if i < s.len() {
        let k = i - at;
        assert(t[k] == s[i]);
        if i + 1 < s.len() {
            assert(t[k + 1] == s[i + 1]);
        }
        lemma_char_from_shift(s, ']', at, i + 1);
        lemma_char_from_shift(s, ']', at, i + 2);
        lemma_char_from_shift(s, '>', at, i + 1);
        match link_at(s, i) {
            Some((open, close, end)) => {
                lemma_char_from_shift(s, ']', at, open + 1);
                lemma_char_from_shift(s, ')', at, close + 2);
                assert(t[close + 1 - at] == s[close + 1]);
                assert(link_at(t, k) == Some((open - at, close - at, end - at)));
                lemma_inline_shift(s, at, end + 1);
                assert(t.subrange(open + 1 - at, close - at) =~= s.subrange(open + 1, close));
            },
            None => {
                assert(link_at(t, k) is None) by {
                    if s[i] == '[' || (s[i] == '!' && i + 1 < s.len() && s[i + 1] == '[') {
                        let open = if s[i] == '[' {
                            i
                        } else {
                            i + 1
                        };
                        match char_from(s, ']', open + 1) {
                            Some(close) => {
                                if close + 1 < s.len() {
                                    assert(t[close + 1 - at] == s[close + 1]);
                                    lemma_char_from_shift(s, ')', at, close + 2);
                                }
                            },
                            None => {},
                        }
                    }
                }
                let tag = if s[i] == '<' {
                    char_from(s, '>', i + 1)
                } else {
                    None
                };
                match tag {
                    Some(end) => {
                        lemma_inline_shift(s, at, end + 1);
                    },
                    None => {
                        lemma_inline_shift(s, at, i + 1);
                        if i + 1 < s.len() {
                            lemma_inline_shift(s, at, i + 2);
                        }
                    },
                }
            },
        }
    }
}

/// `x` does not end with the mark that makes an image of a link behind it.
pub open spec fn no_image_mark(x: Seq<char>) -> bool {
    x.len() == 0 || x.last() != '!'
}

/// Plain text at the start of a line is spoken as it is, whatever follows.
proof fn lemma_plain_start(x: Seq<char>, rest: Seq<char>)
    requires
        plain(x),
        no_image_mark(x) || rest.len() == 0 || rest[0] != '[',
    ensures
        inline_spec(x + rest, 0) == x + inline_spec(rest, 0),
    decreases x.len(),
{
    let s = x + rest;
    if x.len() == 0 {
        assert(s =~= rest);
        assert(x + inline_spec(rest, 0) =~= inline_spec(rest, 0));
    } else {
        let y = x.drop_first();
        assert forall|i: int| 0 <= i < y.len() implies plain_char(#[trigger] y[i]) by {
            assert(y[i] == x[i + 1]);
        }
        lemma_plain_start(y, rest);
        assert(plain_char(x[0]));
        if x.len() > 1 {
            assert(plain_char(x[1]));
            assert(s[1] == x[1]);
        }
        assert(s[0] == x[0]);
        lemma_inline_shift(s, 1, 1);
        assert(s.skip(1) =~= y + rest);
        assert(inline_spec(s, 0) == seq![s[0]] + inline_spec(s, 1));
        assert(seq![s[0]] + (y + inline_spec(rest, 0)) =~= x + inline_spec(rest, 0));
    }
}

/// Plain words in a line are spoken as they stand.
pub proof fn law_plain_words_are_kept(x: Seq<char>)
    requires
        plain(x),
    ensures
        inline_spec(x, 0) == x,
{
    lemma_plain_start(x, Seq::empty());
    assert(x + Seq::<char>::empty() =~= x);
    assert(x + inline_spec(Seq::empty(), 0) =~= x);
}

/// The marks of emphasis and code are not spoken, and the words around them are.
pub proof fn law_emphasis_marks_go(x: Seq<char>, mark: char, rest: Seq<char>)
    requires
        plain(x),
        mark == '`' || mark == '*' || mark == '_' || mark == '~',
    ensures
        inline_spec(x + seq![mark] + rest, 0) == x + inline_spec(rest, 0),
{
    let s = seq![mark] + rest;
    assert(x + seq![mark] + rest =~= x + s);
    lemma_plain_start(x, s);
    lemma_inline_shift(s, 1, 1);
    assert(s.skip(1) =~= rest);
    assert(s[0] == mark);
}

/// The first position of a character that stands nowhere before it.
proof fn lemma_char_from_first(s: Seq<char>, c: char, from: int, to: int)
    requires
        0 <= from <= to < s.len(),
        s[to] == c,
        forall|k: int| from <= k < to ==> s[k] != c,
    ensures
        char_from(s, c, from) == Some(to),
    decreases to - from,
{
    if from < to {
        lemma_char_from_first(s, c, from + 1, to);
    }
}

/// Of a link its label is spoken and its target is not.
pub proof fn law_link_leaves_its_label(
    x: Seq<char>,
    label: Seq<char>,
    target: Seq<char>,
    rest: Seq<char>,
)
    requires
        plain(x),
        no_image_mark(x),
        !label.contains(']'),
        !target.contains(')'),
    ensures
        inline_spec(
            x + seq!['['] + label + seq![']', '('] + target + seq![')'] + rest,
            0,
        ) == x + label + inline_spec(rest, 0),
{
    let s = seq!['['] + label + seq![']', '('] + target + seq![')'] + rest;
    assert(x + seq!['['] + label + seq![']', '('] + target + seq![')'] + rest =~= x + s);
    lemma_plain_start(x, s);
    let close = label.len() as int + 1;
    let end = close + 2 + target.len();
    assert(s[0] == '[');
    assert(s[close] == ']');
    assert(s[close + 1] == '(');
    assert(s[end] == ')');
    assert forall|k: int| 1 <= k < close implies s[k] != ']' by {
        assert(s[k] == label[k - 1]);
        assert(label.contains(label[k - 1]));
    }
    lemma_char_from_first(s, ']', 1, close);
    assert forall|k: int| close + 2 <= k < end implies s[k] != ')' by {
        assert(s[k] == target[k - (close + 2)]);
        assert(target.contains(target[k - (close + 2)]));
    }
    lemma_char_from_first(s, ')', close + 2, end);
    assert(link_at(s, 0) == Some((0int, close, end)));
    assert(s.subrange(1, close) =~= label);
    lemma_inline_shift(s, end + 1, end + 1);
    assert(s.skip(end + 1) =~= rest);
    assert(x + (label + inline_spec(rest, 0)) =~= x + label + inline_spec(rest, 0));
}

/// Of an image what it shows is spoken and its address is not.
pub proof fn law_image_leaves_its_label(
    x: Seq<char>,
    label: Seq<char>,
    target: Seq<char>,
    rest: Seq<char>,
)
    requires
        plain(x),
        !label.contains(']'),
        !target.contains(')'),
    ensures
        inline_spec(
            x + seq!['!', '['] + label + seq![']', '('] + target + seq![')'] + rest,
            0,
        ) == x + label + inline_spec(rest, 0),
{
    let s = seq!['!', '['] + label + seq![']', '('] + target + seq![')'] + rest;
    assert(x + seq!['!', '['] + label + seq![']', '('] + target + seq![')'] + rest =~= x + s);
    lemma_plain_start(x, s);
    let close = label.len() as int + 2;
    let end = close + 2 + target.len();
    assert(s[0] == '!');
    assert(s[1] == '[');
    assert(s[close] == ']');
    assert(s[close + 1] == '(');
    assert(s[end] == ')');
    assert forall|k: int| 2 <= k < close implies s[k] != ']' by {
        assert(s[k] == label[k - 2]);
        assert(label.contains(label[k - 2]));
    }
    lemma_char_from_first(s, ']', 2, close);
    assert forall|k: int| close + 2 <= k < end implies s[k] != ')' by {
        assert(s[k] == target[k - (close + 2)]);
        assert(target.contains(target[k - (close + 2)]));
    }
    lemma_char_from_first(s, ')', close + 2, end);
    assert(link_at(s, 0) == Some((1int, close, end)));
    assert(s.subrange(2, close) =~= label);
    lemma_inline_shift(s, end + 1, end + 1);
    assert(s.skip(end + 1) =~= rest);
    assert(x + (label + inline_spec(rest, 0)) =~= x + label + inline_spec(rest, 0));
}

/// A tag in angle brackets is not spoken.
pub proof fn law_tags_go(x: Seq<char>, tag: Seq<char>, rest: Seq<char>)
    requires
        plain(x),
        !tag.contains('>'),
    ensures
        inline_spec(x + seq!['<'] + tag + seq!['>'] + rest, 0) == x + inline_spec(rest, 0),
{
    let s = seq!['<'] + tag + seq!['>'] + rest;
    assert(x + seq!['<'] + tag + seq!['>'] + rest =~= x + s);
    lemma_plain_start(x, s);
    let end = tag.len() as int + 1;
    assert(s[0] == '<');
    assert(s[end] == '>');
    assert forall|k: int| 1 <= k < end implies s[k] != '>' by {
        assert(s[k] == tag[k - 1]);
        assert(tag.contains(tag[k - 1]));
    }
    lemma_char_from_first(s, '>', 1, end);
    lemma_inline_shift(s, end + 1, end + 1);
    assert(s.skip(end + 1) =~= rest);
}

/// Punctuation behind a backslash is spoken as itself, without the backslash.
pub proof fn law_quoted_punctuation_is_kept(x: Seq<char>, c: char, rest: Seq<char>)
    requires
        plain(x),
        ascii_punctuation(c),
    ensures
        inline_spec(x + seq!['\\', c] + rest, 0) == x + seq![c] + inline_spec(rest, 0),
{
    let s = seq!['\\', c] + rest;
    assert(x + seq!['\\', c] + rest =~= x + s);
    lemma_plain_start(x, s);
    assert(s[0] == '\\' && s[1] == c);
    lemma_inline_shift(s, 2, 2);
    assert(s.skip(2) =~= rest);
    assert(x + (seq![c] + inline_spec(rest, 0)) =~= x + seq![c] + inline_spec(rest, 0));
}

// ---- markers, pictures and whole texts ----

proof fn lemma_trim_start_of(a: Seq<char>, t: Seq<char>)
    requires
        blank(a),
        t.len() > 0,
        !white_space(t[0]),
    ensures
        trim_start_spec(a + t) == t,
    decreases a.len(),
{
    if a.len() == 0 {
        assert(a + t =~= t);
    } else {
        assert(white_space(a[0]));
        assert forall|i: int| 0 <= i < a.drop_first().len() implies white_space(
            #[trigger] a.drop_first()[i],
        ) by {
            assert(white_space(a[i + 1]));
        }
        lemma_trim_start_of(a.drop_first(), t);
        assert((a + t).drop_first() =~= a.drop_first() + t);
    }
}

proof fn lemma_trim_end_of(t: Seq<char>, b: Seq<char>)
    requires
        blank(b),
        t.len() > 0,
        !white_space(t.last()),
    ensures
        trim_end_spec(t + b) == t,
    decreases b.len(),
{
    if b.len() == 0 {
        assert(t + b =~= t);
    } else {
        assert(white_space(b[b.len() - 1]));
        assert forall|i: int| 0 <= i < b.drop_last().len() implies white_space(
            #[trigger] b.drop_last()[i],
        ) by {
            assert(white_space(b[i]));
        }
        lemma_trim_end_of(t, b.drop_last());
        assert((t + b).drop_last() =~= t + b.drop_last());
    }
}

/// What stands between white space is what trimming leaves.
proof fn lemma_trim_of(a: Seq<char>, t: Seq<char>, b: Seq<char>)
    requires
        blank(a),
        blank(b),
        t.len() > 0,
        !white_space(t[0]),
        !white_space(t.last()),
    ensures
        trim_spec(a + t + b) == t,
{
    assert(a + t + b =~= a + (t + b));
    lemma_trim_start_of(a, t + b);
    lemma_trim_end_of(t, b);
}

/// A text in which no picture stands.
pub open spec fn no_pictures(s: Seq<char>) -> bool {
    forall|i: int| 0 <= i < s.len() ==> !emoji(#[trigger] s[i])
}

/// Taking pictures out goes character by character: of two texts joined, what is left of each is
/// left, in order.
pub proof fn law_pictures_go(a: Seq<char>, b: Seq<char>)
    ensures
        without_emoji(a + b) == without_emoji(a) + without_emoji(b),
    decreases b.len(),
{
    if b.len() == 0 {
        assert(a + b =~= a);
        assert(without_emoji(a) + without_emoji(b) =~= without_emoji(a));
    } else {
        law_pictures_go(a, b.drop_last());
        assert((a + b).drop_last() =~= a + b.drop_last());
        assert((a + b).last() == b.last());
        assert((without_emoji(a) + without_emoji(b.drop_last())).push(b.last()) =~= without_emoji(a)
            + without_emoji(b.drop_last()).push(b.last()));
    }
}

/// A text without pictures is kept whole.
pub proof fn law_text_without_pictures_is_kept(s: Seq<char>)
    requires
        no_pictures(s),
    ensures
        without_emoji(s) == s,
    decreases s.len(),
{
    if s.len() > 0 {
        assert(!emoji(s[s.len() - 1]));
        assert forall|i: int| 0 <= i < s.drop_last().len() implies !emoji(#[trigger] s.drop_last()[i]) by {
            assert(!emoji(s[i]));
        }
        law_text_without_pictures_is_kept(s.drop_last());
        assert(s.drop_last().push(s.last()) =~= s);
    } else {
        assert(without_emoji(s) =~= s);
    }
}

/// Words that are spoken as they stand, wherever in a line.
pub open spec fn words(s: Seq<char>) -> bool {
    plain(s) && no_pictures(s)
}

/// What is left of a trimmed line when its marker is gone and nothing else is to be taken out.
proof fn lemma_spoken_words(line: Seq<char>, t: Seq<char>)
    requires
        trim_spec(block_spec(trim_spec(line))) == t,
        words(t),
    ensures
        spoken_line(line) == t,
{
    law_plain_words_are_kept(t);
    law_text_without_pictures_is_kept(t);
}

/// The marker of a heading, a bullet or a numbered item.
pub open spec fn is_marker(m: Seq<char>) -> bool {
    ||| (1 <= m.len() <= 6 && forall|i: int| 0 <= i < m.len() ==> #[trigger] m[i] == '#')
    ||| m == seq!['-'] || m == seq!['*'] || m == seq!['+']
    ||| (m.len() >= 2 && (m.last() == '.' || m.last() == ')') && forall|i: int|
        0 <= i < m.len() - 1 ==> '0' <= #[trigger] m[i] <= '9')
}

/// The marker in front of a heading or an item is not spoken, and its words are.
pub proof fn law_markers_go(marker: Seq<char>, space: char, x: Seq<char>)
    requires
        is_marker(marker),
        white_space(space),
        words(x),
        trim_spec(x).len() > 0,
    ensures
        spoken_line(marker + seq![space] + x) == trim_spec(x),
{
    let line = marker + seq![space] + x;
    let i = law_trim_takes_white_space_off(x);
    let t = trim_spec(x);
    let a = x.take(i);
    let b = x.skip(i + t.len());
    assert(x =~= a + t + b);
    let l = marker + seq![space] + a + t;
    assert(line =~= Seq::<char>::empty() + l + b);
    assert(l[0] == marker[0]);
    assert(l.last() == t.last());
    lemma_trim_of(Seq::empty(), l, b);
    let n = marker.len() as int;
    assert(l[n] == space);
    let gap = seq![space] + a;
    assert forall|k: int| 0 <= k < gap.len() implies white_space(#[trigger] gap[k]) by {
        if k > 0 {
            assert(white_space(a[k - 1]));
        }
    }
    lemma_trim_start_of(gap, t);
    assert(block_spec(l) == t) by {
        if marker[0] == '#' {
            assert forall|k: int| 0 <= k < n implies l[k] == '#' by {
                assert(l[k] == marker[k]);
            }
            lemma_leading(l, '#', n);
            assert(l.skip(n) =~= gap + t);
        } else if n == 1 {
            lemma_leading(l, '#', 0);
            assert(l.skip(1) =~= gap + t);
        } else {
            assert('0' <= marker[0] <= '9');
            lemma_leading(l, '#', 0);
            assert forall|k: int| 0 <= k < n - 1 implies is_digit(#[trigger] l[k]) by {
                assert(l[k] == marker[k]);
            }
            assert(l[n - 1] == marker.last());
            lemma_leading_digits(l, n - 1);
            assert(l.skip(n) =~= gap + t);
        }
    }
    assert(t =~= Seq::<char>::empty() + t + Seq::<char>::empty());
    lemma_trim_of(Seq::empty(), t, Seq::empty());
    assert forall|k: int| 0 <= k < t.len() implies plain_char(#[trigger] t[k]) && !emoji(t[k]) by {
        assert(t[k] == x[i + k]);
    }
    lemma_spoken_words(line, t);
}

/// A line of words that does not begin like a marker is spoken as it stands, but for white space
/// around it. So is one without white space inside, whatever it begins with.
pub proof fn law_words_are_spoken(line: Seq<char>)
    requires
        words(line),
        trim_spec(line).len() > 0,
        ({
            let t = trim_spec(line);
            ||| (t[0] != '#' && t[0] != '-' && t[0] != '+' && !('0' <= t[0] <= '9'))
            ||| forall|k: int| 0 <= k < t.len() ==> !white_space(#[trigger] t[k])
        }),
    ensures
        spoken_line(line) == trim_spec(line),
{
    let i = law_trim_takes_white_space_off(line);
    let t = trim_spec(line);
    assert forall|k: int| 0 <= k < t.len() implies plain_char(#[trigger] t[k]) && !emoji(t[k]) by {
        assert(t[k] == line[i + k]);
    }
    assert(plain_char(t[0]));
    if forall|k: int| 0 <= k < t.len() ==> !white_space(#[trigger] t[k]) {
        assert(block_spec(t) == t);
    } else {
        lemma_leading(t, '#', 0);
        lemma_leading_digits(t, 0);
        assert(block_spec(t) == t);
    }
    lemma_trim_twice(line);
    lemma_spoken_words(line, t);
}

/// A character that belongs to a way of writing a line break.
pub open spec fn break_char(c: char) -> bool {
    c == '\\' || c == '/' || c == '\r'
}

proof fn lemma_break_tokens_start(x: Seq<char>, rest: Seq<char>)
    requires
        free_of(x, |c: char| break_char(c)),
    ensures
        break_tokens(x + rest) == x + break_tokens(rest),
    decreases x.len(),
{
    let bad = |c: char| break_char(c);
    if x.len() == 0 {
        assert(x + rest =~= rest);
        assert(x + break_tokens(rest) =~= break_tokens(rest));
    } else {
        let y = x.drop_first();
        assert(!bad(x[0]));
        assert forall|i: int| 0 <= i < y.len() implies !bad(#[trigger] y[i]) by {
            assert(!bad(x[i + 1]));
        }
        lemma_break_tokens_start(y, rest);
        assert((x + rest).drop_first() =~= y + rest);
        assert(seq![x[0]] + (y + break_tokens(rest)) =~= x + break_tokens(rest));
    }
}

proof fn lemma_replace_start(x: Seq<char>, rest: Seq<char>, p: Seq<char>, by: Seq<char>)
    requires
        p.len() > 0,
        forall|i: int| 0 <= i < x.len() ==> #[trigger] x[i] != p[0],
    ensures
        replace_spec(x + rest, p, by) == x + replace_spec(rest, p, by),
    decreases x.len(),
{
    if x.len() == 0 {
        assert(x + rest =~= rest);
        assert(x + replace_spec(rest, p, by) =~= replace_spec(rest, p, by));
    } else {
        let y = x.drop_first();
        let s = x + rest;
        assert forall|i: int| 0 <= i < y.len() implies #[trigger] y[i] != p[0] by {
            assert(y[i] == x[i + 1]);
        }
        lemma_replace_start(y, rest, p, by);
        assert(s.drop_first() =~= y + rest);
        assert(s[0] == x[0]);
        if s.len() >= p.len() {
            assert(s.take(p.len() as int)[0] == s[0]);
            assert(seq![s[0]] + (y + replace_spec(rest, p, by)) =~= x + replace_spec(rest, p, by));
        }
    }
}

/// The ways of writing a line break.
pub open spec fn is_line_break(b: Seq<char>) -> bool {
    b == seq!['\n'] || b == seq!['\r'] || b == seq!['\r', '\n'] || b == seq!['\\', 'n'] || b == seq![
        '/',
        'n',
    ]
}

/// However a line break is written, it is a line break: between two texts, each way of writing it
/// comes to the same.
pub proof fn law_line_breaks_are_alike(x: Seq<char>, b: Seq<char>, y: Seq<char>)
    requires
        is_line_break(b),
        free_of(x, |c: char| break_char(c)),
        free_of(y, |c: char| break_char(c)),
        b.last() == '\r' ==> y.len() == 0 || y[0] != '\n',
    ensures
        normalize_spec(x + b + y) == x + seq!['\n'] + y,
        tts_text_spec(x + b + y) == tts_text_spec(x + seq!['\n'] + y),
{
    lemma_normalized(x, b, y);
    lemma_normalized_plain(x, y);
}

proof fn lemma_normalized_plain(x: Seq<char>, y: Seq<char>)
    requires
        free_of(x, |c: char| break_char(c)),
        free_of(y, |c: char| break_char(c)),
    ensures
        normalize_spec(x + seq!['\n'] + y) == x + seq!['\n'] + y,
{
    lemma_normalized(x, seq!['\n'], y);
}

/// A text without line breaks is kept as it is.
proof fn lemma_normalized_text(x: Seq<char>)
    requires
        free_of(x, |c: char| break_char(c)),
    ensures
        normalize_spec(x) == x,
{
    reveal_strlit("\r\n");
    reveal_strlit("\r");
    reveal_strlit("\n");
    let bad = |c: char| break_char(c);
    let none = Seq::<char>::empty();
    assert(x =~= x + none);
    lemma_break_tokens_start(x, none);
    assert(break_tokens(none) =~= none);
    assert forall|i: int| 0 <= i < x.len() implies #[trigger] x[i] != '\r' by {
        assert(!bad(x[i]));
    }
    lemma_replace_start(x, none, "\r\n"@, "\n"@);
    lemma_replace_start(x, none, "\r"@, "\n"@);
    assert(replace_spec(none, "\r\n"@, "\n"@) =~= none);
    assert(replace_spec(none, "\r"@, "\n"@) =~= none);
}

proof fn lemma_normalized(x: Seq<char>, b: Seq<char>, y: Seq<char>)
    requires
        is_line_break(b),
        free_of(x, |c: char| break_char(c)),
        free_of(y, |c: char| break_char(c)),
        b.last() == '\r' ==> y.len() == 0 || y[0] != '\n',
    ensures
        normalize_spec(x + b + y) == x + seq!['\n'] + y,
{
    reveal_strlit("\r\n");
    reveal_strlit("\r");
    reveal_strlit("\n");
    let crlf = "\r\n"@;
    let cr = "\r"@;
    let lf = "\n"@;
    assert(crlf =~= seq!['\r', '\n']);
    assert(cr =~= seq!['\r']);
    assert(lf =~= seq!['\n']);
    let bad = |c: char| break_char(c);
    let none = Seq::<char>::empty();
    assert forall|i: int| 0 <= i < x.len() implies #[trigger] x[i] != '\r' by {
        assert(!bad(x[i]));
    }
    assert forall|i: int| 0 <= i < y.len() implies #[trigger] y[i] != '\r' by {
        assert(!bad(y[i]));
    }
    // The tokens.
    lemma_break_tokens_start(x, b + y);
    assert(x + b + y =~= x + (b + y));
    lemma_break_tokens_start(y, none);
    assert(y + none =~= y);
    assert(break_tokens(none) =~= none);
    let c = if b[0] == '\\' || b[0] == '/' {
        lf
    } else {
        b
    };
    assert(break_tokens(b + y) == c + y) by {
        let s = b + y;
        if b[0] == '\\' || b[0] == '/' {
            assert(s[1] == 'n');
            assert(s.skip(2) =~= y);
        } else if b.len() == 1 {
            assert(s.drop_first() =~= y);
            assert(seq![s[0]] + y =~= b + y);
        } else {
            let r = s.drop_first();
            assert(r =~= seq!['\n'] + y);
            assert(r.drop_first() =~= y);
            assert(break_tokens(r) == seq![r[0]] + break_tokens(r.drop_first()));
            assert(break_tokens(s) == seq![s[0]] + break_tokens(r));
            assert(seq!['\r'] + (seq!['\n'] + y) =~= b + y);
        }
    }
    let one = x + (c + y);
    assert(break_tokens(x + b + y) == one);
    // The pair.
    let d = if c.len() == 2 {
        lf
    } else {
        c
    };
    lemma_replace_start(x, c + y, crlf, lf);
    lemma_replace_start(y, none, crlf, lf);
    assert(replace_spec(none, crlf, lf) =~= none);
    assert(replace_spec(c + y, crlf, lf) == d + y) by {
        let s = c + y;
        if c.len() == 2 {
            assert(s.take(2) =~= crlf);
            assert(s.skip(2) =~= y);
        } else if c[0] == '\r' {
            assert(s.drop_first() =~= y);
            if s.len() >= 2 {
                assert(s.take(2)[1] == y[0]);
                assert(crlf[1] == '\n');
                assert(seq![s[0]] + y =~= d + y);
            }
        } else {
            assert(forall|i: int| 0 <= i < c.len() ==> #[trigger] c[i] != crlf[0]);
            lemma_replace_start(c, y, crlf, lf);
        }
    }
    let two = x + (d + y);
    assert(replace_spec(one, crlf, lf) == two);
    // The single return.
    lemma_replace_start(x, d + y, cr, lf);
    lemma_replace_start(y, none, cr, lf);
    assert(replace_spec(none, cr, lf) =~= none);
    assert(replace_spec(d + y, cr, lf) == lf + y) by {
        let s = d + y;
        if d[0] == '\r' {
            assert(s.take(1) =~= cr);
            assert(s.skip(1) =~= y);
        } else {
            assert(forall|i: int| 0 <= i < d.len() ==> #[trigger] d[i] != cr[0]);
            lemma_replace_start(d, y, cr, lf);
        }
    }
    assert(x + (lf + y) =~= x + seq!['\n'] + y);
}

/// A text is cut into lines at its line breaks.
pub proof fn law_lines_end_at_breaks(x: Seq<char>, y: Seq<char>)
    requires
        !x.contains('\n'),
    ensures
        lines_spec(x + seq!['\n'] + y) == seq![x] + lines_spec(y),
        x.len() > 0 ==> lines_spec(x) == seq![x],
{
    let s = x + seq!['\n'] + y;
    let n = x.len() as int;
    assert(s[n] == '\n');
    assert forall|k: int| 0 <= k < n implies s[k] != '\n' by {
        assert(s[k] == x[k]);
        assert(x.contains(x[k]));
    }
    lemma_char_from_first(s, '\n', 0, n);
    assert(s.take(n) =~= x);
    assert(s.skip(n + 1) =~= y);
    if x.len() > 0 {
        assert(x.skip(0) =~= x);
        lemma_char_from_shift(x, '\n', 0, 0);
        match char_from(x, '\n', 0) {
            Some(i) => {
                assert(x.contains(x[i]));
            },
            None => {},
        }
    }
}

proof fn lemma_join_first(p: Seq<char>, q: Seq<Seq<char>>)
    ensures
        join_with_space(seq![p] + q) == (if q.len() == 0 {
            p
        } else {
            p + seq![' '] + join_with_space(q)
        }),
    decreases q.len(),
{
    let all = seq![p] + q;
    if q.len() == 0 {
        assert(all =~= seq![p]);
    } else {
        lemma_join_first(p, q.drop_last());
        assert(all.drop_last() =~= seq![p] + q.drop_last());
        if q.len() == 1 {
            assert(q.drop_last() =~= Seq::<Seq<char>>::empty());
            assert(join_with_space(q) == q[0]);
        } else {
            assert(p + seq![' '] + join_with_space(q.drop_last()) + seq![' '] + q.last() =~= p + seq![
                ' ',
            ] + (join_with_space(q.drop_last()) + seq![' '] + q.last()));
        }
    }
}

proof fn lemma_spoken_lines_say_something(lines: Seq<Seq<char>>)
    ensures
        forall|i: int| 0 <= i < read_lines(lines).1.len() ==> (#[trigger] read_lines(lines).1[i]).len()
            > 0,
    decreases lines.len(),
{
    if lines.len() > 0 {
        lemma_spoken_lines_say_something(lines.drop_last());
        let before = read_lines(lines.drop_last()).1;
        let out = read_lines(lines).1;
        assert forall|i: int| 0 <= i < out.len() implies (#[trigger] out[i]).len() > 0 by {
            if i < before.len() {
                assert(out[i] == before[i]);
            }
        }
    }
}

proof fn lemma_joined_says_something(parts: Seq<Seq<char>>)
    requires
        parts.len() > 0,
        forall|i: int| 0 <= i < parts.len() ==> (#[trigger] parts[i]).len() > 0,
    ensures
        join_with_space(parts).len() > 0,
{
    assert(parts[0].len() > 0);
    assert(parts[parts.len() - 1].len() > 0);
}

/// One line outside a code block.
proof fn lemma_read_one(x: Seq<char>)
    requires
        !marks_code(x),
    ensures
        !read_lines(seq![x]).0,
        read_lines(seq![x]).1 == (if spoken_line(trim_spec(x)).len() == 0 || trim_spec(x).len() == 0 {
            Seq::<Seq<char>>::empty()
        } else {
            seq![spoken_line(trim_spec(x))]
        }),
{
    lemma_marks_code(x);
    let a = seq![x];
    assert(a.drop_last() =~= Seq::<Seq<char>>::empty());
    assert(a.last() == x);
    assert(read_lines(a.drop_last()) == (false, Seq::<Seq<char>>::empty()));
    assert(Seq::<Seq<char>>::empty().push(spoken_line(trim_spec(x))) =~= seq![spoken_line(trim_spec(x))]);
}

/// The lines of a text are spoken one after the other with a space between them: the first line
/// and then what is spoken of the rest. A line of which nothing is spoken leaves no space behind.
pub proof fn law_next_line_follows(x: Seq<char>, y: Seq<char>)
    requires
        free_of(x, |c: char| break_char(c)),
        free_of(y, |c: char| break_char(c)),
        !x.contains('\n'),
        !marks_code(x),
    ensures
        ({
            let first = tts_text_spec(x);
            let rest = tts_text_spec(y);
            tts_text_spec(x + seq!['\n'] + y) == (if first.len() == 0 {
                rest
            } else if rest.len() == 0 {
                first
            } else {
                first + seq![' '] + rest
            })
        }),
{
    lemma_normalized_plain(x, y);
    lemma_normalized_text(x);
    lemma_normalized_text(y);
    law_lines_end_at_breaks(x, y);
    let b = lines_spec(y);
    let a = seq![x];
    lemma_read_one(x);
    lemma_read_on(a, b);
    let q = read_lines(b).1;
    let p = read_lines(a).1;
    lemma_spoken_lines_say_something(b);
    if q.len() > 0 {
        lemma_joined_says_something(q);
    }
    if x.len() == 0 {
        assert(trim_spec(x) =~= x);
        assert(p =~= Seq::<Seq<char>>::empty());
    }
    if p.len() == 0 {
        assert(p + q =~= q);
        if x.len() > 0 {
            assert(lines_spec(x) == a);
        }
    } else {
        let line = trim_spec(x);
        assert(p =~= seq![spoken_line(line)]);
        lemma_join_first(spoken_line(line), q);
        assert(join_with_space(p) == spoken_line(line));
    }
}

/// An answer of plain words is spoken word for word.
pub proof fn law_plain_answer_is_spoken(s: Seq<char>)
    requires
        words(s),
        !s.contains('\n'),
        free_of(s, |c: char| break_char(c)),
        trim_spec(s).len() > 0,
        trim_spec(s)[0] != '#' && trim_spec(s)[0] != '-' && trim_spec(s)[0] != '+' && !('0' <= trim_spec(
            s,
        )[0] <= '9'),
    ensures
        tts_text_spec(s) == trim_spec(s),
{
    lemma_normalized_text(s);
    law_lines_end_at_breaks(s, Seq::empty());
    if s.len() == 0 {
        assert(trim_spec(s) =~= s);
    }
    let i = law_trim_takes_white_space_off(s);
    let t = trim_spec(s);
    assert(t[0] == s[i]);
    assert(plain_char(s[i]));
    lemma_read_one(s);
    let a = seq![s];
    lemma_trim_twice(s);
    assert forall|k: int| 0 <= k < t.len() implies plain_char(#[trigger] t[k]) && !emoji(t[k]) by {
        assert(t[k] == s[i + k]);
    }
    law_words_are_spoken(t);
    assert(read_lines(a).1 =~= seq![t]);
}

/// A code block inside a text is not spoken, whatever its line says: what is spoken is what stands
/// behind it.
pub proof fn law_text_skips_code(
    opening: Seq<char>,
    code: Seq<char>,
    closing: Seq<char>,
    y: Seq<char>,
)
    requires
        marks_code(opening),
        !marks_code(code),
        marks_code(closing),
        !opening.contains('\n'),
        !code.contains('\n'),
        !closing.contains('\n'),
        free_of(opening, |c: char| break_char(c)),
        free_of(code, |c: char| break_char(c)),
        free_of(closing, |c: char| break_char(c)),
        free_of(y, |c: char| break_char(c)),
    ensures
        tts_text_spec(
            opening + seq!['\n'] + (code + seq!['\n'] + (closing + seq!['\n'] + y)),
        ) == tts_text_spec(y),
{
    let a = closing + seq!['\n'] + y;
    let b = code + seq!['\n'] + a;
    let s = opening + seq!['\n'] + b;
    let bad = |c: char| break_char(c);
    lemma_text_line_free(closing, y);
    lemma_text_line_free(code, a);
    lemma_normalized_plain(opening, b);
    lemma_normalized_text(y);
    law_lines_end_at_breaks(closing, y);
    law_lines_end_at_breaks(code, a);
    law_lines_end_at_breaks(opening, b);
    let none = Seq::<Seq<char>>::empty();
    let block = seq![code];
    law_code_blocks_are_silent(none, opening, block, closing, lines_spec(y));
    assert(lines_spec(s) =~= none + seq![opening] + block + seq![closing] + lines_spec(y));
    assert(read_lines(none).1 + read_lines(lines_spec(y)).1 =~= read_lines(lines_spec(y)).1);
}

proof fn lemma_text_line_free(x: Seq<char>, y: Seq<char>)
    requires
        free_of(x, |c: char| break_char(c)),
        free_of(y, |c: char| break_char(c)),
    ensures
        free_of(x + seq!['\n'] + y, |c: char| break_char(c)),
{
    let bad = |c: char| break_char(c);
    let s = x + seq!['\n'] + y;
    assert forall|i: int| 0 <= i < s.len() implies !bad(#[trigger] s[i]) by {
        if i < x.len() {
            assert(!bad(x[i]));
        } else if i > x.len() {
            assert(!bad(y[i - x.len() - 1]));
        }
    }
}

// ---- short sentences ----

/// The characters that count are counted one by one.
pub proof fn law_effective_chars_add_up(a: Seq<char>, b: Seq<char>)
    ensures
        effective_chars(a + b) == effective_chars(a) + effective_chars(b),
        effective_chars(a) <= a.len(),
        (forall|i: int| 0 <= i < a.len() ==> alphanumeric(#[trigger] a[i])) ==> effective_chars(a)
            == a.len(),
    decreases a.len(), b.len(),
{
    let none = Seq::<char>::empty();
    if b.len() == 0 {
        assert(a + b =~= a);
        if a.len() > 0 {
            law_effective_chars_add_up(a.drop_last(), none);
            if forall|i: int| 0 <= i < a.len() ==> alphanumeric(#[trigger] a[i]) {
                assert(alphanumeric(a[a.len() - 1]));
                assert forall|i: int| 0 <= i < a.drop_last().len() implies alphanumeric(
                    #[trigger] a.drop_last()[i],
                ) by {
                    assert(alphanumeric(a[i]));
                }
            }
        }
    } else {
        law_effective_chars_add_up(a, b.drop_last());
        assert((a + b).drop_last() =~= a + b.drop_last());
        assert((a + b).last() == b.last());
    }
}

/// A request to synthesis is never too short before the end: what is handed out has enough
/// characters, what keeps waiting has not, and nothing waits behind what was handed out.
pub proof fn law_short_sentences_wait(pending: Seq<char>, sentence: Seq<char>)
    requires
        effective_chars(pending) < MIN_TTS_CHARS,
    ensures
        ({
            let (left, handed) = push_spec(pending, sentence);
            &&& effective_chars(left) < MIN_TTS_CHARS
            &&& handed matches Some(text) ==> effective_chars(text) >= MIN_TTS_CHARS && text == pending
                + trim_spec(sentence) && left.len() == 0
            &&& handed is None ==> left == pending + trim_spec(sentence)
        }),
{
    if trim_spec(sentence).len() == 0 {
        assert(pending + trim_spec(sentence) =~= pending);
    }
}

/// At the end everything that waits is handed out, however short.
pub proof fn law_nothing_is_left_waiting(pending: Seq<char>)
    ensures
        pending.len() > 0 ==> flush_spec(pending) == Some(pending),
        pending.len() == 0 ==> flush_spec(pending) is None,
{
}

/// More than six hashes are no heading: such a line is spoken as it stands.
pub proof fn law_long_hashes_are_no_heading(hashes: Seq<char>, space: char, x: Seq<char>)
    requires
        hashes.len() > 6,
        forall|i: int| 0 <= i < hashes.len() ==> #[trigger] hashes[i] == '#',
        white_space(space),
        words(x),
        !emoji(space),
        trim_spec(x).len() > 0,
    ensures
        spoken_line(hashes + seq![space] + x) == trim_spec(hashes + seq![space] + x),
{
    let line = hashes + seq![space] + x;
    let i = law_trim_takes_white_space_off(x);
    let t = trim_spec(x);
    let a = x.take(i);
    let b = x.skip(i + t.len());
    assert(x =~= a + t + b);
    let l = hashes + seq![space] + a + t;
    assert(line =~= Seq::<char>::empty() + l + b);
    assert(l[0] == hashes[0]);
    assert(l.last() == t.last());
    lemma_trim_of(Seq::empty(), l, b);
    let n = hashes.len() as int;
    assert(l[n] == space);
    assert forall|k: int| 0 <= k < n implies l[k] == '#' by {
        assert(l[k] == hashes[k]);
    }
    lemma_leading(l, '#', n);
    lemma_leading_digits(l, 0);
    assert(block_spec(l) == l);
    assert(l =~= Seq::<char>::empty() + l + Seq::<char>::empty());
    lemma_trim_of(Seq::empty(), l, Seq::empty());
    assert forall|k: int| 0 <= k < l.len() implies plain_char(#[trigger] l[k]) && !emoji(l[k]) by {
        if k > n {
            assert(l[k] == x[k - n - 1]);
        }
    }
    lemma_spoken_words(line, l);
}

/// A mark that is never completed is spoken as it stands: a bracket that opens no link, an angle
/// bracket that opens no tag, and a backslash in front of anything but punctuation.
pub proof fn law_unfinished_marks_are_kept(x: Seq<char>, c: char, rest: Seq<char>)
    requires
        plain(x),
        no_image_mark(x),
    ensures
        !rest.contains(']') ==> inline_spec(x + seq!['['] + rest, 0) == x + seq!['['] + inline_spec(
            rest,
            0,
        ),
        !rest.contains('>') ==> inline_spec(x + seq!['<'] + rest, 0) == x + seq!['<'] + inline_spec(
            rest,
            0,
        ),
        !ascii_punctuation(c) ==> inline_spec(x + seq!['\\'] + (seq![c] + rest), 0) == x + seq!['\\']
            + inline_spec(seq![c] + rest, 0),
{
    lemma_unfinished(x, '[', ']', rest);
    lemma_unfinished(x, '<', '>', rest);
    let s = seq!['\\'] + (seq![c] + rest);
    assert(x + seq!['\\'] + (seq![c] + rest) =~= x + s);
    lemma_plain_start(x, s);
    assert(s[0] == '\\' && s[1] == c);
    lemma_inline_shift(s, 1, 1);
    assert(s.skip(1) =~= seq![c] + rest);
    if !ascii_punctuation(c) {
        assert(inline_spec(s, 0) == seq!['\\'] + inline_spec(s, 1));
        assert(x + (seq!['\\'] + inline_spec(seq![c] + rest, 0)) =~= x + seq!['\\'] + inline_spec(
            seq![c] + rest,
            0,
        ));
    }
}

proof fn lemma_unfinished(x: Seq<char>, open: char, close: char, rest: Seq<char>)
    requires
        plain(x),
        no_image_mark(x),
        (open == '[' && close == ']') || (open == '<' && close == '>'),
    ensures
        !rest.contains(close) ==> inline_spec(x + seq![open] + rest, 0) == x + seq![open] + inline_spec(
            rest,
            0,
        ),
{
    let s = seq![open] + rest;
    assert(x + seq![open] + rest =~= x + s);
    lemma_plain_start(x, s);
    assert(s[0] == open);
    lemma_inline_shift(s, 1, 1);
    assert(s.skip(1) =~= rest);
    if !rest.contains(close) {
        lemma_char_from_shift(s, close, 0, 1);
        match char_from(s, close, 1) {
            Some(i) => {
                assert(rest[i - 1] == close);
            },
            None => {},
        }
        assert(inline_spec(s, 0) == seq![open] + inline_spec(s, 1));
        assert(x + (seq![open] + inline_spec(rest, 0)) =~= x + seq![open] + inline_spec(rest, 0));
    }
}

} // verus!

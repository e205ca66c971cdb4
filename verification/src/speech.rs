//! From a written answer to text that can be spoken.
//!
//! Markdown syntax, code blocks and emoji are taken out, and very short sentences are merged
//! with the next one before they are sent to synthesis.

use vstd::prelude::*;

use crate::text::{
    lemma_trim_end_prefix, lemma_trim_twice,    chars_of, replace, replace_spec, string_from, string_of, trim, trim_spec, trim_start,
    trim_start_spec, is_white_space, white_space, is_digit, starts_with,
};

verus! {

/// Characters that a request to synthesis should have before it is worth sending.
pub const MIN_TTS_CHARS: usize = 5;

/// `s` with the two-character tokens `\n` and `/n` turned into line breaks.
pub open spec fn break_tokens(s: Seq<char>) -> Seq<char>
    decreases s.len(),
{
    if s.len() == 0 {
        Seq::empty()
    } else if (s[0] == '\\' || s[0] == '/') && s.len() >= 2 && s[1] == 'n' {
        seq!['\n'] + break_tokens(s.skip(2))
    } else {
        seq![s[0]] + break_tokens(s.drop_first())
    }
}

/// `s` with every way of writing a line break turned into `\n`.
pub open spec fn normalize_spec(s: Seq<char>) -> Seq<char> {
    replace_spec(replace_spec(break_tokens(s), "\r\n"@, "\n"@), "\r"@, "\n"@)
}

/// The first position at or after `from` where `c` stands.
pub open spec fn char_from(s: Seq<char>, c: char, from: int) -> Option<int>
    decreases s.len() - from,
{
    if from < 0 || from >= s.len() {
        None
    } else if s[from] == c {
        Some(from)
    } else {
        char_from(s, c, from + 1)
    }
}

/// The lines of `s`; a line break at the very end starts no further line.
pub open spec fn lines_spec(s: Seq<char>) -> Seq<Seq<char>>
    decreases s.len(),
{
    if s.len() == 0 {
        Seq::empty()
    } else {
        match char_from(s, '\n', 0) {
            None => seq![s],
            Some(i) => if 0 <= i < s.len() {
                seq![s.take(i)] + lines_spec(s.skip(i + 1))
            } else {
                Seq::empty()
            },
        }
    }
}

/// A line that opens or closes a code block.
pub open spec fn fence(line: Seq<char>) -> bool {
    "```"@.is_prefix_of(line) || "~~~"@.is_prefix_of(line)
}

/// How many times `c` stands at the start of `s`.
pub open spec fn leading(s: Seq<char>, c: char) -> nat
    decreases s.len(),
{
    if s.len() > 0 && s[0] == c {
        1 + leading(s.drop_first(), c)
    } else {
        0
    }
}

/// How many decimal digits stand at the start of `s`.
pub open spec fn leading_digits(s: Seq<char>) -> nat
    decreases s.len(),
{
    if s.len() > 0 && is_digit(s[0]) {
        1 + leading_digits(s.drop_first())
    } else {
        0
    }
}

/// White space stands at position `i`.
pub open spec fn white_at(s: Seq<char>, i: int) -> bool {
    0 <= i < s.len() && white_space(s[i])
}

/// `line` without the marker of a heading, a bullet or a numbered item.
pub open spec fn block_spec(line: Seq<char>) -> Seq<char> {
    let h = leading(line, '#') as int;
    let d = leading_digits(line) as int;
    if 1 <= h <= 6 && white_at(line, h) {
        trim_start_spec(line.skip(h))
    } else if line.len() > 0 && (line[0] == '-' || line[0] == '*' || line[0] == '+') && white_at(line, 1) {
        trim_start_spec(line.skip(1))
    } else if d > 0 && d < line.len() && (line[d] == '.' || line[d] == ')') && white_at(line, d + 1) {
        trim_start_spec(line.skip(d + 1))
    } else {
        line
    }
}

pub open spec fn ascii_punctuation(c: char) -> bool {
    ||| '!' <= c <= '/'
    ||| ':' <= c <= '@'
    ||| '[' <= c <= '`'
    ||| '{' <= c <= '~'
}

/// Where the bracket of a link or an image opens at `i`.
pub open spec fn link_open(s: Seq<char>, i: int) -> Option<int> {
    if s[i] == '[' {
        Some(i)
    } else if s[i] == '!' && i + 1 < s.len() && s[i + 1] == '[' {
        Some(i + 1)
    } else {
        None
    }
}

/// The link or image that starts at `i`: where its bracket opens and closes, and where its
/// target ends.
pub open spec fn link_at(s: Seq<char>, i: int) -> Option<(int, int, int)> {
    match link_open(s, i) {
        None => None,
        Some(open) => match char_from(s, ']', open + 1) {
            None => None,
            Some(close) => if close + 1 < s.len() && s[close + 1] == '(' {
                match char_from(s, ')', close + 2) {
                    None => None,
                    Some(end) => Some((open, close, end)),
                }
            } else {
                None
            },
        },
    }
}

/// `s` from position `i` on without inline Markdown: a link or an image leaves its label, a tag
/// in angle brackets goes, a backslash in front of punctuation goes, and so do the marks of
/// emphasis and code.
pub open spec fn inline_spec(s: Seq<char>, i: int) -> Seq<char>
    decreases s.len() - i,
{
    if i < 0 || i >= s.len() {
        Seq::empty()
    } else {
        match link_at(s, i) {
            Some((open, close, end)) => if i <= open < close < end < s.len() {
                s.subrange(open + 1, close) + inline_spec(s, end + 1)
            } else {
                Seq::empty()
            },
            None => {
                let tag = if s[i] == '<' { char_from(s, '>', i + 1) } else { None };
                match tag {
                    Some(end) => if i < end < s.len() {
                        inline_spec(s, end + 1)
                    } else {
                        Seq::empty()
                    },
                    None => if s[i] == '\\' && i + 1 < s.len() && ascii_punctuation(s[i + 1]) {
                        seq![s[i + 1]] + inline_spec(s, i + 2)
                    } else if s[i] == '`' || s[i] == '*' || s[i] == '_' || s[i] == '~' {
                        inline_spec(s, i + 1)
                    } else {
                        seq![s[i]] + inline_spec(s, i + 1)
                    },
                }
            },
        }
    }
}

/// The characters that are not spoken because they are pictures or parts of one.
pub open spec fn emoji(c: char) -> bool {
    ||| c == '\u{A9}'
    ||| c == '\u{AE}'
    ||| c == '\u{203C}'
    ||| c == '\u{2049}'
    ||| c == '\u{2122}'
    ||| c == '\u{2139}'
    ||| c == '\u{3030}'
    ||| c == '\u{303D}'
    ||| c == '\u{3297}'
    ||| c == '\u{3299}'
    ||| c == '\u{200D}'
    ||| c == '\u{20E3}'
    ||| '\u{FE0E}' <= c <= '\u{FE0F}'
    ||| '\u{1F000}' <= c <= '\u{1FAFF}'
    ||| '\u{2300}' <= c <= '\u{23FF}'
    ||| '\u{2600}' <= c <= '\u{27BF}'
}

/// `s` without emoji.
pub open spec fn without_emoji(s: Seq<char>) -> Seq<char>
    decreases s.len(),
{
    if s.len() == 0 {
        Seq::empty()
    } else if emoji(s.last()) {
        without_emoji(s.drop_last())
    } else {
        without_emoji(s.drop_last()).push(s.last())
    }
}

/// What is spoken of one line outside a code block.
pub open spec fn spoken_line(line: Seq<char>) -> Seq<char> {
    without_emoji(inline_spec(trim_spec(block_spec(trim_spec(line))), 0))
}

/// The state of a reader after some lines: whether it is inside a code block, and the spoken
/// lines so far.
pub open spec fn read_lines(lines: Seq<Seq<char>>) -> (bool, Seq<Seq<char>>)
    decreases lines.len(),
{
    if lines.len() == 0 {
        (false, Seq::empty())
    } else {
        let (in_code, out) = read_lines(lines.drop_last());
        let line = trim_spec(lines.last());
        if fence(line) {
            (!in_code, out)
        } else if in_code || line.len() == 0 || spoken_line(line).len() == 0 {
            (in_code, out)
        } else {
            (in_code, out.push(spoken_line(line)))
        }
    }
}

/// `parts` with a space between each two.
pub open spec fn join_with_space(parts: Seq<Seq<char>>) -> Seq<char>
    decreases parts.len(),
{
    if parts.len() == 0 {
        Seq::empty()
    } else if parts.len() == 1 {
        parts[0]
    } else {
        join_with_space(parts.drop_last()) + seq![' '] + parts.last()
    }
}

/// The text that is spoken for `s`.
pub open spec fn tts_text_spec(s: Seq<char>) -> Seq<char> {
    join_with_space(read_lines(lines_spec(normalize_spec(s))).1)
}

fn is_emoji_char(ch: char) -> (r: bool)
    ensures
        r == emoji(ch),
{
    ch == '\u{A9}' || ch == '\u{AE}' || ch == '\u{203C}' || ch == '\u{2049}' || ch == '\u{2122}'
        || ch == '\u{2139}' || ch == '\u{3030}' || ch == '\u{303D}' || ch == '\u{3297}'
        || ch == '\u{3299}' || ch == '\u{200D}' || ch == '\u{20E3}'
        || ('\u{FE0E}' <= ch && ch <= '\u{FE0F}') || ('\u{1F000}' <= ch && ch <= '\u{1FAFF}')
        || ('\u{2300}' <= ch && ch <= '\u{23FF}') || ('\u{2600}' <= ch && ch <= '\u{27BF}')
}

fn is_ascii_punctuation(c: char) -> (r: bool)
    ensures
        r == ascii_punctuation(c),
{
    ('!' <= c && c <= '/') || (':' <= c && c <= '@') || ('[' <= c && c <= '`') || ('{' <= c && c
        <= '~')
}

/// `input` with every way of writing a line break turned into `\n`.
pub fn normalize_line_break_tokens(input: &str) -> (r: String)
    ensures
        r@ == normalize_spec(input@),
{
    let v = chars_of(input);
    let mut out: String = String::new();
    let mut i: usize = 0;
    assert(v@.skip(0) =~= v@);
    assert(out@ + break_tokens(v@) =~= break_tokens(v@));
    while i < v.len()
        invariant
            i <= v@.len(),
            out@ + break_tokens(v@.skip(i as int)) == break_tokens(v@),
        decreases v@.len() - i,
    {
        let ghost rest = v@.skip(i as int);
        if (v[i] == '\\' || v[i] == '/') && v.len() - i >= 2 && v[i + 1] == 'n' {
            proof {
                assert(rest.skip(2) =~= v@.skip(i + 2));
                assert(out@ + (seq!['\n'] + break_tokens(v@.skip(i + 2))) =~= out@.push('\n')
                    + break_tokens(v@.skip(i + 2)));
            }
            out.push('\n');
            i += 2;
        } else {
            proof {
                assert(rest.drop_first() =~= v@.skip(i + 1));
                assert(out@ + (seq![rest[0]] + break_tokens(v@.skip(i + 1))) =~= out@.push(v@[i as int])
                    + break_tokens(v@.skip(i + 1)));
            }
            out.push(v[i]);
            i += 1;
        }
    }
    assert(v@.skip(i as int) =~= Seq::<char>::empty());
    assert(out@ + Seq::<char>::empty() =~= out@);
    proof {
        reveal_strlit("\r\n");
        reveal_strlit("\r");
    }
    let a = replace(out.as_str(), "\r\n", "\n");
    replace(a.as_str(), "\r", "\n")
}

proof fn lemma_char_from_skip(s: Seq<char>, c: char, from: int, to: int)
    requires
        0 <= from <= to <= s.len(),
        forall|k: int| from <= k < to ==> s[k] != c,
    ensures
        char_from(s, c, from) == char_from(s, c, to),
    decreases to - from,
{
    if from < to {
        lemma_char_from_skip(s, c, from + 1, to);
    }
}

/// The first position at or after `start` where `target` stands.
pub fn find_char(chars: &Vec<char>, start: usize, target: char) -> (r: Option<usize>)
    ensures
        match char_from(chars@, target, start as int) {
            Some(i) => r == Some(i as usize) && start <= i < chars@.len() && chars@[i] == target,
            None => r is None,
        },
        r is Some ==> char_from(chars@, target, start as int) is Some && start <= r->0 < chars@.len()
            && chars@[r->0 as int] == target,
        r is Some ==> forall|k: int| start <= k < r->0 ==> chars@[k] != target,
        r is None ==> forall|k: int| start <= k < chars@.len() ==> chars@[k] != target,
{
    let mut i: usize = start;
    while i < chars.len()
        invariant
            start <= i,
            start <= chars@.len() ==> i <= chars@.len(),
            forall|k: int| start <= k < i ==> chars@[k] != target,
        decreases chars@.len() - i,
    {
        if chars[i] == target {
            proof {
                lemma_char_from_skip(chars@, target, start as int, i as int);
            }
            return Some(i);
        }
        i += 1;
    }
    proof {
        if start <= chars@.len() {
            lemma_char_from_skip(chars@, target, start as int, i as int);
        }
    }
    None
}

/// The lines of `s`.
pub fn split_lines(s: &str) -> (r: Vec<String>)
    ensures
        crate::text::views(r@) == lines_spec(s@),
{
    let v = chars_of(s);
    let mut out: Vec<String> = Vec::new();
    let mut i: usize = 0;
    assert(v@.skip(0) =~= v@);
    assert(crate::text::views(out@) + lines_spec(v@) =~= lines_spec(v@));
    while i < v.len()
        invariant
            i <= v@.len(),
            v@ == s@,
            crate::text::views(out@) + lines_spec(v@.skip(i as int)) == lines_spec(s@),
        decreases v@.len() - i,
    {
        let ghost rest = v@.skip(i as int);
        let ghost before = crate::text::views(out@);
        match find_char(&v, i, '\n') {
            Some(j) => {
                proof {
                    lemma_char_from_skip(rest, '\n', 0, j - i);
                    assert(rest[j - i] == '\n');
                    assert(char_from(rest, '\n', 0) == Some(j - i));
                    assert(rest.take(j - i) =~= v@.subrange(i as int, j as int));
                    assert(rest.skip(j - i + 1) =~= v@.skip(j + 1));
                    assert(before + (seq![rest.take(j - i)] + lines_spec(v@.skip(j + 1))) =~= before.push(
                        rest.take(j - i),
                    ) + lines_spec(v@.skip(j + 1)));
                }
                out.push(string_of(&v, i, j));
                assert(crate::text::views(out@) =~= before.push(rest.take(j - i)));
                i = j + 1;
            },
            None => {
                proof {
                    lemma_char_from_skip(rest, '\n', 0, rest.len() as int);
                    assert(rest =~= v@.subrange(i as int, v@.len() as int));
                    assert(lines_spec(rest) == seq![rest]);
                }
                out.push(string_of(&v, i, v.len()));
                assert(crate::text::views(out@) =~= before + seq![rest]);
                return out;
            },
        }
    }
    assert(v@.skip(i as int) =~= Seq::<char>::empty());
    assert(crate::text::views(out@) + Seq::<Seq<char>>::empty() =~= crate::text::views(out@));
    out
}

/// Whether `line` opens or closes a code block.
pub fn is_code_fence(line: &str) -> (r: bool)
    ensures
        r == fence(line@),
{
    starts_with(line, "```") || starts_with(line, "~~~")
}

pub proof fn lemma_leading(s: Seq<char>, c: char, n: int)
    requires
        0 <= n <= s.len(),
        forall|k: int| 0 <= k < n ==> s[k] == c,
        n < s.len() ==> s[n] != c,
    ensures
        leading(s, c) == n,
    decreases n,
{
    if n > 0 {
        lemma_leading(s.drop_first(), c, n - 1);
    }
}

pub proof fn lemma_leading_digits(s: Seq<char>, n: int)
    requires
        0 <= n <= s.len(),
        forall|k: int| 0 <= k < n ==> is_digit(#[trigger] s[k]),
        n < s.len() ==> !is_digit(s[n]),
    ensures
        leading_digits(s) == n,
    decreases n,
{
    if n > 0 {
        assert(is_digit(s[0]));
        assert forall|k: int| 0 <= k < n - 1 implies is_digit(#[trigger] s.drop_first()[k]) by {
            assert(is_digit(s[k + 1]));
        }
        lemma_leading_digits(s.drop_first(), n - 1);
    }
}

/// `v` from position `i` on, without leading white space.
fn rest_of_line(v: &Vec<char>, i: usize) -> (r: String)
    requires
        i <= v@.len(),
    ensures
        r@ == trim_start_spec(v@.skip(i as int)),
{
    let s = string_of(v, i, v.len());
    assert(v@.skip(i as int) =~= v@.subrange(i as int, v@.len() as int));
    trim_start(s.as_str())
}

/// `line` without the marker of a heading, a bullet or a numbered item.
pub fn strip_block_marker(line: &str) -> (r: String)
    ensures
        r@ == block_spec(line@),
{
    let v = chars_of(line);
    let mut h: usize = 0;
    while h < v.len() && v[h] == '#'
        invariant
            h <= v@.len(),
            forall|k: int| 0 <= k < h ==> v@[k] == '#',
        decreases v@.len() - h,
    {
        h += 1;
    }
    let mut d: usize = 0;
    while d < v.len() && '0' <= v[d] && v[d] <= '9'
        invariant
            d <= v@.len(),
            forall|k: int| 0 <= k < d ==> is_digit(#[trigger] v@[k]),
        decreases v@.len() - d,
    {
        d += 1;
    }
    proof {
        lemma_leading(v@, '#', h as int);
        lemma_leading_digits(v@, d as int);
    }
    if 1 <= h && h <= 6 && h < v.len() && is_white_space(v[h]) {
        return rest_of_line(&v, h);
    }
    if v.len() > 1 && (v[0] == '-' || v[0] == '*' || v[0] == '+') && is_white_space(v[1]) {
        return rest_of_line(&v, 1);
    }
    if d > 0 && d < v.len() && v.len() - d > 1 && (v[d] == '.' || v[d] == ')') && is_white_space(
        v[d + 1],
    ) {
        return rest_of_line(&v, d + 1);
    }
    string_from(&v)
}

/// Appends `v[from..to]` to `out`.
fn push_range(out: &mut String, v: &Vec<char>, from: usize, to: usize)
    requires
        from <= to <= v@.len(),
    ensures
        final(out)@ == old(out)@ + v@.subrange(from as int, to as int),
{
    let part = string_of(v, from, to);
    out.append(part.as_str());
}

/// The link or image that starts at `i`.
fn find_link(v: &Vec<char>, i: usize) -> (r: Option<(usize, usize, usize)>)
    requires
        i < v@.len(),
    ensures
        match link_at(v@, i as int) {
            Some((open, close, end)) => r matches Some((o, c, e)) && o == open && c == close && e == end
                && i <= o < c < e < v@.len(),
            None => r is None,
        },
{
    let n: usize = v.len();
    let open: usize = if v[i] == '[' {
        i
    } else if v[i] == '!' && v.len() - i > 1 && v[i + 1] == '[' {
        i + 1
    } else {
        return None;
    };
    assert(open < n);
    match find_char(v, open + 1, ']') {
        None => None,
        Some(close) => {
            if v.len() - close > 1 && v[close + 1] == '(' {
                match find_char(v, close + 2, ')') {
                    None => None,
                    Some(end) => Some((open, close, end)),
                }
            } else {
                None
            }
        },
    }
}

/// `input` without inline Markdown.
pub fn strip_inline_markdown(input: &str) -> (r: String)
    ensures
        r@ == inline_spec(input@, 0),
{
    let v = chars_of(input);
    let n: usize = v.len();
    let mut out: String = String::new();
    let mut i: usize = 0;
    assert(out@ + inline_spec(v@, 0) =~= inline_spec(v@, 0));
    while i < n
        invariant
            i <= n == v@.len(),
            out@ + inline_spec(v@, i as int) == inline_spec(v@, 0),
        decreases n - i,
    {
        let ghost o = out@;
        if let Some((open, close, end)) = find_link(&v, i) {
            push_range(&mut out, &v, open + 1, close);
            assert(out@ + inline_spec(v@, end + 1) =~= o + (v@.subrange(open + 1, close as int)
                + inline_spec(v@, end + 1)));
            i = end + 1;
            continue ;
        }
        let tag: Option<usize> = if v[i] == '<' { find_char(&v, i + 1, '>') } else { None };
        if let Some(end) = tag {
            i = end + 1;
            continue ;
        }
        if v[i] == '\\' && n - i > 1 && is_ascii_punctuation(v[i + 1]) {
            out.push(v[i + 1]);
            assert(out@ + inline_spec(v@, i + 2) =~= o + (seq![v@[i + 1]] + inline_spec(v@, i + 2)));
            i += 2;
            continue ;
        }
        if v[i] == '`' || v[i] == '*' || v[i] == '_' || v[i] == '~' {
            i += 1;
            continue ;
        }
        out.push(v[i]);
        assert(out@ + inline_spec(v@, i + 1) =~= o + (seq![v@[i as int]] + inline_spec(v@, i + 1)));
        i += 1;
    }
    assert(out@ + Seq::<char>::empty() =~= out@);
    out
}

/// `input` without emoji.
pub fn strip_emoji(input: &str) -> (r: String)
    ensures
        r@ == without_emoji(input@),
{
    let v = chars_of(input);
    let mut out: String = String::new();
    for i in 0..v.len()
        invariant
            out@ == without_emoji(v@.take(i as int)),
    {
        assert(v@.take(i + 1).drop_last() =~= v@.take(i as int));
        if !is_emoji_char(v[i]) {
            out.push(v[i]);
        }
    }
    assert(v@.take(v@.len() as int) =~= v@);
    out
}

/// Turns a complete fragment of a written answer into text that can be spoken.
pub fn to_tts_text(input: &str) -> (r: String)
    ensures
        r@ == tts_text_spec(input@),
{
    let normalized = normalize_line_break_tokens(input);
    let lines = split_lines(normalized.as_str());
    let ghost all = lines_spec(normalized@);
    let mut parts: Ghost<Seq<Seq<char>>> = Ghost(Seq::empty());
    let mut out: String = String::new();
    let mut started: bool = false;
    let mut in_code: bool = false;
    for k in 0..lines.len()
        invariant
            all == crate::text::views(lines@),
            (in_code, parts@) == read_lines(all.take(k as int)),
            out@ == join_with_space(parts@),
            started == (parts@.len() > 0),
    {
        proof {
            assert(all.take(k + 1).drop_last() =~= all.take(k as int));
            assert(all.take(k + 1).last() == lines@[k as int]@);
        }
        let line = trim(lines[k].as_str());
        if is_code_fence(line.as_str()) {
            in_code = !in_code;
        } else if !in_code && !line.as_str().is_empty() {
            proof {
                lemma_trim_twice(lines@[k as int]@);
            }
            let body = strip_block_marker(line.as_str());
            let inner = trim(body.as_str());
            let plain = strip_inline_markdown(inner.as_str());
            let spoken = strip_emoji(plain.as_str());
            if !spoken.as_str().is_empty() {
                let ghost before = parts@;
                if started {
                    out.push(' ');
                    out.append(spoken.as_str());
                } else {
                    out = spoken;
                }
                proof {
                    parts@ = before.push(spoken_line(line@));
                    assert(parts@.drop_last() =~= before);
                    if before.len() > 0 {
                        assert(join_with_space(before).push(' ') =~= join_with_space(before) + seq![' ']);
                    }
                }
                started = true;
            }
        }
    }
    assert(all.take(lines@.len() as int) =~= all);
    out
}

/// Whether `char::is_alphanumeric` accepts a character.
pub uninterp spec fn alphanumeric(c: char) -> bool;

/// `char::is_alphanumeric`: whether `c` is a letter or a number in Unicode's sense. Which
/// characters these are is left to the standard library.
#[verifier::external_body]
fn is_alphanumeric(c: char) -> (r: bool)
    ensures
        r == alphanumeric(c),
{
    c.is_alphanumeric()
}

/// How many letters and numbers stand in `s`.
pub open spec fn effective_chars(s: Seq<char>) -> nat
    decreases s.len(),
{
    if s.len() == 0 {
        0
    } else {
        effective_chars(s.drop_last()) + if alphanumeric(s.last()) { 1nat } else { 0nat }
    }
}

/// How many letters and numbers stand in `text`.
pub fn effective_char_count(text: &str) -> (r: usize)
    ensures
        r == effective_chars(text@),
{
    let v = chars_of(text);
    let mut n: usize = 0;
    for i in 0..v.len()
        invariant
            n == effective_chars(v@.take(i as int)),
            n <= i,
    {
        assert(v@.take(i + 1).drop_last() =~= v@.take(i as int));
        if is_alphanumeric(v[i]) {
            n += 1;
        }
    }
    assert(v@.take(v@.len() as int) =~= v@);
    n
}

/// Collects short sentences until there is enough to speak.
pub struct TtsSentenceBuffer {
    pending: String,
}

impl View for TtsSentenceBuffer {
    type V = Seq<char>;

    /// The text that waits.
    closed spec fn view(&self) -> Seq<char> {
        self.pending@
    }
}

impl Default for TtsSentenceBuffer {
    fn default() -> (r: Self)
        ensures
            r@ == Seq::<char>::empty(),
    {
        TtsSentenceBuffer { pending: String::new() }
    }
}

/// A sentence is added to the text that waits: what waits then, and what is to be spoken.
pub open spec fn push_spec(pending: Seq<char>, sentence: Seq<char>) -> (Seq<char>, Option<Seq<char>>) {
    let added = trim_spec(sentence);
    let joined = pending + added;
    if added.len() == 0 {
        (pending, None)
    } else if effective_chars(joined) >= MIN_TTS_CHARS {
        (Seq::empty(), Some(joined))
    } else {
        (joined, None)
    }
}

/// What is spoken of the text that waits when nothing follows.
pub open spec fn flush_spec(pending: Seq<char>) -> Option<Seq<char>> {
    if pending.len() == 0 {
        None
    } else {
        Some(pending)
    }
}

impl TtsSentenceBuffer {
    /// Adds a sentence. Where the text that waits then has `MIN_TTS_CHARS` letters and numbers,
    /// all of it is returned and nothing waits any more.
    pub fn push(&mut self, sentence: &str) -> (r: Option<String>)
        ensures
            (final(self)@, crate::text::opt_view(r)) == push_spec(old(self)@, sentence@),
    {
        let added = trim(sentence);
        if added.as_str().is_empty() {
            return None;
        }
        self.pending.append(added.as_str());
        let count = effective_char_count(self.pending.as_str());
        self.release(count)
    }

    /// Hands out the text that waits where `effective` letters and numbers are enough.
    pub fn release(&mut self, effective: usize) -> (r: Option<String>)
        ensures
            effective >= MIN_TTS_CHARS ==> r is Some && r->0@ == old(self)@ && final(self)@ == Seq::<
                char,
            >::empty(),
            effective < MIN_TTS_CHARS ==> r is None && final(self)@ == old(self)@,
    {
        if effective >= MIN_TTS_CHARS {
            Some(self.take())
        } else {
            None
        }
    }

    /// Hands out whatever waits, at the end of a stream.
    pub fn flush(&mut self) -> (r: Option<String>)
        ensures
            final(self)@ == Seq::<char>::empty(),
            crate::text::opt_view(r) == flush_spec(old(self)@),
    {
        let text = self.take();
        if text.as_str().is_empty() {
            None
        } else {
            Some(text)
        }
    }

    fn take(&mut self) -> (r: String)
        ensures
            r@ == old(self)@,
            final(self)@ == Seq::<char>::empty(),
    {
        let mut empty: String = String::new();
        core::mem::swap(&mut self.pending, &mut empty);
        empty
    }
}

proof fn lemma_without_emoji(s: Seq<char>)
    ensures
        forall|i: int| 0 <= i < without_emoji(s).len() ==> !emoji(#[trigger] without_emoji(s)[i]),
        forall|i: int|
            0 <= i < without_emoji(s).len() ==> s.contains(#[trigger] without_emoji(s)[i]),
    decreases s.len(),
{
    if s.len() > 0 {
        lemma_without_emoji(s.drop_last());
        let t = without_emoji(s);
        assert forall|i: int| 0 <= i < t.len() implies s.contains(#[trigger] t[i]) by {
            if i < without_emoji(s.drop_last()).len() {
                let c = without_emoji(s.drop_last())[i];
                assert(s.drop_last().contains(c));
                let j = choose|j: int| 0 <= j < s.drop_last().len() && s.drop_last()[j] == c;
                assert(s[j] == c);
            } else {
                assert(s[s.len() - 1] == t[i]);
            }
        }
    }
}

/// `s` has no character that `bad` names.
pub open spec fn free_of(s: Seq<char>, bad: spec_fn(char) -> bool) -> bool {
    forall|i: int| 0 <= i < s.len() ==> !bad(#[trigger] s[i])
}

proof fn lemma_join_free(parts: Seq<Seq<char>>, bad: spec_fn(char) -> bool)
    requires
        !bad(' '),
        forall|k: int| 0 <= k < parts.len() ==> free_of(#[trigger] parts[k], bad),
    ensures
        free_of(join_with_space(parts), bad),
    decreases parts.len(),
{
    if parts.len() > 0 {
        assert(free_of(parts[parts.len() - 1], bad));
        assert(free_of(parts[0], bad));
        assert forall|k: int| 0 <= k < parts.len() - 1 implies free_of(
            #[trigger] parts.drop_last()[k],
            bad,
        ) by {
            assert(free_of(parts[k], bad));
        }
        lemma_join_free(parts.drop_last(), bad);
        let a = join_with_space(parts.drop_last()) + seq![' '];
        let whole = join_with_space(parts);
        if parts.len() > 1 {
            assert forall|i: int| 0 <= i < whole.len() implies !bad(#[trigger] whole[i]) by {
                if i < a.len() - 1 {
                    assert(whole[i] == join_with_space(parts.drop_last())[i]);
                } else if i >= a.len() {
                    assert(whole[i] == parts.last()[i - a.len()]);
                }
            }
        }
    }
}

proof fn lemma_read_lines_no_emoji(lines: Seq<Seq<char>>, bad: spec_fn(char) -> bool)
    requires
        forall|c: char| #[trigger] bad(c) == emoji(c),
    ensures
        forall|k: int|
            0 <= k < read_lines(lines).1.len() ==> free_of(#[trigger] read_lines(lines).1[k], bad),
    decreases lines.len(),
{
    if lines.len() > 0 {
        lemma_read_lines_no_emoji(lines.drop_last(), bad);
        let l = trim_spec(block_spec(trim_spec(trim_spec(lines.last()))));
        lemma_without_emoji(inline_spec(l, 0));
        let said = spoken_line(trim_spec(lines.last()));
        assert(free_of(said, bad));
        let before = read_lines(lines.drop_last()).1;
        let after = read_lines(lines).1;
        assert forall|k: int| 0 <= k < after.len() implies free_of(#[trigger] after[k], bad) by {
            if k < before.len() {
                assert(after[k] == before[k]);
            } else {
                assert(after[k] == said);
            }
        }
    }
}

/// What is spoken holds no emoji.
pub proof fn law_spoken_text_has_no_emoji(s: Seq<char>)
    ensures
        forall|i: int| 0 <= i < tts_text_spec(s).len() ==> !emoji(#[trigger] tts_text_spec(s)[i]),
{
    let lines = lines_spec(normalize_spec(s));
    let bad = |c: char| emoji(c);
    lemma_read_lines_no_emoji(lines, bad);
    lemma_join_free(read_lines(lines).1, bad);
    assert forall|i: int| 0 <= i < tts_text_spec(s).len() implies !emoji(
        #[trigger] tts_text_spec(s)[i],
    ) by {
        assert(!bad(tts_text_spec(s)[i]));
    }
}

proof fn lemma_inline_free(s: Seq<char>, i: int, bad: spec_fn(char) -> bool)
    requires
        free_of(s, bad),
    ensures
        free_of(inline_spec(s, i), bad),
    decreases s.len() - i,
{
    if 0 <= i < s.len() {
        let whole = inline_spec(s, i);
        match link_at(s, i) {
            Some((open, close, end)) => {
                if i <= open < close < end < s.len() {
                    lemma_inline_free(s, end + 1, bad);
                    let label = s.subrange(open + 1, close);
                    assert forall|k: int| 0 <= k < whole.len() implies !bad(#[trigger] whole[k]) by {
                        if k < label.len() {
                            assert(whole[k] == s[open + 1 + k]);
                        } else {
                            assert(whole[k] == inline_spec(s, end + 1)[k - label.len()]);
                        }
                    }
                }
            },
            None => {
                let tag = if s[i] == '<' { char_from(s, '>', i + 1) } else { None };
                if tag is Some {
                    let end = tag->0;
                    if i < end < s.len() {
                        lemma_inline_free(s, end + 1, bad);
                    }
                } else {
                    lemma_inline_free(s, i + 1, bad);
                    if i + 1 < s.len() {
                        lemma_inline_free(s, i + 2, bad);
                    }
                    assert forall|k: int| 0 <= k < whole.len() implies !bad(#[trigger] whole[k]) by {
                        if s[i] == '\\' && i + 1 < s.len() && ascii_punctuation(s[i + 1]) {
                            if k == 0 {
                                assert(whole[k] == s[i + 1]);
                            } else {
                                assert(whole[k] == inline_spec(s, i + 2)[k - 1]);
                            }
                        } else if s[i] == '`' || s[i] == '*' || s[i] == '_' || s[i] == '~' {
                            assert(whole[k] == inline_spec(s, i + 1)[k]);
                        } else {
                            if k == 0 {
                                assert(whole[k] == s[i]);
                            } else {
                                assert(whole[k] == inline_spec(s, i + 1)[k - 1]);
                            }
                        }
                    }
                }
            },
        }
    }
}

proof fn lemma_trim_start_free(s: Seq<char>, bad: spec_fn(char) -> bool)
    requires
        free_of(s, bad),
    ensures
        free_of(trim_start_spec(s), bad),
    decreases s.len(),
{
    if s.len() > 0 && white_space(s[0]) {
        assert forall|k: int| 0 <= k < s.len() - 1 implies !bad(#[trigger] s.drop_first()[k]) by {
            assert(!bad(s[k + 1]));
        }
        lemma_trim_start_free(s.drop_first(), bad);
    }
}

proof fn lemma_trim_free(s: Seq<char>, bad: spec_fn(char) -> bool)
    requires
        free_of(s, bad),
    ensures
        free_of(trim_spec(s), bad),
{
    lemma_trim_start_free(s, bad);
    let t = trim_start_spec(s);
    lemma_trim_end_prefix(t);
    assert forall|k: int| 0 <= k < trim_spec(s).len() implies !bad(#[trigger] trim_spec(s)[k]) by {
        assert(trim_spec(s)[k] == t[k]);
    }
}

proof fn lemma_skip_free(s: Seq<char>, n: int, bad: spec_fn(char) -> bool)
    requires
        free_of(s, bad),
        0 <= n <= s.len(),
    ensures
        free_of(s.skip(n), bad),
{
    assert forall|k: int| 0 <= k < s.skip(n).len() implies !bad(#[trigger] s.skip(n)[k]) by {
        assert(!bad(s[k + n]));
    }
}

proof fn lemma_spoken_line_free(line: Seq<char>, bad: spec_fn(char) -> bool)
    requires
        free_of(line, bad),
    ensures
        free_of(spoken_line(line), bad),
{
    lemma_trim_free(line, bad);
    let t = trim_spec(line);
    let h = leading(t, '#') as int;
    let d = leading_digits(t) as int;
    if 1 <= h <= 6 && white_at(t, h) {
        lemma_skip_free(t, h, bad);
        lemma_trim_start_free(t.skip(h), bad);
    } else if t.len() > 0 && (t[0] == '-' || t[0] == '*' || t[0] == '+') && white_at(t, 1) {
        lemma_skip_free(t, 1, bad);
        lemma_trim_start_free(t.skip(1), bad);
    } else if d > 0 && d < t.len() && (t[d] == '.' || t[d] == ')') && white_at(t, d + 1) {
        lemma_skip_free(t, d + 1, bad);
        lemma_trim_start_free(t.skip(d + 1), bad);
    }
    lemma_trim_free(block_spec(t), bad);
    let u = trim_spec(block_spec(t));
    lemma_inline_free(u, 0, bad);
    let w = inline_spec(u, 0);
    lemma_without_emoji(w);
    assert forall|k: int| 0 <= k < without_emoji(w).len() implies !bad(
        #[trigger] without_emoji(w)[k],
    ) by {
        assert(w.contains(without_emoji(w)[k]));
    }
}

proof fn lemma_char_from_none(s: Seq<char>, c: char, from: int, k: int)
    requires
        0 <= from <= k < s.len(),
        match char_from(s, c, from) {
            None => true,
            Some(i) => k < i,
        },
    ensures
        s[k] != c,
    decreases k - from,
{
    if from < k {
        lemma_char_from_none(s, c, from + 1, k);
    }
}

proof fn lemma_lines_have_no_break(s: Seq<char>)
    ensures
        forall|k: int|
            0 <= k < lines_spec(s).len() ==> free_of(#[trigger] lines_spec(s)[k], |c: char| c == '\n'),
    decreases s.len(),
{
    let bad = |c: char| c == '\n';
    if s.len() > 0 {
        match char_from(s, '\n', 0) {
            None => {
                assert forall|i: int| 0 <= i < s.len() implies !bad(#[trigger] s[i]) by {
                    lemma_char_from_none(s, '\n', 0, i);
                }
            },
            Some(i) => {
                if 0 <= i < s.len() {
                    lemma_lines_have_no_break(s.skip(i + 1));
                    assert forall|k: int| 0 <= k < i implies !bad(#[trigger] s.take(i)[k]) by {
                        lemma_char_from_none(s, '\n', 0, k);
                    }
                    assert(free_of(s.take(i), bad));
                    assert forall|k: int| 0 <= k < lines_spec(s).len() implies free_of(
                        #[trigger] lines_spec(s)[k],
                        bad,
                    ) by {
                        if k > 0 {
                            assert(lines_spec(s)[k] == lines_spec(s.skip(i + 1))[k - 1]);
                        }
                    }
                }
            },
        }
    }
}

proof fn lemma_read_lines_free(lines: Seq<Seq<char>>, bad: spec_fn(char) -> bool)
    requires
        forall|k: int| 0 <= k < lines.len() ==> free_of(#[trigger] lines[k], bad),
    ensures
        forall|k: int|
            0 <= k < read_lines(lines).1.len() ==> free_of(#[trigger] read_lines(lines).1[k], bad),
    decreases lines.len(),
{
    if lines.len() > 0 {
        assert forall|k: int| 0 <= k < lines.len() - 1 implies free_of(
            #[trigger] lines.drop_last()[k],
            bad,
        ) by {
            assert(free_of(lines[k], bad));
        }
        lemma_read_lines_free(lines.drop_last(), bad);
        assert(free_of(lines[lines.len() - 1], bad));
        lemma_trim_free(lines.last(), bad);
        lemma_spoken_line_free(trim_spec(lines.last()), bad);
        let before = read_lines(lines.drop_last()).1;
        let after = read_lines(lines).1;
        assert forall|k: int| 0 <= k < after.len() implies free_of(#[trigger] after[k], bad) by {
            if k < before.len() {
                assert(after[k] == before[k]);
            } else {
                assert(after[k] == spoken_line(trim_spec(lines.last())));
            }
        }
    }
}

/// What is spoken is one line.
pub proof fn law_spoken_text_is_one_line(s: Seq<char>)
    ensures
        forall|i: int| 0 <= i < tts_text_spec(s).len() ==> (#[trigger] tts_text_spec(s)[i]) != '\n',
{
    let bad = |c: char| c == '\n';
    let lines = lines_spec(normalize_spec(s));
    lemma_lines_have_no_break(normalize_spec(s));
    lemma_read_lines_free(lines, bad);
    lemma_join_free(read_lines(lines).1, bad);
    assert forall|i: int| 0 <= i < tts_text_spec(s).len() implies (#[trigger] tts_text_spec(s)[i])
        != '\n' by {
        assert(!bad(tts_text_spec(s)[i]));
    }
}

proof fn lemma_concat_free(a: Seq<char>, b: Seq<char>, bad: spec_fn(char) -> bool)
    requires
        free_of(a, bad),
        free_of(b, bad),
    ensures
        free_of(a + b, bad),
{
    assert forall|i: int| 0 <= i < (a + b).len() implies !bad(#[trigger] (a + b)[i]) by {
        if i < a.len() {
            assert(!bad(a[i]));
        } else {
            assert(!bad(b[i - a.len()]));
        }
    }
}

proof fn lemma_break_tokens_free(s: Seq<char>, bad: spec_fn(char) -> bool)
    requires
        free_of(s, bad),
        !bad('\n'),
    ensures
        free_of(break_tokens(s), bad),
    decreases s.len(),
{
    if s.len() > 0 {
        assert(!bad(s[0]));
        lemma_skip_free(s, 1, bad);
        assert(s.skip(1) =~= s.drop_first());
        lemma_break_tokens_free(s.drop_first(), bad);
        lemma_concat_free(seq![s[0]], break_tokens(s.drop_first()), bad);
        if s.len() >= 2 {
            lemma_skip_free(s, 2, bad);
            lemma_break_tokens_free(s.skip(2), bad);
            lemma_concat_free(seq!['\n'], break_tokens(s.skip(2)), bad);
        }
    }
}

proof fn lemma_replace_free(s: Seq<char>, p: Seq<char>, by: Seq<char>, bad: spec_fn(char) -> bool)
    requires
        free_of(s, bad),
        free_of(by, bad),
    ensures
        free_of(replace_spec(s, p, by), bad),
    decreases s.len(),
{
    if p.len() > 0 && s.len() >= p.len() {
        assert(!bad(s[0]));
        lemma_skip_free(s, 1, bad);
        assert(s.skip(1) =~= s.drop_first());
        lemma_skip_free(s, p.len() as int, bad);
        lemma_replace_free(s.drop_first(), p, by, bad);
        lemma_replace_free(s.skip(p.len() as int), p, by, bad);
        lemma_concat_free(seq![s[0]], replace_spec(s.drop_first(), p, by), bad);
        lemma_concat_free(by, replace_spec(s.skip(p.len() as int), p, by), bad);
    }
}

/// A character that is replaced is gone.
proof fn lemma_replaced_char_is_gone(s: Seq<char>, c: char, by: Seq<char>, bad: spec_fn(char) -> bool)
    requires
        forall|x: char| #[trigger] bad(x) == (x == c),
        free_of(by, bad),
    ensures
        free_of(replace_spec(s, seq![c], by), bad),
    decreases s.len(),
{
    let p = seq![c];
    if s.len() > 0 {
        assert(s.take(1) =~= seq![s[0]]);
        lemma_replaced_char_is_gone(s.drop_first(), c, by, bad);
        lemma_replaced_char_is_gone(s.skip(1), c, by, bad);
        if s[0] == c {
            assert(s.take(1) == p);
            lemma_concat_free(by, replace_spec(s.skip(1), p, by), bad);
        } else {
            if s.take(1) == p {
                assert(s.take(1)[0] == c);
            }
            lemma_concat_free(seq![s[0]], replace_spec(s.drop_first(), p, by), bad);
        }
    }
}

proof fn lemma_normalize_free(s: Seq<char>, bad: spec_fn(char) -> bool)
    requires
        free_of(s, bad),
        !bad('\n'),
    ensures
        free_of(normalize_spec(s), bad),
{
    reveal_strlit("\n");
    assert("\n"@ =~= seq!['\n']);
    lemma_break_tokens_free(s, bad);
    lemma_replace_free(break_tokens(s), "\r\n"@, "\n"@, bad);
    lemma_replace_free(replace_spec(break_tokens(s), "\r\n"@, "\n"@), "\r"@, "\n"@, bad);
}

proof fn lemma_lines_free(s: Seq<char>, bad: spec_fn(char) -> bool)
    requires
        free_of(s, bad),
    ensures
        forall|k: int| 0 <= k < lines_spec(s).len() ==> free_of(#[trigger] lines_spec(s)[k], bad),
    decreases s.len(),
{
    if s.len() > 0 {
        if let Some(i) = char_from(s, '\n', 0) {
            if 0 <= i < s.len() {
                lemma_skip_free(s, i + 1, bad);
                lemma_lines_free(s.skip(i + 1), bad);
                assert forall|k: int| 0 <= k < i implies !bad(#[trigger] s.take(i)[k]) by {
                    assert(!bad(s[k]));
                }
                assert(free_of(s.take(i), bad));
                assert forall|k: int| 0 <= k < lines_spec(s).len() implies free_of(
                    #[trigger] lines_spec(s)[k],
                    bad,
                ) by {
                    if k > 0 {
                        assert(lines_spec(s)[k] == lines_spec(s.skip(i + 1))[k - 1]);
                    }
                }
            }
        }
    }
}

/// What is spoken holds no carriage return.
pub proof fn law_spoken_text_has_no_carriage_return(s: Seq<char>)
    ensures
        forall|i: int| 0 <= i < tts_text_spec(s).len() ==> (#[trigger] tts_text_spec(s)[i]) != '\r',
{
    let bad = |c: char| c == '\r';
    reveal_strlit("\n");
    reveal_strlit("\r");
    assert("\n"@ =~= seq!['\n']);
    assert("\r"@ =~= seq!['\r']);
    let n = normalize_spec(s);
    lemma_replaced_char_is_gone(
        replace_spec(break_tokens(s), "\r\n"@, "\n"@),
        '\r',
        "\n"@,
        bad,
    );
    lemma_lines_free(n, bad);
    lemma_read_lines_free(lines_spec(n), bad);
    lemma_join_free(read_lines(lines_spec(n)).1, bad);
    assert forall|i: int| 0 <= i < tts_text_spec(s).len() implies (#[trigger] tts_text_spec(s)[i])
        != '\r' by {
        assert(!bad(tts_text_spec(s)[i]));
    }
}

/// A mark of emphasis or code.
pub open spec fn emphasis_mark(c: char) -> bool {
    c == '`' || c == '*' || c == '_' || c == '~'
}

proof fn lemma_inline_drops_marks(s: Seq<char>, i: int, quoting: spec_fn(char) -> bool, mark: spec_fn(char) -> bool)
    requires
        forall|c: char| #[trigger] quoting(c) == (c == '\\' || c == '['),
        forall|c: char| #[trigger] mark(c) == emphasis_mark(c),
        free_of(s, quoting),
        0 <= i,
    ensures
        free_of(inline_spec(s, i), mark),
    decreases s.len() - i,
{
    if i < s.len() {
        assert(!quoting(s[i]));
        if i + 1 < s.len() {
            assert(!quoting(s[i + 1]));
        }
        assert(link_at(s, i) is None);
        lemma_inline_drops_marks(s, i + 1, quoting, mark);
        let tag = if s[i] == '<' { char_from(s, '>', i + 1) } else { None };
        match tag {
            Some(end) => {
                if i < end < s.len() {
                    lemma_inline_drops_marks(s, end + 1, quoting, mark);
                }
            },
            None => {
                if !emphasis_mark(s[i]) {
                    lemma_concat_free(seq![s[i]], inline_spec(s, i + 1), mark);
                }
            },
        }
    }
}

proof fn lemma_spoken_line_has_no_marks(
    line: Seq<char>,
    quoting: spec_fn(char) -> bool,
    mark: spec_fn(char) -> bool,
)
    requires
        forall|c: char| #[trigger] quoting(c) == (c == '\\' || c == '['),
        forall|c: char| #[trigger] mark(c) == emphasis_mark(c),
        free_of(line, quoting),
    ensures
        free_of(spoken_line(line), mark),
{
    lemma_trim_free(line, quoting);
    let t = trim_spec(line);
    let h = leading(t, '#') as int;
    let d = leading_digits(t) as int;
    if 1 <= h <= 6 && white_at(t, h) {
        lemma_skip_free(t, h, quoting);
        lemma_trim_start_free(t.skip(h), quoting);
    } else if t.len() > 0 && (t[0] == '-' || t[0] == '*' || t[0] == '+') && white_at(t, 1) {
        lemma_skip_free(t, 1, quoting);
        lemma_trim_start_free(t.skip(1), quoting);
    } else if d > 0 && d < t.len() && (t[d] == '.' || t[d] == ')') && white_at(t, d + 1) {
        lemma_skip_free(t, d + 1, quoting);
        lemma_trim_start_free(t.skip(d + 1), quoting);
    }
    lemma_trim_free(block_spec(t), quoting);
    let u = trim_spec(block_spec(t));
    lemma_inline_drops_marks(u, 0, quoting, mark);
    let w = inline_spec(u, 0);
    lemma_without_emoji(w);
    assert forall|k: int| 0 <= k < without_emoji(w).len() implies !mark(
        #[trigger] without_emoji(w)[k],
    ) by {
        assert(w.contains(without_emoji(w)[k]));
    }
}

proof fn lemma_read_lines_have_no_marks(
    lines: Seq<Seq<char>>,
    quoting: spec_fn(char) -> bool,
    mark: spec_fn(char) -> bool,
)
    requires
        forall|c: char| #[trigger] quoting(c) == (c == '\\' || c == '['),
        forall|c: char| #[trigger] mark(c) == emphasis_mark(c),
        forall|k: int| 0 <= k < lines.len() ==> free_of(#[trigger] lines[k], quoting),
    ensures
        forall|k: int|
            0 <= k < read_lines(lines).1.len() ==> free_of(#[trigger] read_lines(lines).1[k], mark),
    decreases lines.len(),
{
    if lines.len() > 0 {
        assert forall|k: int| 0 <= k < lines.len() - 1 implies free_of(
            #[trigger] lines.drop_last()[k],
            quoting,
        ) by {
            assert(free_of(lines[k], quoting));
        }
        lemma_read_lines_have_no_marks(lines.drop_last(), quoting, mark);
        assert(free_of(lines[lines.len() - 1], quoting));
        lemma_trim_free(lines.last(), quoting);
        lemma_spoken_line_has_no_marks(trim_spec(lines.last()), quoting, mark);
        let before = read_lines(lines.drop_last()).1;
        let after = read_lines(lines).1;
        assert forall|k: int| 0 <= k < after.len() implies free_of(#[trigger] after[k], mark) by {
            if k < before.len() {
                assert(after[k] == before[k]);
            } else {
                assert(after[k] == spoken_line(trim_spec(lines.last())));
            }
        }
    }
}

/// What is spoken of a text that quotes nothing, neither with a backslash nor in the label of a
/// link, holds no marks of emphasis or code.
pub proof fn law_spoken_text_has_no_marks(s: Seq<char>)
    requires
        forall|i: int| 0 <= i < s.len() ==> (#[trigger] s[i]) != '\\' && s[i] != '[',
    ensures
        forall|i: int|
            0 <= i < tts_text_spec(s).len() ==> !emphasis_mark(#[trigger] tts_text_spec(s)[i]),
{
    let quoting = |c: char| c == '\\' || c == '[';
    let mark = |c: char| emphasis_mark(c);
    assert(free_of(s, quoting));
    let n = normalize_spec(s);
    lemma_normalize_free(s, quoting);
    lemma_lines_free(n, quoting);
    lemma_read_lines_have_no_marks(lines_spec(n), quoting, mark);
    lemma_join_free(read_lines(lines_spec(n)).1, mark);
    assert forall|i: int| 0 <= i < tts_text_spec(s).len() implies !emphasis_mark(
        #[trigger] tts_text_spec(s)[i],
    ) by {
        assert(!mark(tts_text_spec(s)[i]));
    }
}

/// What a sentence buffer has handed out and what still waits in it after some sentences.
pub open spec fn buffered(sentences: Seq<Seq<char>>) -> (Seq<char>, Seq<char>)
    decreases sentences.len(),
{
    if sentences.len() == 0 {
        (Seq::empty(), Seq::empty())
    } else {
        let (out, pending) = buffered(sentences.drop_last());
        let (left, handed) = push_spec(pending, sentences.last());
        match handed {
            Some(text) => (out + text, left),
            None => (out, left),
        }
    }
}

/// Some sentences, each without white space around it, one after another.
pub open spec fn trimmed_text(sentences: Seq<Seq<char>>) -> Seq<char>
    decreases sentences.len(),
{
    if sentences.len() == 0 {
        Seq::empty()
    } else {
        trimmed_text(sentences.drop_last()) + trim_spec(sentences.last())
    }
}

/// A sentence buffer hands out exactly what was pushed, in order: what it has handed out and what
/// still waits are the sentences without the white space around them.
pub proof fn law_buffer_hands_out_what_was_pushed(sentences: Seq<Seq<char>>)
    ensures
        buffered(sentences).0 + buffered(sentences).1 == trimmed_text(sentences),
    decreases sentences.len(),
{
    if sentences.len() > 0 {
        law_buffer_hands_out_what_was_pushed(sentences.drop_last());
        let (out, pending) = buffered(sentences.drop_last());
        let added = trim_spec(sentences.last());
        assert(buffered(sentences).0 + buffered(sentences).1 =~= out + pending + added);
    } else {
        assert(buffered(sentences).0 + buffered(sentences).1 =~= trimmed_text(sentences));
    }
}

/// Letters, digits and the scripts that are read aloud are no pictures.
pub proof fn law_letters_are_no_pictures(c: char)
    requires
        c <= '\u{A8}' || '\u{B0}' <= c <= '\u{1FFF}' || '\u{3040}' <= c <= '\u{30FF}' || '\u{3400}' <= c
            <= '\u{9FFF}' || '\u{AC00}' <= c <= '\u{D7A3}' || '\u{FF00}' <= c <= '\u{FFEF}',
    ensures
        !emoji(c),
{
}

/// Every symbol of the blocks that hold pictures is one, and so is what joins or colours them.
pub proof fn law_symbols_are_pictures(c: char)
    requires
        '\u{1F000}' <= c <= '\u{1FAFF}' || '\u{2600}' <= c <= '\u{27BF}' || '\u{2300}' <= c <= '\u{23FF}'
            || c == '\u{200D}' || c == '\u{20E3}' || c == '\u{FE0E}' || c == '\u{FE0F}',
    ensures
        emoji(c),
{
}

} // verus!

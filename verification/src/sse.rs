//! Lines of an event stream that arrives in pieces.

use vstd::prelude::*;

use crate::audio::copy_range;

verus! {

/// The first position at or after `from` where a line ends.
pub open spec fn newline_from(buf: Seq<u8>, from: int) -> Option<int>
    decreases buf.len() - from,
{
    if from < 0 || from >= buf.len() {
        None
    } else if buf[from] == 10 {
        Some(from)
    } else {
        newline_from(buf, from + 1)
    }
}

/// A line without a carriage return at its end.
pub open spec fn without_cr(line: Seq<u8>) -> Seq<u8> {
    if line.len() > 0 && line.last() == 13 {
        line.drop_last()
    } else {
        line
    }
}

/// The complete lines at the start of `buf`.
pub open spec fn complete_lines(buf: Seq<u8>) -> Seq<Seq<u8>>
    decreases buf.len(),
{
    match newline_from(buf, 0) {
        Some(i) => if 0 <= i < buf.len() {
            seq![without_cr(buf.take(i))] + complete_lines(buf.skip(i + 1))
        } else {
            Seq::empty()
        },
        None => Seq::empty(),
    }
}

/// What is left of `buf` behind its complete lines.
pub open spec fn unfinished_line(buf: Seq<u8>) -> Seq<u8>
    decreases buf.len(),
{
    match newline_from(buf, 0) {
        Some(i) => if 0 <= i < buf.len() {
            unfinished_line(buf.skip(i + 1))
        } else {
            buf
        },
        None => buf,
    }
}

/// The first line of `buf` and what follows it.
pub open spec fn first_line(buf: Seq<u8>) -> Option<(Seq<u8>, Seq<u8>)> {
    match newline_from(buf, 0) {
        Some(i) => Some((without_cr(buf.take(i)), buf.skip(i + 1))),
        None => None,
    }
}

pub proof fn lemma_newline_bounds(buf: Seq<u8>, from: int)
    requires
        0 <= from,
    ensures
        newline_from(buf, from) is Some ==> from <= newline_from(buf, from)->0 < buf.len()
            && buf[newline_from(buf, from)->0] == 10,
        newline_from(buf, from) is Some ==> forall|k: int|
            from <= k < newline_from(buf, from)->0 ==> buf[k] != 10,
        newline_from(buf, from) is None ==> forall|k: int| from <= k < buf.len() ==> buf[k] != 10,
    decreases buf.len() - from,
{
    if from < buf.len() && buf[from] != 10 {
        lemma_newline_bounds(buf, from + 1);
    }
}

proof fn lemma_newline_at(buf: Seq<u8>, from: int, to: int)
    requires
        0 <= from <= to <= buf.len(),
        forall|k: int| from <= k < to ==> buf[k] != 10,
    ensures
        newline_from(buf, from) == newline_from(buf, to),
    decreases to - from,
{
    if from < to {
        lemma_newline_at(buf, from + 1, to);
    }
}

/// Cuts the first complete line off `buf`.
pub fn take_line(buf: &mut Vec<u8>) -> (r: Option<Vec<u8>>)
    ensures
        match first_line(old(buf)@) {
            Some((line, rest)) => r is Some && r->0@ == line && final(buf)@ == rest && rest.len()
                < old(buf)@.len(),
            None => r is None && final(buf)@ == old(buf)@,
        },
{
    let n: usize = buf.len();
    let mut i: usize = 0;
    while i < n && buf[i] != 10
        invariant
            i <= n == buf@.len(),
            buf@ == old(buf)@,
            forall|k: int| 0 <= k < i ==> buf@[k] != 10,
        decreases n - i,
    {
        i += 1;
    }
    proof {
        lemma_newline_at(buf@, 0, i as int);
    }
    if i == n {
        return None;
    }
    let end: usize = if i > 0 && buf[i - 1] == 13 { i - 1 } else { i };
    let line = copy_range(buf.as_slice(), 0, end);
    let rest = copy_range(buf.as_slice(), i + 1, n);
    proof {
        assert(buf@.skip(i + 1) =~= rest@);
        assert(line@ =~= without_cr(buf@.take(i as int)));
    }
    *buf = rest;
    Some(line)
}

/// Whether `line` begins with `prefix`.
pub fn bytes_start_with(line: &Vec<u8>, prefix: &[u8]) -> (r: bool)
    ensures
        r == prefix@.is_prefix_of(line@),
{
    if prefix.len() > line.len() {
        return false;
    }
    let mut i: usize = 0;
    while i < prefix.len()
        invariant
            i <= prefix@.len() <= line@.len(),
            forall|k: int| 0 <= k < i ==> line@[k] == prefix@[k],
        decreases prefix@.len() - i,
    {
        if line[i] != prefix[i] {
            return false;
        }
        i += 1;
    }
    assert(line@.subrange(0, prefix@.len() as int) =~= prefix@);
    true
}

/// Two runs of bytes are the same.
pub fn bytes_equal(a: &[u8], b: &[u8]) -> (r: bool)
    ensures
        r == (a@ == b@),
{
    if a.len() != b.len() {
        return false;
    }
    let mut i: usize = 0;
    while i < a.len()
        invariant
            i <= a@.len() == b@.len(),
            forall|k: int| 0 <= k < i ==> a@[k] == b@[k],
        decreases a@.len() - i,
    {
        if a[i] != b[i] {
            return false;
        }
        i += 1;
    }
    assert(a@ =~= b@);
    true
}

proof fn lemma_first_newline_in_prefix(a: Seq<u8>, b: Seq<u8>)
    requires
        newline_from(a, 0) is Some,
    ensures
        newline_from(a + b, 0) == newline_from(a, 0),
{
    lemma_newline_bounds(a, 0);
    let i = newline_from(a, 0)->0;
    let ab = a + b;
    assert forall|k: int| 0 <= k < i implies ab[k] != 10 by {
        assert(a[k] != 10);
    }
    lemma_newline_at(ab, 0, i);
    assert(ab[i] == 10);
}

/// The first line of what has arrived stays the first line, whatever follows.
pub proof fn lemma_first_line_stays(a: Seq<u8>, b: Seq<u8>)
    ensures
        first_line(a) matches Some((line, rest)) ==> first_line(a + b) == Some((line, rest + b))
            && rest.len() < a.len(),
{
    lemma_newline_bounds(a, 0);
    if let Some(i) = newline_from(a, 0) {
        lemma_first_newline_in_prefix(a, b);
        assert((a + b).skip(i + 1) =~= a.skip(i + 1) + b);
        assert((a + b).take(i) =~= a.take(i));
    }
}

/// Where the stream is cut into pieces does not matter: the lines of `a` followed by those of
/// what is left of `a` and `b` are the lines of the whole.
pub proof fn law_lines_do_not_depend_on_pieces(a: Seq<u8>, b: Seq<u8>)
    ensures
        complete_lines(a + b) == complete_lines(a) + complete_lines(unfinished_line(a) + b),
        unfinished_line(a + b) == unfinished_line(unfinished_line(a) + b),
    decreases a.len(),
{
    lemma_newline_bounds(a, 0);
    match newline_from(a, 0) {
        Some(i) => {
            lemma_first_newline_in_prefix(a, b);
            law_lines_do_not_depend_on_pieces(a.skip(i + 1), b);
            assert((a + b).skip(i + 1) =~= a.skip(i + 1) + b);
            assert((a + b).take(i) =~= a.take(i));
            assert(complete_lines(a + b) =~= complete_lines(a) + complete_lines(unfinished_line(a) + b));
        },
        None => {
            assert(complete_lines(a) + complete_lines(a + b) =~= complete_lines(a + b));
        },
    }
}

/// A line is what stands before its end, which may be written with a carriage return or without.
pub proof fn law_lines_are_what_was_written(line: Seq<u8>, rest: Seq<u8>)
    requires
        !line.contains(10),
        line.len() == 0 || line.last() != 13,
    ensures
        complete_lines(line + seq![10u8] + rest) == seq![line] + complete_lines(rest),
        complete_lines(line + seq![13u8, 10u8] + rest) == seq![line] + complete_lines(rest),
        unfinished_line(line + seq![10u8] + rest) == unfinished_line(rest),
        unfinished_line(line + seq![13u8, 10u8] + rest) == unfinished_line(rest),
        complete_lines(line).len() == 0,
        unfinished_line(line) == line,
{
    let a = line + seq![10u8] + rest;
    let n = line.len() as int;
    assert forall|k: int| 0 <= k < n implies line[k] != 10 by {
        assert(line.contains(line[k]));
    }
    lemma_newline_at(a, 0, n);
    assert(a.take(n) =~= line);
    assert(a.skip(n + 1) =~= rest);
    let b = line + seq![13u8, 10u8] + rest;
    lemma_newline_at(b, 0, n + 1);
    assert(b.take(n + 1) =~= line.push(13));
    assert(line.push(13).drop_last() =~= line);
    assert(b.skip(n + 2) =~= rest);
    lemma_newline_bounds(line, 0);
}

} // verus!

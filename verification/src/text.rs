//! Character-level text operations shared by every other module.
//!
//! A text is modelled by its sequence of characters. Everything that follows is stated over
//! `Seq<char>` and computed by plain loops.

use vstd::prelude::*;
use vstd::utf8::{encode_scalar, encode_utf8};

verus! {

/// `String::push` appends one character.
pub assume_specification[ String::push ](s: &mut String, ch: char)
    ensures
        final(s)@ == old(s)@.push(ch),
;

/// The characters with the Unicode property `White_Space`.
pub open spec fn white_space(c: char) -> bool {
    ||| '\u{9}' <= c <= '\u{D}'
    ||| c == ' '
    ||| c == '\u{85}'
    ||| c == '\u{A0}'
    ||| c == '\u{1680}'
    ||| '\u{2000}' <= c <= '\u{200A}'
    ||| c == '\u{2028}'
    ||| c == '\u{2029}'
    ||| c == '\u{202F}'
    ||| c == '\u{205F}'
    ||| c == '\u{3000}'
}

/// `s` without its leading white space.
pub open spec fn trim_start_spec(s: Seq<char>) -> Seq<char>
    decreases s.len(),
{
    if s.len() > 0 && white_space(s[0]) {
        trim_start_spec(s.drop_first())
    } else {
        s
    }
}

/// `s` without its trailing white space.
pub open spec fn trim_end_spec(s: Seq<char>) -> Seq<char>
    decreases s.len(),
{
    if s.len() > 0 && white_space(s.last()) {
        trim_end_spec(s.drop_last())
    } else {
        s
    }
}

/// `s` without white space at either end.
pub open spec fn trim_spec(s: Seq<char>) -> Seq<char> {
    trim_end_spec(trim_start_spec(s))
}

/// A text is blank when nothing but white space is in it.
pub open spec fn blank(s: Seq<char>) -> bool {
    forall|i: int| 0 <= i < s.len() ==> white_space(#[trigger] s[i])
}

/// `p` stands in `s` at position `i`.
pub open spec fn occurs_at(s: Seq<char>, p: Seq<char>, i: int) -> bool {
    0 <= i && i + p.len() <= s.len() && s.subrange(i, i + p.len()) == p
}

/// `p` stands somewhere in `s`.
pub open spec fn occurs(s: Seq<char>, p: Seq<char>) -> bool {
    exists|i: int| occurs_at(s, p, i)
}

/// The first position at or after `from` where `p` stands in `s`.
pub open spec fn find_from(s: Seq<char>, p: Seq<char>, from: int) -> Option<int>
    decreases s.len() - from + 1,
{
    if from < 0 || from + p.len() > s.len() {
        None
    } else if occurs_at(s, p, from) {
        Some(from)
    } else {
        find_from(s, p, from + 1)
    }
}

/// `s` with every occurrence of `p`, taken from the left without overlap, replaced by `by`.
pub open spec fn replace_spec(s: Seq<char>, p: Seq<char>, by: Seq<char>) -> Seq<char>
    decreases s.len(),
{
    if p.len() == 0 || s.len() < p.len() {
        s
    } else if s.take(p.len() as int) == p {
        by + replace_spec(s.skip(p.len() as int), p, by)
    } else {
        seq![s[0]] + replace_spec(s.drop_first(), p, by)
    }
}

pub open spec fn ascii_lower(c: char) -> char {
    if 'A' <= c <= 'Z' {
        ((c as u8) + 32u8) as u8 as char
    } else {
        c
    }
}

pub open spec fn ascii_upper(c: char) -> char {
    if 'a' <= c <= 'z' {
        ((c as u8) - 32u8) as u8 as char
    } else {
        c
    }
}

/// `s` with the ASCII letters in lower case.
pub open spec fn lower_spec(s: Seq<char>) -> Seq<char> {
    Seq::new(s.len(), |i: int| ascii_lower(s[i]))
}

/// `s` with the ASCII letters in upper case.
pub open spec fn upper_spec(s: Seq<char>) -> Seq<char> {
    Seq::new(s.len(), |i: int| ascii_upper(s[i]))
}

pub open spec fn digit_char(d: nat) -> char {
    ((48 + d) as u8) as char
}

/// The decimal numeral of `n`, without leading zeros.
pub open spec fn decimal(n: nat) -> Seq<char>
    decreases n,
{
    if n < 10 {
        seq![digit_char(n)]
    } else {
        decimal(n / 10).push(digit_char(n % 10))
    }
}

/// Different numbers are written differently.
pub proof fn lemma_decimal_is_injective(a: nat, b: nat)
    requires
        decimal(a) == decimal(b),
    ensures
        a == b,
    decreases a,
{
    assert(decimal(a).last() == digit_char(a % 10));
    assert(decimal(b).last() == digit_char(b % 10));
    if a >= 10 {
        lemma_decimal_not_empty(a / 10);
        assert(decimal(a).drop_last() =~= decimal(a / 10));
        assert(decimal(b).len() > 1);
        assert(decimal(b).drop_last() =~= decimal(b / 10));
        lemma_decimal_is_injective(a / 10, b / 10);
    } else if b >= 10 {
        lemma_decimal_not_empty(b / 10);
    }
}

proof fn lemma_decimal_not_empty(n: nat)
    ensures
        decimal(n).len() > 0,
    decreases n,
{
    if n >= 10 {
        lemma_decimal_not_empty(n / 10);
    }
}

pub open spec fn is_digit(c: char) -> bool {
    '0' <= c <= '9'
}

/// The number that a string of decimal digits denotes.
pub open spec fn digits_value(s: Seq<char>) -> nat
    decreases s.len(),
{
    if s.len() == 0 {
        0
    } else {
        10 * digits_value(s.drop_last()) + (s.last() as u8 - 48) as nat
    }
}

pub open spec fn all_digits(s: Seq<char>) -> bool {
    forall|i: int| 0 <= i < s.len() ==> is_digit(#[trigger] s[i])
}

/// The number that `s` writes: an optional `+`, then at least one decimal digit and nothing else,
/// with a value of at most `max`.
pub open spec fn parse_spec(s: Seq<char>, max: nat) -> Option<nat> {
    let body = if s.len() > 0 && s[0] == '+' { s.drop_first() } else { s };
    if body.len() > 0 && all_digits(body) && digits_value(body) <= max {
        Some(digits_value(body))
    } else {
        None
    }
}

proof fn lemma_decimal_digits(n: nat)
    ensures
        decimal(n).len() > 0,
        all_digits(decimal(n)),
        digits_value(decimal(n)) == n,
    decreases n,
{
    let s = decimal(n);
    if n < 10 {
        assert(s.drop_last() =~= Seq::<char>::empty());
        assert(digits_value(s.drop_last()) == 0);
    } else {
        lemma_decimal_digits(n / 10);
        assert(s.drop_last() =~= decimal(n / 10));
        assert forall|i: int| 0 <= i < s.len() implies is_digit(#[trigger] s[i]) by {
            if i < s.len() - 1 {
                assert(is_digit(decimal(n / 10)[i]));
            }
        }
    }
}

/// A number is read as it was written, with or without a plus sign, where it is not too large; one
/// that is too large is no number.
pub proof fn law_number_is_read_back(n: nat, max: nat)
    ensures
        n <= max ==> parse_spec(decimal(n), max) == Some(n),
        n <= max ==> parse_spec(seq!['+'] + decimal(n), max) == Some(n),
        n > max ==> parse_spec(decimal(n), max) is None,
{
    lemma_decimal_digits(n);
    let s = decimal(n);
    assert(is_digit(s[0]));
    assert((seq!['+'] + s).drop_first() =~= s);
}

/// The texts of a sequence of strings.
pub open spec fn views(v: Seq<String>) -> Seq<Seq<char>> {
    Seq::new(v.len(), |i: int| v[i]@)
}

/// The text of an optional string.
pub open spec fn opt_view(o: Option<String>) -> Option<Seq<char>> {
    match o {
        Some(s) => Some(s@),
        None => None,
    }
}

/// The text of an optional string slice.
pub open spec fn opt_str_view(o: Option<&str>) -> Option<Seq<char>> {
    match o {
        Some(s) => Some(s@),
        None => None,
    }
}

/// The optional text, left out where it is empty.
pub open spec fn non_empty_spec(o: Option<Seq<char>>) -> Option<Seq<char>> {
    match o {
        Some(s) => if s.len() == 0 { None } else { Some(s) },
        None => None,
    }
}

pub fn is_white_space(c: char) -> (r: bool)
    ensures
        r == white_space(c),
{
    ('\u{9}' <= c && c <= '\u{D}') || c == ' ' || c == '\u{85}' || c == '\u{A0}' || c == '\u{1680}'
        || ('\u{2000}' <= c && c <= '\u{200A}') || c == '\u{2028}' || c == '\u{2029}'
        || c == '\u{202F}' || c == '\u{205F}' || c == '\u{3000}'
}

/// The characters of `s`.
pub fn chars_of(s: &str) -> (r: Vec<char>)
    ensures
        r@ == s@,
{
    let mut v: Vec<char> = Vec::new();
    for c in it: s.chars()
        invariant
            it.seq() == s@,
            v@ == s@.take(it.index()),
    {
        v.push(c);
    }
    assert(s@.take(s@.len() as int) == s@);
    v
}

/// The string made of the characters `v[from..to]`.
pub fn string_of(v: &Vec<char>, from: usize, to: usize) -> (r: String)
    requires
        from <= to <= v@.len(),
    ensures
        r@ == v@.subrange(from as int, to as int),
{
    let mut s: String = String::new();
    let mut i: usize = from;
    assert(v@.subrange(from as int, from as int) =~= Seq::<char>::empty());
    while i < to
        invariant
            from <= i <= to <= v@.len(),
            s@ == v@.subrange(from as int, i as int),
        decreases to - i,
    {
        s.push(v[i]);
        assert(v@.subrange(from as int, i + 1) =~= v@.subrange(from as int, i as int).push(v@[i as int]));
        i += 1;
    }
    s
}

/// The string made of all of `v`.
pub fn string_from(v: &Vec<char>) -> (r: String)
    ensures
        r@ == v@,
{
    let s = string_of(v, 0, v.len());
    assert(v@.subrange(0, v@.len() as int) =~= v@);
    s
}

/// Whether two texts are the same.
pub fn same(a: &str, b: &str) -> (r: bool)
    ensures
        r == (a@ == b@),
{
    let x = chars_of(a);
    let y = chars_of(b);
    if x.len() != y.len() {
        return false;
    }
    let mut i: usize = 0;
    while i < x.len()
        invariant
            i <= x@.len(),
            x@.len() == y@.len(),
            x@ == a@,
            y@ == b@,
            forall|k: int| 0 <= k < i ==> x@[k] == y@[k],
        decreases x@.len() - i,
    {
        if x[i] != y[i] {
            return false;
        }
        i += 1;
    }
    assert(a@ =~= b@);
    true
}

/// The concatenation of two texts.
pub fn concat(a: &str, b: &str) -> (r: String)
    ensures
        r@ == a@ + b@,
{
    let mut s: String = a.to_string();
    s.append(b);
    s
}

/// The concatenation of three texts.
pub fn concat3(a: &str, b: &str, c: &str) -> (r: String)
    ensures
        r@ == a@ + b@ + c@,
{
    let mut s: String = a.to_string();
    s.append(b);
    s.append(c);
    s
}

proof fn lemma_trim_start(s: Seq<char>, i: int)
    requires
        0 <= i <= s.len(),
        forall|k: int| 0 <= k < i ==> white_space(#[trigger] s[k]),
        i < s.len() ==> !white_space(s[i]),
    ensures
        trim_start_spec(s) == s.skip(i),
    decreases i,
{
    if i > 0 {
        assert(white_space(s[0]));
        assert forall|k: int| 0 <= k < i - 1 implies white_space(#[trigger] s.drop_first()[k]) by {
            assert(white_space(s[k + 1]));
        }
        lemma_trim_start(s.drop_first(), i - 1);
        assert(s.drop_first().skip(i - 1) =~= s.skip(i));
    } else {
        assert(s.skip(0) =~= s);
    }
}

proof fn lemma_trim_end(s: Seq<char>, j: int)
    requires
        0 <= j <= s.len(),
        forall|k: int| j <= k < s.len() ==> white_space(#[trigger] s[k]),
        j > 0 ==> !white_space(s[j - 1]),
    ensures
        trim_end_spec(s) == s.take(j),
    decreases s.len(),
{
    if j < s.len() {
        assert(white_space(s[s.len() - 1]));
        assert forall|k: int| j <= k < s.len() - 1 implies white_space(#[trigger] s.drop_last()[k]) by {
            assert(white_space(s[k]));
        }
        lemma_trim_end(s.drop_last(), j);
        assert(s.drop_last().take(j) =~= s.take(j));
    } else {
        assert(s.take(j) =~= s);
    }
}

/// The bounds that trimming leaves in `v`.
fn trim_bounds(v: &Vec<char>) -> (r: (usize, usize))
    ensures
        r.0 <= r.1 <= v@.len(),
        v@.subrange(r.0 as int, r.1 as int) == trim_spec(v@),
{
    let mut i: usize = 0;
    while i < v.len() && is_white_space(v[i])
        invariant
            i <= v@.len(),
            forall|k: int| 0 <= k < i ==> white_space(#[trigger] v@[k]),
        decreases v@.len() - i,
    {
        i += 1;
    }
    proof {
        lemma_trim_start(v@, i as int);
    }
    let mut j: usize = v.len();
    while i < j && is_white_space(v[j - 1])
        invariant
            i <= j <= v@.len(),
            forall|k: int| j <= k < v@.len() ==> white_space(#[trigger] v@[k]),
        decreases j,
    {
        j -= 1;
    }
    proof {
        let t = v@.skip(i as int);
        assert forall|k: int| j - i <= k < t.len() implies white_space(#[trigger] t[k]) by {
            assert(white_space(v@[k + i]));
        }
        lemma_trim_end(t, j - i);
        assert(t.take(j - i) =~= v@.subrange(i as int, j as int));
    }
    (i, j)
}

/// `s` without white space at either end.
pub fn trim(s: &str) -> (r: String)
    ensures
        r@ == trim_spec(s@),
{
    let v = chars_of(s);
    let (i, j) = trim_bounds(&v);
    string_of(&v, i, j)
}

/// `s` without leading white space.
pub fn trim_start(s: &str) -> (r: String)
    ensures
        r@ == trim_start_spec(s@),
{
    let v = chars_of(s);
    let mut i: usize = 0;
    while i < v.len() && is_white_space(v[i])
        invariant
            i <= v@.len(),
            forall|k: int| 0 <= k < i ==> white_space(#[trigger] v@[k]),
        decreases v@.len() - i,
    {
        i += 1;
    }
    proof {
        lemma_trim_start(v@, i as int);
        assert(v@.skip(i as int) =~= v@.subrange(i as int, v@.len() as int));
    }
    string_of(&v, i, v.len())
}

/// Trimming leaves nothing exactly when the text is blank.
pub proof fn lemma_trim_blank(s: Seq<char>)
    ensures
        trim_spec(s).len() == 0 <==> blank(s),
    decreases s.len(),
{
    if s.len() > 0 && white_space(s[0]) {
        lemma_trim_blank(s.drop_first());
        if blank(s.drop_first()) {
            assert forall|i: int| 0 <= i < s.len() implies white_space(#[trigger] s[i]) by {
                if i > 0 {
                    assert(white_space(s.drop_first()[i - 1]));
                }
            }
        }
        if blank(s) {
            assert forall|i: int| 0 <= i < s.len() - 1 implies white_space(#[trigger] s.drop_first()[i]) by {
                assert(white_space(s[i + 1]));
            }
        }
    } else if s.len() > 0 {
        lemma_trim_end_keeps(s, 0);
    }
}

/// Trimming the end keeps everything up to a character that is no white space.
pub proof fn lemma_trim_end_keeps(s: Seq<char>, i: int)
    requires
        0 <= i < s.len(),
        !white_space(s[i]),
    ensures
        trim_end_spec(s).len() > i,
        trim_end_spec(s).take(i + 1) == s.take(i + 1),
    decreases s.len(),
{
    if white_space(s.last()) {
        lemma_trim_end_keeps(s.drop_last(), i);
        assert(s.drop_last().take(i + 1) =~= s.take(i + 1));
    }
}

/// Trimming a trimmed text changes nothing.
pub proof fn lemma_trim_twice(s: Seq<char>)
    ensures
        trim_spec(trim_spec(s)) == trim_spec(s),
{
    lemma_trim_start_head(s);
    let t = trim_start_spec(s);
    lemma_trim_end_last(t);
    let u = trim_end_spec(t);
    if u.len() > 0 {
        lemma_trim_end_prefix(t);
        assert(u[0] == t[0]);
    }
    assert(trim_start_spec(u) == u);
    assert(trim_end_spec(u) == u);
}

proof fn lemma_trim_start_head(s: Seq<char>)
    ensures
        trim_start_spec(s).len() > 0 ==> !white_space(trim_start_spec(s)[0]),
    decreases s.len(),
{
    if s.len() > 0 && white_space(s[0]) {
        lemma_trim_start_head(s.drop_first());
    }
}

proof fn lemma_trim_end_last(s: Seq<char>)
    ensures
        trim_end_spec(s).len() > 0 ==> !white_space(trim_end_spec(s).last()),
    decreases s.len(),
{
    if s.len() > 0 && white_space(s.last()) {
        lemma_trim_end_last(s.drop_last());
    }
}

pub proof fn lemma_trim_end_prefix(s: Seq<char>)
    ensures
        trim_end_spec(s).is_prefix_of(s),
    decreases s.len(),
{
    if s.len() > 0 && white_space(s.last()) {
        lemma_trim_end_prefix(s.drop_last());
        assert(trim_end_spec(s).is_prefix_of(s.drop_last()));
        assert(trim_end_spec(s) =~= s.take(trim_end_spec(s).len() as int));
    }
}

proof fn lemma_trim_start_suffix(s: Seq<char>) -> (i: int)
    ensures
        0 <= i <= s.len(),
        trim_start_spec(s) == s.skip(i),
        blank(s.take(i)),
    decreases s.len(),
{
    if s.len() > 0 && white_space(s[0]) {
        let k = lemma_trim_start_suffix(s.drop_first());
        assert(s.drop_first().skip(k) =~= s.skip(k + 1));
        assert forall|j: int| 0 <= j < k + 1 implies white_space(#[trigger] s.take(k + 1)[j]) by {
            if j > 0 {
                assert(white_space(s.drop_first().take(k)[j - 1]));
            }
        }
        k + 1
    } else {
        assert(s.skip(0) =~= s);
        0
    }
}

proof fn lemma_trim_end_rest(s: Seq<char>)
    ensures
        trim_end_spec(s).is_prefix_of(s),
        blank(s.skip(trim_end_spec(s).len() as int)),
    decreases s.len(),
{
    lemma_trim_end_prefix(s);
    if s.len() > 0 && white_space(s.last()) {
        lemma_trim_end_rest(s.drop_last());
        let n = trim_end_spec(s).len() as int;
        let before = s.drop_last().skip(n);
        lemma_trim_end_prefix(s.drop_last());
        assert forall|j: int| 0 <= j < s.skip(n).len() implies white_space(#[trigger] s.skip(n)[j]) by {
            if j < before.len() {
                assert(white_space(before[j]));
            }
        }
    }
}

/// Trimming takes white space off both ends and nothing else: the text is white space, what is
/// left, and white space, and what is left neither begins nor ends with any.
pub proof fn law_trim_takes_white_space_off(s: Seq<char>) -> (i: int)
    ensures
        0 <= i,
        i + trim_spec(s).len() <= s.len(),
        trim_spec(s) == s.subrange(i, i + trim_spec(s).len()),
        blank(s.take(i)),
        blank(s.skip(i + trim_spec(s).len())),
        trim_spec(s).len() > 0 ==> !white_space(trim_spec(s)[0]) && !white_space(trim_spec(s).last()),
{
    let i = lemma_trim_start_suffix(s);
    let t = trim_start_spec(s);
    lemma_trim_end_rest(t);
    lemma_trim_start_head(s);
    lemma_trim_end_last(t);
    let u = trim_spec(s);
    assert(u =~= s.subrange(i, i + u.len()));
    assert(t.skip(u.len() as int) =~= s.skip(i + u.len()));
    if u.len() > 0 {
        assert(u[0] == t[0]);
    }
    i
}

/// What does not occur in a text does not occur in it when it is trimmed.
pub proof fn lemma_trim_has_no_more(s: Seq<char>, p: Seq<char>)
    requires
        !occurs(s, p),
    ensures
        !occurs(trim_spec(s), p),
{
    let i = law_trim_takes_white_space_off(s);
    let t = trim_spec(s);
    assert forall|k: int| !occurs_at(t, p, k) by {
        if occurs_at(t, p, k) {
            assert(s.subrange(i + k, i + k + p.len()) =~= t.subrange(k, k + p.len()));
            assert(occurs_at(s, p, i + k));
        }
    }
}

/// Whether `s` is blank.
pub fn is_blank(s: &str) -> (r: bool)
    ensures
        r == (trim_spec(s@).len() == 0),
        r == blank(s@),
{
    let v = chars_of(s);
    let (i, j) = trim_bounds(&v);
    proof {
        lemma_trim_blank(s@);
    }
    i == j
}

/// Whether `s` begins with `p`.
pub fn starts_with(s: &str, p: &str) -> (r: bool)
    ensures
        r == p@.is_prefix_of(s@),
{
    let v = chars_of(s);
    let w = chars_of(p);
    matches_at(&v, &w, 0)
}

/// Whether `w` stands in `v` at `at`.
pub fn matches_at(v: &Vec<char>, w: &Vec<char>, at: usize) -> (r: bool)
    ensures
        r == occurs_at(v@, w@, at as int),
        at == 0 ==> r == w@.is_prefix_of(v@),
{
    proof {
        if at == 0 && occurs_at(v@, w@, 0) {
            assert(v@.subrange(0, w@.len() as int) =~= w@);
        }
    }
    if at > v.len() || w.len() > v.len() - at {
        return false;
    }
    let n: usize = v.len();
    let mut i: usize = 0;
    while i < w.len()
        invariant
            i <= w@.len(),
            at + w@.len() <= n == v@.len(),
            forall|k: int| 0 <= k < i ==> v@[at + k] == w@[k],
        decreases w@.len() - i,
    {
        if v[at + i] != w[i] {
            proof {
                assert(v@.subrange(at as int, at + w@.len())[i as int] == v@[at + i]);
            }
            return false;
        }
        i += 1;
    }
    assert(v@.subrange(at as int, at + w@.len()) =~= w@);
    true
}

/// Whether `s` ends with `p`.
pub fn ends_with(s: &str, p: &str) -> (r: bool)
    ensures
        r == p@.is_suffix_of(s@),
{
    let v = chars_of(s);
    let w = chars_of(p);
    if w.len() > v.len() {
        return false;
    }
    let at: usize = v.len() - w.len();
    let r = matches_at(&v, &w, at);
    assert(v@.subrange(at as int, at + w@.len()) =~= v@.subrange((v@.len() - w@.len()) as int, v@.len() as int));
    r
}

/// `s` without the prefix `p`, where it has it.
pub fn strip_prefix(s: &str, p: &str) -> (r: Option<String>)
    ensures
        r is Some <==> p@.is_prefix_of(s@),
        r is Some ==> r->0@ == s@.skip(p@.len() as int),
{
    let v = chars_of(s);
    let w = chars_of(p);
    if matches_at(&v, &w, 0) {
        assert(v@.skip(w@.len() as int) =~= v@.subrange(w@.len() as int, v@.len() as int));
        Some(string_of(&v, w.len(), v.len()))
    } else {
        None
    }
}

/// A search that has not met `p` before `to` may go on from there.
proof fn lemma_find_skip(s: Seq<char>, p: Seq<char>, from: int, to: int)
    requires
        0 <= from <= to,
        forall|i: int| from <= i < to ==> !occurs_at(s, p, i),
    ensures
        find_from(s, p, from) == find_from(s, p, to),
    decreases to - from,
{
    if from < to {
        if from + p.len() <= s.len() {
            lemma_find_skip(s, p, from + 1, to);
        }
    }
}

/// The first position at or after `from` where `w` stands in `v`.
pub fn find(v: &Vec<char>, w: &Vec<char>, from: usize) -> (r: Option<usize>)
    ensures
        r is Some == find_from(v@, w@, from as int) is Some,
        r is Some ==> find_from(v@, w@, from as int) == Some(r->0 as int),
        r is Some ==> from <= r->0 && r->0 + w@.len() <= v@.len() && occurs_at(v@, w@, r->0 as int),
        r is Some ==> forall|k: int| from <= k < r->0 ==> !occurs_at(v@, w@, k),
        r is None ==> forall|k: int| from <= k ==> !occurs_at(v@, w@, k),
{
    if w.len() > v.len() {
        return None;
    }
    let last: usize = v.len() - w.len();
    let mut i: usize = from;
    while i <= last
        invariant
            from <= i <= last + 1 || i == from,
            last == v@.len() - w@.len(),
            v@.len() <= usize::MAX,
            forall|k: int| from <= k < i ==> !occurs_at(v@, w@, k),
        decreases last + 1 - i,
    {
        if matches_at(v, w, i) {
            proof {
                lemma_find_skip(v@, w@, from as int, i as int);
            }
            return Some(i);
        }
        if i == usize::MAX {
            proof {
                lemma_find_skip(v@, w@, from as int, i + 1);
            }
            return None;
        }
        i += 1;
    }
    proof {
        lemma_find_skip(v@, w@, from as int, i as int);
    }
    None
}

/// What a search from 0 finds is an occurrence, and it finds one where there is one.
pub proof fn lemma_find_occurs(s: Seq<char>, p: Seq<char>, from: int)
    requires
        0 <= from,
    ensures
        find_from(s, p, from) is Some <==> exists|i: int| from <= i && occurs_at(s, p, i),
    decreases s.len() - from + 1,
{
    if from + p.len() <= s.len() {
        if occurs_at(s, p, from) {
        } else {
            lemma_find_occurs(s, p, from + 1);
            if find_from(s, p, from) is Some {
                let i = choose|i: int| from + 1 <= i && occurs_at(s, p, i);
                assert(from <= i && occurs_at(s, p, i));
            }
            if exists|i: int| from <= i && occurs_at(s, p, i) {
                let i = choose|i: int| from <= i && occurs_at(s, p, i);
                assert(from + 1 <= i && occurs_at(s, p, i));
            }
        }
    }
}

/// Whether `p` stands somewhere in `s`.
pub fn contains(s: &str, p: &str) -> (r: bool)
    ensures
        r == occurs(s@, p@),
{
    let v = chars_of(s);
    let w = chars_of(p);
    let r = find(&v, &w, 0);
    match r {
        Some(i) => {
            assert(occurs_at(s@, p@, i as int));
            true
        },
        None => false,
    }
}

/// `s` with every occurrence of `p` replaced by `by`.
pub fn replace(s: &str, p: &str, by: &str) -> (r: String)
    requires
        p@.len() > 0,
    ensures
        r@ == replace_spec(s@, p@, by@),
{
    let v = chars_of(s);
    let w = chars_of(p);
    let mut out: String = String::new();
    let mut i: usize = 0;
    assert(v@.skip(0) =~= v@);
    assert(out@ + replace_spec(v@, w@, by@) =~= replace_spec(v@, w@, by@));
    while i < v.len()
        invariant
            i <= v@.len(),
            w@.len() > 0,
            w@ == p@,
            out@ + replace_spec(v@.skip(i as int), w@, by@) == replace_spec(v@, w@, by@),
        decreases v@.len() - i,
    {
        let ghost rest = v@.skip(i as int);
        if matches_at(&v, &w, i) {
            proof {
                assert(rest.take(w@.len() as int) =~= v@.subrange(i as int, i + w@.len()));
                assert(rest.skip(w@.len() as int) =~= v@.skip(i + w@.len()));
                assert(out@ + (by@ + replace_spec(v@.skip(i + w@.len()), w@, by@))
                    =~= (out@ + by@) + replace_spec(v@.skip(i + w@.len()), w@, by@));
            }
            out.append(by);
            i += w.len();
        } else {
            proof {
                if rest.len() >= w@.len() {
                    assert(rest.take(w@.len() as int) =~= v@.subrange(i as int, i + w@.len()));
                    assert(rest.drop_first() =~= v@.skip(i + 1));
                    assert(out@ + (seq![rest[0]] + replace_spec(v@.skip(i + 1), w@, by@))
                        =~= out@.push(v@[i as int]) + replace_spec(v@.skip(i + 1), w@, by@));
                } else {
                    assert(replace_spec(v@.skip(i + 1), w@, by@) == v@.skip(i + 1));
                    assert(out@ + rest =~= out@.push(v@[i as int]) + v@.skip(i + 1));
                }
            }
            out.push(v[i]);
            i += 1;
        }
    }
    assert(v@.skip(i as int) =~= Seq::<char>::empty());
    assert(out@ + Seq::<char>::empty() =~= out@);
    out
}

/// `s` with the ASCII letters in lower case.
pub fn to_ascii_lowercase(s: &str) -> (r: String)
    ensures
        r@ == lower_spec(s@),
{
    let v = chars_of(s);
    let mut out: String = String::new();
    for i in 0..v.len()
        invariant
            v@ == s@,
            out@ == lower_spec(s@).take(i as int),
    {
        let c = v[i];
        let d = if 'A' <= c && c <= 'Z' { ((c as u8) + 32) as char } else { c };
        out.push(d);
        assert(lower_spec(s@).take(i + 1) =~= lower_spec(s@).take(i as int).push(ascii_lower(c)));
    }
    assert(lower_spec(s@).take(s@.len() as int) =~= lower_spec(s@));
    out
}

/// `s` with the ASCII letters in upper case.
pub fn to_ascii_uppercase(s: &str) -> (r: String)
    ensures
        r@ == upper_spec(s@),
{
    let v = chars_of(s);
    let mut out: String = String::new();
    for i in 0..v.len()
        invariant
            v@ == s@,
            out@ == upper_spec(s@).take(i as int),
    {
        let c = v[i];
        let d = if 'a' <= c && c <= 'z' { ((c as u8) - 32) as char } else { c };
        out.push(d);
        assert(upper_spec(s@).take(i + 1) =~= upper_spec(s@).take(i as int).push(ascii_upper(c)));
    }
    assert(upper_spec(s@).take(s@.len() as int) =~= upper_spec(s@));
    out
}

/// The decimal numeral of `n`.
pub fn decimal_of(n: u64) -> (r: String)
    ensures
        r@ == decimal(n as nat),
    decreases n,
{
    let d = (48 + (n % 10) as u8) as char;
    if n < 10 {
        let mut s: String = String::new();
        s.push(d);
        assert(s@ =~= seq![digit_char(n as nat)]);
        s
    } else {
        let mut s = decimal_of(n / 10);
        s.push(d);
        s
    }
}

proof fn lemma_digits_value_monotone(s: Seq<char>, i: int)
    requires
        0 <= i <= s.len(),
    ensures
        digits_value(s.take(i)) <= digits_value(s),
    decreases s.len() - i,
{
    if i < s.len() {
        lemma_digits_value_monotone(s, i + 1);
        assert(s.take(i + 1).drop_last() =~= s.take(i));
    } else {
        assert(s.take(i) =~= s);
    }
}

/// The number of at most `max` that `s` writes.
pub fn parse_uint(s: &str, max: u64) -> (r: Option<u64>)
    ensures
        match parse_spec(s@, max as nat) {
            Some(n) => r == Some(n as u64) && n <= max,
            None => r is None,
        },
{
    let v = chars_of(s);
    let start: usize = if v.len() > 0 && v[0] == '+' { 1 } else { 0 };
    let ghost body = if s@.len() > 0 && s@[0] == '+' { s@.drop_first() } else { s@ };
    assert(body =~= v@.skip(start as int));
    if start == v.len() {
        return None;
    }
    let mut n: u64 = 0;
    let mut i: usize = start;
    assert(body.take(0) =~= Seq::<char>::empty());
    while i < v.len()
        invariant
            start <= i <= v@.len(),
            body == v@.skip(start as int),
            forall|k: int| 0 <= k < i - start ==> is_digit(#[trigger] body[k]),
            n == digits_value(body.take(i - start)),
            n <= max,
            body == (if s@.len() > 0 && s@[0] == '+' { s@.drop_first() } else { s@ }),
        decreases v@.len() - i,
    {
        let c = v[i];
        assert(body[i - start] == c);
        if !('0' <= c && c <= '9') {
            return None;
        }
        let d: u64 = (c as u8 - 48) as u64;
        proof {
            assert(body.take(i - start + 1).drop_last() =~= body.take(i - start));
            assert(digits_value(body.take(i - start + 1)) == 10 * n + d);
            lemma_digits_value_monotone(body, i - start + 1);
        }
        if n > (u64::MAX - d) / 10 || n * 10 + d > max {
            return None;
        }
        n = n * 10 + d;
        i += 1;
    }
    assert(body.take(i - start) =~= body);
    assert(all_digits(body));
    Some(n)
}

/// A copy of an optional text.
pub fn copy_opt(o: &Option<String>) -> (r: Option<String>)
    ensures
        opt_view(r) == opt_view(*o),
{
    match o {
        Some(s) => Some(s.clone()),
        None => None,
    }
}

/// A copy of an optional text, left out where it is empty.
pub fn copy_non_empty(o: &Option<String>) -> (r: Option<String>)
    ensures
        opt_view(r) == non_empty_spec(opt_view(*o)),
{
    match o {
        Some(s) => if s.as_str().is_empty() { None } else { Some(s.clone()) },
        None => None,
    }
}

/// The number of bytes that UTF-8 takes for `c`.
pub fn utf8_width(c: char) -> (r: usize)
    ensures
        r == encode_scalar(c as u32).len(),
        1 <= r <= 4,
{
    let u: u32 = c as u32;
    proof {
        broadcast use vstd::utf8::char_is_scalar;
        assert(vstd::utf8::is_scalar(u));
    }
    if u <= 0x7F {
        1
    } else if u <= 0x7FF {
        2
    } else if u <= 0xFFFF {
        3
    } else {
        4
    }
}

/// One character more takes its own width in bytes.
pub proof fn lemma_utf8_push(s: Seq<char>, c: char)
    ensures
        encode_utf8(s.push(c)) == encode_utf8(s) + encode_scalar(c as u32),
    decreases s.len(),
{
    if s.len() == 0 {
        assert(s.push(c).drop_first() =~= s);
        assert(encode_utf8(s.push(c)) =~= encode_scalar(c as u32) + encode_utf8(s));
        assert(encode_utf8(s) =~= Seq::<u8>::empty());
        assert(encode_utf8(s.push(c)) =~= encode_utf8(s) + encode_scalar(c as u32));
    } else {
        lemma_utf8_push(s.drop_first(), c);
        assert(s.push(c).drop_first() =~= s.drop_first().push(c));
        assert(s.push(c)[0] == s[0]);
        assert(encode_utf8(s.push(c)) =~= encode_utf8(s) + encode_scalar(c as u32));
    }
}

/// A prefix takes no more bytes than the whole.
pub proof fn lemma_utf8_prefix(s: Seq<char>, i: int)
    requires
        0 <= i <= s.len(),
    ensures
        encode_utf8(s.take(i)).len() <= encode_utf8(s).len(),
    decreases s.len() - i,
{
    if i < s.len() {
        lemma_utf8_prefix(s, i + 1);
        lemma_utf8_push(s.take(i), s[i]);
        assert(s.take(i + 1) =~= s.take(i).push(s[i]));
    } else {
        assert(s.take(i) =~= s);
    }
}

/// Two texts joined are encoded one after the other.
pub proof fn lemma_encode_concat(a: Seq<char>, b: Seq<char>)
    ensures
        encode_utf8(a + b) == encode_utf8(a) + encode_utf8(b),
    decreases a.len(),
{
    if a.len() == 0 {
        assert(a + b =~= b);
        assert(encode_utf8(a) + encode_utf8(b) =~= encode_utf8(b));
    } else {
        lemma_encode_concat(a.drop_first(), b);
        assert((a + b).drop_first() =~= a.drop_first() + b);
        assert(encode_utf8(a + b) =~= encode_utf8(a) + encode_utf8(b));
    }
}

} // verus!

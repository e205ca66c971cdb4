//! Cross-fade between the audio of consecutive sentences.
//!
//! Each sentence is synthesised on its own, so the wave form jumps where two of them meet. The
//! last `FADE_BYTES` of a sentence are held back and blended into the first `FADE_BYTES` of the
//! next one.

use vstd::prelude::*;

use crate::audio::{append_bytes, copy_range};

verus! {

/// Length of the blended stretch: 10 ms of 16 kHz 16-bit mono.
pub const FADE_BYTES: usize = 320;

/// Samples in the blended stretch.
pub const FADE_SAMPLES: usize = 160;

/// Sample weights are held in units of `1 / ONE`.
pub const ONE: u64 = 0x8000_0000;

/// First number that does not fit 24 bits.
pub const SIGNIFICAND: u64 = 0x100_0000;

/// The spacing of single-precision numbers around `x`: a power of two.
pub open spec fn spacing(x: nat) -> nat
    decreases x,
{
    if x < SIGNIFICAND {
        1
    } else {
        2 * spacing(x / 2)
    }
}

/// `num / den` rounded to 24 significant bits, halves to even.
pub open spec fn round_ratio(num: nat, den: nat) -> nat {
    let step = den * spacing(num / den);
    let q = num / step;
    let r = num % step;
    if 2 * r < step || (2 * r == step && q % 2 == 0) {
        q * spacing(num / den)
    } else {
        (q + 1) * spacing(num / den)
    }
}

/// `x` rounded to 24 significant bits, halves to even; the sign is kept.
pub open spec fn round_single(x: int) -> int {
    if x < 0 {
        -(round_ratio((-x) as nat, 1) as int)
    } else {
        round_ratio(x as nat, 1) as int
    }
}

/// The weight of the incoming sample `i` of `n`, in single precision: `(i + 1) / (n + 1)`.
pub open spec fn weight_in(i: int, n: int) -> int {
    round_ratio(((i + 1) * ONE) as nat, (n + 1) as nat) as int
}

/// The blend of sample `a` into sample `b` at place `i` of `n`, computed in single precision and
/// cut to an integer.
pub open spec fn blend(a: int, b: int, i: int, n: int) -> int {
    let t = weight_in(i, n);
    let u = round_single(ONE - t);
    let sum = round_single(round_single(a * u) + round_single(b * t));
    let cut = if sum < 0 { -((-sum) / (ONE as int)) } else { sum / (ONE as int) };
    if cut > 32767 {
        32767
    } else if cut < -32768 {
        -32768
    } else {
        cut
    }
}

/// The signed 16-bit sample whose bytes, least significant first, are `lo` and `hi`.
pub open spec fn sample_of(lo: u8, hi: u8) -> int {
    let v = lo + 256 * hi;
    if v >= 32768 {
        v - 65536
    } else {
        v
    }
}

/// The `j`-th byte of the signed 16-bit sample `v`.
pub open spec fn sample_byte(v: int, j: int) -> u8 {
    let w = if v < 0 { v + 65536 } else { v };
    if j == 0 {
        (w % 256) as u8
    } else {
        (w / 256) as u8
    }
}

/// The sample at place `i` of the PCM bytes `s`.
pub open spec fn sample_at(s: Seq<u8>, i: int) -> int {
    sample_of(s[2 * i], s[2 * i + 1])
}

/// `a` fading out while `b` fades in, over the whole samples of `a`.
pub open spec fn crossfade_spec(a: Seq<u8>, b: Seq<u8>) -> Seq<u8> {
    let n = (a.len() / 2) as int;
    Seq::new(
        (2 * n) as nat,
        |j: int| sample_byte(blend(sample_at(a, j / 2), sample_at(b, j / 2), j / 2, n), j % 2),
    )
}

fn spacing_of(x: u64) -> (r: u64)
    ensures
        r == spacing(x as nat),
        r >= 1,
        x >= 1 ==> r <= x,
    decreases x,
{
    if x < SIGNIFICAND {
        1
    } else {
        let s = spacing_of(x / 2);
        2 * s
    }
}

fn round_ratio_of(num: u64, den: u64) -> (r: u64)
    requires
        den > 0,
        num <= 0x10_0000_0000_0000,
        den <= 0x1000,
    ensures
        r == round_ratio(num as nat, den as nat),
        r <= 2 * (num / den) + 1,
{
    let s = spacing_of(num / den);
    let w: u64 = num / den;
    assert(den * s <= 0x4000_0000_0000_0000 && den * s > 0 && den * s <= num + den) by (nonlinear_arith)
        requires
            w == num / den,
            w >= 1 ==> s <= w,
            w == 0 ==> s == 1,
            s >= 1,
            den > 0,
            num <= 0x10_0000_0000_0000,
            den <= 0x1000,
    ;
    proof {
        if w == 0 {
            assert(spacing(0) == 1);
        }
    }
    let step: u64 = den * s;
    let q: u64 = num / step;
    let r: u64 = num % step;
    proof {
        vstd::arithmetic::div_mod::lemma_div_denominator(num as int, den as int, s as int);
        assert(num as int / (den * s) == (num as int / den as int) / (s as int));
        assert(q * s <= w) by {
            vstd::arithmetic::div_mod::lemma_fundamental_div_mod(w as int, s as int);
            assert(q == w / s);
            assert(s * (w / s) + w % s == w);
            assert(q * s == s * (w / s)) by (nonlinear_arith)
                requires
                    q == w / s,
            ;
        }
        assert((q + 1) * s == q * s + s) by (nonlinear_arith);
    }
    if r < step - r || (r == step - r && q % 2 == 0) {
        q * s
    } else {
        (q + 1) * s
    }
}

fn round_single_of(x: i64) -> (r: i64)
    requires
        -0x10_0000_0000_0000 <= x <= 0x10_0000_0000_0000,
    ensures
        r == round_single(x as int),
        x >= 0 ==> 0 <= r <= 2 * x + 1,
        x < 0 ==> 2 * x - 1 <= r <= 0,
{
    if x < 0 {
        let m = round_ratio_of((-x) as u64, 1);
        -(m as i64)
    } else {
        round_ratio_of(x as u64, 1) as i64
    }
}

fn blend_of(a: i64, b: i64, i: usize, n: usize) -> (r: i64)
    requires
        -32768 <= a <= 32767,
        -32768 <= b <= 32767,
        i < n <= FADE_SAMPLES,
    ensures
        r == blend(a as int, b as int, i as int, n as int),
        -32768 <= r <= 32767,
{
    let num: u64 = (i as u64 + 1) * ONE;
    let den: u64 = n as u64 + 1;
    assert(num / den <= ONE) by (nonlinear_arith)
        requires
            num == (i + 1) * ONE,
            den == n + 1,
            i < n,
    ;
    assert((i + 1) * ONE <= 0x1_0000_0000_0000) by (nonlinear_arith)
        requires
            i < 160,
            ONE == 0x8000_0000,
    ;
    let t: i64 = round_ratio_of(num, den) as i64;
    assert(0 <= t <= 2 * ONE + 1);
    let u: i64 = round_single_of(ONE as i64 - t);
    assert(-0x1_8000_0000 <= u <= 0x1_8000_0000);
    assert(-0x1_0000_0000_0000 <= a * u <= 0x1_0000_0000_0000) by (nonlinear_arith)
        requires
            -32768 <= a <= 32767,
            -0x1_8000_0000 <= u <= 0x1_8000_0000,
    ;
    assert(-0x1_0000_0000_0000 <= b * t <= 0x1_0000_0000_0000) by (nonlinear_arith)
        requires
            -32768 <= b <= 32767,
            0 <= t <= 0x1_0000_0001,
    ;
    let p: i64 = round_single_of(a * u);
    let q: i64 = round_single_of(b * t);
    let sum: i64 = round_single_of(p + q);
    let cut: i64 = if sum < 0 { -((-sum) / ONE as i64) } else { sum / ONE as i64 };
    if cut > 32767 {
        32767
    } else if cut < -32768 {
        -32768
    } else {
        cut
    }
}

/// The sample at place `i` of the PCM bytes `s`.
fn read_sample(s: &[u8], i: usize) -> (r: i64)
    requires
        2 * i + 1 < s@.len(),
    ensures
        r == sample_at(s@, i as int),
        -32768 <= r <= 32767,
{
    let n: usize = s.len();
    assert(2 * i + 1 < n);
    let v: i64 = s[2 * i] as i64 + 256 * (s[2 * i + 1] as i64);
    if v >= 32768 {
        v - 65536
    } else {
        v
    }
}

/// Blends two stretches of signed 16-bit PCM: `a` fades out while `b` fades in.
pub fn crossfade(a: &[u8], b: &[u8]) -> (out: Vec<u8>)
    requires
        a@.len() <= b@.len(),
        a@.len() <= FADE_BYTES + 1,
    ensures
        out@ == crossfade_spec(a@, b@),
{
    let n: usize = a.len() / 2;
    let mut out: Vec<u8> = Vec::new();
    let mut i: usize = 0;
    while i < n
        invariant
            i <= n,
            n == a@.len() / 2,
            n <= FADE_SAMPLES,
            a@.len() <= b@.len(),
            out@ == crossfade_spec(a@, b@).take(2 * i),
        decreases n - i,
    {
        let v: i64 = blend_of(read_sample(a, i), read_sample(b, i), i, n);
        let w: i64 = if v < 0 { v + 65536 } else { v };
        out.push((w % 256) as u8);
        out.push((w / 256) as u8);
        proof {
            let c = crossfade_spec(a@, b@);
            assert((2 * i) / 2 == i && (2 * i) % 2 == 0 && (2 * i + 1) / 2 == i && (2 * i + 1) % 2 == 1);
            assert(c[2 * i] == sample_byte(v as int, 0));
            assert(c[2 * i + 1] == sample_byte(v as int, 1));
            assert(c.take(2 * (i + 1)) =~= c.take(2 * i).push(c[2 * i]).push(c[2 * i + 1]));
        }
        i += 1;
    }
    assert(crossfade_spec(a@, b@).take(2 * n) =~= crossfade_spec(a@, b@));
    out
}

/// What a cross-fader holds.
pub ghost struct FaderState {
    /// End of the previous sentence, not sent yet.
    pub tail: Seq<u8>,
    /// Start of the current sentence, until there is enough of it to blend.
    pub head: Seq<u8>,
    /// Most recent bytes of the current sentence, not sent yet.
    pub hold: Seq<u8>,
    /// Whether the start of the current sentence is past blending.
    pub head_done: bool,
}

/// Sizes that every operation keeps.
pub open spec fn fader_wf(s: FaderState) -> bool {
    &&& s.tail.len() <= FADE_BYTES
    &&& s.head.len() < FADE_BYTES
    &&& s.hold.len() <= FADE_BYTES
}

/// A sentence starts: what was left of the one before is dropped, and a start is blended only
/// where there is a tail to blend it with.
pub open spec fn begin_spec(s: FaderState) -> FaderState {
    FaderState {
        tail: s.tail,
        head: Seq::empty(),
        hold: Seq::empty(),
        head_done: s.tail.len() == 0,
    }
}

/// The last `FADE_BYTES` of `pool` stay, what is before them goes out.
pub open spec fn excess(pool: Seq<u8>) -> int {
    if pool.len() > FADE_BYTES {
        pool.len() - FADE_BYTES
    } else {
        0
    }
}

/// The whole samples that both `a` and `b` have.
pub open spec fn overlap(a: Seq<u8>, b: Seq<u8>) -> int {
    let n = if a.len() < b.len() { a.len() as int } else { b.len() as int };
    n - n % 2
}

/// The start of a sentence blended with the end of the one before: the samples that both have are
/// blended, the rest of the start follows as it is.
pub open spec fn blended(tail: Seq<u8>, head: Seq<u8>) -> Seq<u8> {
    let n = overlap(tail, head);
    crossfade_spec(tail.take(n), head.take(n)) + head.skip(n)
}

/// Audio of the current sentence arrives: the state after it, and what goes out. Once its start is
/// there it is blended over the tail of the sentence before, as long as that is.
pub open spec fn feed_spec(s: FaderState, bytes: Seq<u8>) -> (FaderState, Seq<u8>) {
    let start = s.head + bytes;
    if s.head_done {
        let pool = s.hold + bytes;
        (
            FaderState { hold: pool.skip(excess(pool)), ..s },
            pool.take(excess(pool)),
        )
    } else if start.len() < FADE_BYTES {
        (FaderState { head: start, ..s }, Seq::empty())
    } else {
        let pool = s.hold + start.skip(FADE_BYTES as int);
        (
            FaderState {
                tail: Seq::empty(),
                head: Seq::empty(),
                hold: pool.skip(excess(pool)),
                head_done: true,
            },
            crossfade_spec(s.tail, start.take(FADE_BYTES as int)) + pool.take(excess(pool)),
        )
    }
}

/// The current sentence ends. One that never filled the blended stretch is blended over what
/// it has and goes out at once.
pub open spec fn end_spec(s: FaderState) -> (FaderState, Seq<u8>) {
    if s.head_done {
        (FaderState { tail: s.hold, hold: Seq::empty(), ..s }, Seq::empty())
    } else {
        (
            FaderState { tail: Seq::empty(), head: Seq::empty(), head_done: true, ..s },
            blended(s.tail, s.head),
        )
    }
}

/// The stream ends: everything that is held goes out.
pub open spec fn finish_spec(s: FaderState) -> (FaderState, Seq<u8>) {
    (
        FaderState { tail: Seq::empty(), head: Seq::empty(), hold: Seq::empty(), ..s },
        s.tail + s.hold + s.head,
    )
}

/// The start of a sentence blended with the end of the one before.
fn blend_ends(tail: &Vec<u8>, head: &Vec<u8>) -> (out: Vec<u8>)
    requires
        tail@.len() <= FADE_BYTES,
    ensures
        out@ == blended(tail@, head@),
{
    let m: usize = if tail.len() < head.len() { tail.len() } else { head.len() };
    let n: usize = m - m % 2;
    let mut out = crossfade(
        vstd::slice::slice_subrange(tail.as_slice(), 0, n),
        vstd::slice::slice_subrange(head.as_slice(), 0, n),
    );
    append_bytes(&mut out, vstd::slice::slice_subrange(head.as_slice(), n, head.len()));
    proof {
        assert(tail@.take(n as int) =~= tail@.subrange(0, n as int));
        assert(head@.take(n as int) =~= head@.subrange(0, n as int));
        assert(head@.skip(n as int) =~= head@.subrange(n as int, head@.len() as int));
    }
    out
}

/// Cross-fades sentence after sentence: `begin_sentence`, any number of `feed`, `end_sentence`;
/// `finish` after the last one.
pub struct SentenceCrossfader {
    tail: Vec<u8>,
    head: Vec<u8>,
    hold: Vec<u8>,
    head_done: bool,
}

impl View for SentenceCrossfader {
    type V = FaderState;

    closed spec fn view(&self) -> FaderState {
        FaderState {
            tail: self.tail@,
            head: self.head@,
            hold: self.hold@,
            head_done: self.head_done,
        }
    }
}

impl Default for SentenceCrossfader {
    fn default() -> (r: Self)
        ensures
            r.wf(),
            r@ == (FaderState {
                tail: Seq::empty(),
                head: Seq::empty(),
                hold: Seq::empty(),
                head_done: false,
            }),
    {
        SentenceCrossfader { tail: Vec::new(), head: Vec::new(), hold: Vec::new(), head_done: false }
    }
}

impl SentenceCrossfader {
    pub open spec fn wf(&self) -> bool {
        fader_wf(self@)
    }

    /// Starts a sentence.
    pub fn begin_sentence(&mut self)
        requires
            old(self).wf(),
        ensures
            final(self).wf(),
            final(self)@ == begin_spec(old(self)@),
    {
        self.head.clear();
        self.hold.clear();
        self.head_done = self.tail.len() == 0;
    }

    /// Takes audio of the current sentence and returns what can be sent now.
    pub fn feed(&mut self, bytes: &[u8]) -> (out: Vec<u8>)
        requires
            old(self).wf(),
        ensures
            final(self).wf(),
            final(self)@ == feed_spec(old(self)@, bytes@).0,
            out@ == feed_spec(old(self)@, bytes@).1,
    {
        let ghost before = self@;
        let mut out: Vec<u8> = Vec::new();
        let mut used: usize = 0;
        if !self.head_done {
            let need: usize = FADE_BYTES - self.head.len();
            used = if need < bytes.len() { need } else { bytes.len() };
            append_bytes(&mut self.head, vstd::slice::slice_subrange(bytes, 0, used));
            proof {
                let start = before.head + bytes@;
                if start.len() < FADE_BYTES {
                    assert(bytes@.subrange(0, used as int) =~= bytes@);
                } else {
                    assert(self.head@ =~= start.take(FADE_BYTES as int));
                    assert(bytes@.skip(used as int) =~= start.skip(FADE_BYTES as int));
                }
            }
            if self.head.len() < FADE_BYTES {
                return out;
            }
            out = crossfade(self.tail.as_slice(), self.head.as_slice());
            self.tail.clear();
            self.head.clear();
            self.head_done = true;
        }
        let ghost lead = out@;
        append_bytes(&mut self.hold, vstd::slice::slice_subrange(bytes, used, bytes.len()));
        let ghost pool = self.hold@;
        proof {
            assert(bytes@.subrange(used as int, bytes@.len() as int) =~= bytes@.skip(used as int));
            if before.head_done {
                assert(bytes@.skip(0) =~= bytes@);
            }
        }
        if self.hold.len() > FADE_BYTES {
            let emit: usize = self.hold.len() - FADE_BYTES;
            append_bytes(&mut out, vstd::slice::slice_subrange(self.hold.as_slice(), 0, emit));
            self.hold = copy_range(self.hold.as_slice(), emit, self.hold.len());
            assert(pool.take(emit as int) =~= pool.subrange(0, emit as int));
            assert(pool.skip(emit as int) =~= pool.subrange(emit as int, pool.len() as int));
        } else {
            assert(pool.take(0) =~= Seq::<u8>::empty());
            assert(pool.skip(0) =~= pool);
        }
        assert(out@ =~= lead + pool.take(excess(pool)));
        out
    }

    /// Ends the current sentence and returns what can be sent now.
    pub fn end_sentence(&mut self) -> (out: Vec<u8>)
        requires
            old(self).wf(),
        ensures
            final(self).wf(),
            final(self)@ == end_spec(old(self)@).0,
            out@ == end_spec(old(self)@).1,
    {
        if self.head_done {
            let mut held: Vec<u8> = Vec::new();
            core::mem::swap(&mut self.hold, &mut held);
            self.tail = held;
            Vec::new()
        } else {
            let out = blend_ends(&self.tail, &self.head);
            self.tail.clear();
            self.head.clear();
            self.head_done = true;
            out
        }
    }

    /// Ends the stream and returns everything that is still held.
    pub fn finish(&mut self) -> (out: Vec<u8>)
        requires
            old(self).wf(),
        ensures
            final(self).wf(),
            final(self)@ == finish_spec(old(self)@).0,
            out@ == finish_spec(old(self)@).1,
    {
        let mut out: Vec<u8> = Vec::new();
        out.append(&mut self.tail);
        out.append(&mut self.hold);
        out.append(&mut self.head);
        assert(out@ =~= old(self)@.tail + old(self)@.hold + old(self)@.head);
        out
    }
}

/// How the audio of a sentence is cut into pieces does not matter: feeding two pieces sends the
/// same bytes and leaves the same state as feeding them joined.
pub proof fn law_feed_splits(s: FaderState, x: Seq<u8>, y: Seq<u8>)
    requires
        fader_wf(s),
    ensures
        feed_spec(feed_spec(s, x).0, y).0 == feed_spec(s, x + y).0,
        feed_spec(s, x).1 + feed_spec(feed_spec(s, x).0, y).1 == feed_spec(s, x + y).1,
{
    let (m, o1) = feed_spec(s, x);
    let (e, o2) = feed_spec(m, y);
    let (f, o) = feed_spec(s, x + y);
    if s.head_done {
        let p1 = s.hold + x;
        let p2 = m.hold + y;
        let p = s.hold + (x + y);
        assert(p =~= p1 + y);
        assert(e.hold =~= f.hold);
        assert(o1 + o2 =~= o);
    } else {
        let st = s.head + x;
        assert(s.head + (x + y) =~= st + y);
        if st.len() < FADE_BYTES {
            assert(o1 + o2 =~= o2);
        } else {
            let whole = st + y;
            assert(whole.take(FADE_BYTES as int) =~= st.take(FADE_BYTES as int));
            assert(whole.skip(FADE_BYTES as int) =~= st.skip(FADE_BYTES as int) + y);
            let p1 = s.hold + st.skip(FADE_BYTES as int);
            let p = s.hold + whole.skip(FADE_BYTES as int);
            assert(p =~= p1 + y);
            assert(e.hold =~= f.hold);
            assert(o1 + o2 =~= o);
        }
    }
}

/// A single sentence comes out unchanged: nothing is lost, added or blended.
pub proof fn law_single_sentence_is_unchanged(s: FaderState, x: Seq<u8>)
    requires
        fader_wf(s),
        s.tail.len() == 0,
    ensures
        ({
            let fed = feed_spec(begin_spec(s), x);
            let ended = end_spec(fed.0);
            let done = finish_spec(ended.0);
            fed.1 + ended.1 + done.1 == x
        }),
{
    let b = begin_spec(s);
    let pool = b.hold + x;
    assert(pool =~= x);
    let fed = feed_spec(b, x);
    let ended = end_spec(fed.0);
    let done = finish_spec(ended.0);
    assert(fed.1 + ended.1 + done.1 =~= x);
}

/// Nothing of a sentence is lost where the one before left a full tail or none, or where the
/// sentence itself is shorter than the blended stretch: what goes out for it and what is kept of it
/// are as many bytes as it has.
pub proof fn law_no_sentence_is_cut(s: FaderState, x: Seq<u8>)
    requires
        fader_wf(s),
        s.tail.len() == 0 || s.tail.len() == FADE_BYTES || x.len() < FADE_BYTES,
    ensures
        ({
            let fed = feed_spec(begin_spec(s), x);
            let ended = end_spec(fed.0);
            fed.1.len() + ended.1.len() + ended.0.tail.len() == x.len()
        }),
{
    let b = begin_spec(s);
    assert(b.head + x =~= x);
    assert(b.hold + x =~= x);
    let pool = b.hold + x.skip(FADE_BYTES as int);
    if x.len() >= FADE_BYTES {
        assert(pool =~= x.skip(FADE_BYTES as int));
    }
}

/// What a cross-fader holds and has sent after some sentences.
pub open spec fn faded(xs: Seq<Seq<u8>>) -> (FaderState, Seq<u8>)
    decreases xs.len(),
{
    if xs.len() == 0 {
        (
            FaderState {
                tail: Seq::empty(),
                head: Seq::empty(),
                hold: Seq::empty(),
                head_done: false,
            },
            Seq::empty(),
        )
    } else {
        let (s, sent) = faded(xs.drop_last());
        let fed = feed_spec(begin_spec(s), xs.last());
        let ended = end_spec(fed.0);
        (ended.0, sent + fed.1 + ended.1)
    }
}

/// Everything that is sent for some sentences.
pub open spec fn faded_stream(xs: Seq<Seq<u8>>) -> Seq<u8> {
    faded(xs).1 + finish_spec(faded(xs).0).1
}

/// The sentences put together: the last `FADE_BYTES` of what there is are blended with the start of
/// the next.
pub open spec fn overlapped(xs: Seq<Seq<u8>>) -> Seq<u8>
    decreases xs.len(),
{
    if xs.len() == 0 {
        Seq::empty()
    } else if xs.len() == 1 {
        xs[0]
    } else {
        let before = overlapped(xs.drop_last());
        let n = before.len() - FADE_BYTES;
        before.take(n) + crossfade_spec(before.skip(n), xs.last().take(FADE_BYTES as int))
            + xs.last().skip(FADE_BYTES as int)
    }
}

/// How many bytes some sentences have.
pub open spec fn total_len(xs: Seq<Seq<u8>>) -> int
    decreases xs.len(),
{
    if xs.len() == 0 {
        0
    } else {
        total_len(xs.drop_last()) + xs.last().len()
    }
}

/// Each sentence is followed by another that it can be blended into.
pub open spec fn all_full(xs: Seq<Seq<u8>>) -> bool {
    forall|i: int|
        0 <= i < xs.len() ==> (#[trigger] xs[i]).len() >= (if i == 0 {
            FADE_BYTES as int
        } else {
            2 * FADE_BYTES
        })
}

/// The sentences fill every stretch where one is blended into the next.
pub open spec fn all_blend(xs: Seq<Seq<u8>>) -> bool {
    xs.len() > 0 ==> all_full(xs.drop_last()) && (xs.len() > 1 ==> xs.last().len() >= FADE_BYTES)
}

/// What the next sentence does to what there is.
proof fn lemma_faded_next(xs: Seq<Seq<u8>>)
    requires
        xs.len() > 0,
        ({
            let before = xs.drop_last();
            let (s, sent) = faded(before);
            let whole = overlapped(before);
            &&& s.head.len() == 0 && s.hold.len() == 0
            &&& sent + s.tail == whole
            &&& before.len() > 0 ==> s.tail.len() == FADE_BYTES && xs.last().len() >= FADE_BYTES
            &&& before.len() == 0 ==> s.tail.len() == 0
        }),
    ensures
        ({
            let (s, sent) = faded(xs);
            let n = xs.last().len();
            &&& s.head.len() == 0 && s.hold.len() == 0
            &&& sent + s.tail == overlapped(xs)
            &&& overlapped(xs).len() == overlapped(xs.drop_last()).len() + n - (if xs.len() > 1 {
                FADE_BYTES as int
            } else {
                0
            })
            &&& n >= (if xs.len() == 1 { FADE_BYTES as int } else { 2 * FADE_BYTES })
                ==> s.tail.len() == FADE_BYTES
        }),
{
    let before = xs.drop_last();
    let y = xs.last();
    let (s, sent) = faded(before);
    let b = begin_spec(s);
    let fed = feed_spec(b, y);
    let ended = end_spec(fed.0);
    assert(b.hold + y =~= y);
    assert(b.head + y =~= y);
    if before.len() == 0 {
        assert(sent =~= Seq::<u8>::empty());
        assert(sent + fed.1 + ended.1 + ended.0.tail =~= y);
        assert(overlapped(xs) == y);
    } else {
        let rest = y.skip(FADE_BYTES as int);
        assert(b.hold + rest =~= rest);
        let whole = overlapped(before);
        let n = whole.len() - FADE_BYTES;
        assert(whole.take(n) =~= sent);
        assert(whole.skip(n) =~= s.tail);
        assert(rest.take(excess(rest)) + rest.skip(excess(rest)) =~= rest);
        assert(sent + fed.1 + ended.1 + ended.0.tail =~= overlapped(xs));
    }
}

proof fn lemma_faded(xs: Seq<Seq<u8>>)
    requires
        all_full(xs),
    ensures
        ({
            let (s, sent) = faded(xs);
            let whole = overlapped(xs);
            &&& s.head.len() == 0 && s.hold.len() == 0
            &&& sent + s.tail == whole
            &&& xs.len() > 0 ==> s.tail.len() == FADE_BYTES && whole.len() == total_len(xs)
                - FADE_BYTES * (xs.len() - 1)
            &&& xs.len() == 0 ==> s.tail.len() == 0
        }),
    decreases xs.len(),
{
    if xs.len() > 0 {
        let before = xs.drop_last();
        assert forall|i: int| 0 <= i < before.len() implies (#[trigger] before[i]).len() >= (if i
            == 0 {
            FADE_BYTES as int
        } else {
            2 * FADE_BYTES
        }) by {
            assert(before[i] == xs[i]);
        }
        lemma_faded(before);
        assert(xs.last() == xs[xs.len() - 1]);
        lemma_faded_next(xs);
        assert(before.len() == 0 ==> overlapped(before).len() == 0 && total_len(before) == 0);
    } else {
        let (s, sent) = faded(xs);
        assert(sent + s.tail =~= overlapped(xs));
    }
}

/// Any number of sentences that fill every stretch where one is blended into the next come out as
/// they are but for those stretches, each of which two of them share.
pub proof fn law_sentences_overlap(xs: Seq<Seq<u8>>)
    requires
        all_blend(xs),
    ensures
        faded_stream(xs) == overlapped(xs),
        xs.len() > 0 ==> faded_stream(xs).len() == total_len(xs) - FADE_BYTES * (xs.len() - 1),
{
    let (s, sent) = faded(xs);
    if xs.len() > 0 {
        let before = xs.drop_last();
        lemma_faded(before);
        lemma_faded_next(xs);
        assert(before.len() == 0 ==> overlapped(before).len() == 0 && total_len(before) == 0);
    } else {
        assert(sent + s.tail =~= overlapped(xs));
    }
    assert(sent + (s.tail + s.hold + s.head) =~= sent + s.tail);
}

/// Two sentences that both fill the blended stretch come out shorter by exactly that stretch:
/// the first up to its last `FADE_BYTES`, the blend, then the rest of the second.
pub proof fn law_two_sentences_overlap(x: Seq<u8>, y: Seq<u8>)
    requires
        x.len() >= FADE_BYTES,
        y.len() >= FADE_BYTES,
    ensures
        ({
            let s0 = FaderState {
                tail: Seq::empty(),
                head: Seq::empty(),
                hold: Seq::empty(),
                head_done: false,
            };
            let f1 = feed_spec(begin_spec(s0), x);
            let e1 = end_spec(f1.0);
            let f2 = feed_spec(begin_spec(e1.0), y);
            let e2 = end_spec(f2.0);
            let done = finish_spec(e2.0);
            &&& f1.1 + e1.1 + f2.1 + e2.1 + done.1 == x.take(x.len() - FADE_BYTES) + crossfade_spec(
                x.skip(x.len() - FADE_BYTES),
                y.take(FADE_BYTES as int),
            ) + y.skip(FADE_BYTES as int)
            &&& (f1.1 + e1.1 + f2.1 + e2.1 + done.1).len() == x.len() + y.len() - FADE_BYTES
        }),
{
    let s0 = FaderState {
        tail: Seq::empty(),
        head: Seq::empty(),
        hold: Seq::empty(),
        head_done: false,
    };
    let b1 = begin_spec(s0);
    assert(b1.hold + x =~= x);
    let f1 = feed_spec(b1, x);
    let e1 = end_spec(f1.0);
    let b2 = begin_spec(e1.0);
    assert(b2.tail == x.skip(x.len() - FADE_BYTES));
    assert(b2.head + y =~= y);
    let pool = y.skip(FADE_BYTES as int);
    assert(b2.hold + pool =~= pool);
    let f2 = feed_spec(b2, y);
    let e2 = end_spec(f2.0);
    let done = finish_spec(e2.0);
    assert(pool.take(excess(pool)) + pool.skip(excess(pool)) =~= pool);
    assert(f1.1 + e1.1 + f2.1 + e2.1 + done.1 =~= x.take(x.len() - FADE_BYTES) + crossfade_spec(
        x.skip(x.len() - FADE_BYTES),
        y.take(FADE_BYTES as int),
    ) + y.skip(FADE_BYTES as int));
}

} // verus!

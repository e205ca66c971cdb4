//! RIFF/WAVE framing of raw 16-bit PCM.

use vstd::prelude::*;

verus! {

/// Sample rate that uploaded audio is taken to have.
pub const UPLOAD_SAMPLE_RATE: u32 = 16000;

/// Length of the header that `wrap_pcm_as_wav` writes.
pub const WAV_HEADER_LEN: usize = 44;

/// The two bytes of `x`, least significant first.
pub open spec fn le16(x: int) -> Seq<u8> {
    seq![(x % 256) as u8, ((x / 256) % 256) as u8]
}

/// The four bytes of `x`, least significant first.
pub open spec fn le32(x: int) -> Seq<u8> {
    seq![
        (x % 256) as u8,
        ((x / 256) % 256) as u8,
        ((x / 65536) % 256) as u8,
        ((x / 16777216) % 256) as u8,
    ]
}

/// The number whose four bytes, least significant first, stand at `at`.
pub open spec fn le32_at(bytes: Seq<u8>, at: int) -> int {
    bytes[at] + 256 * bytes[at + 1] + 65536 * bytes[at + 2] + 16777216 * bytes[at + 3]
}

pub open spec fn tag(a: u8, b: u8, c: u8, d: u8) -> Seq<u8> {
    seq![a, b, c, d]
}

pub open spec fn tag_riff() -> Seq<u8> {
    tag(0x52, 0x49, 0x46, 0x46)
}

pub open spec fn tag_wave() -> Seq<u8> {
    tag(0x57, 0x41, 0x56, 0x45)
}

pub open spec fn tag_fmt() -> Seq<u8> {
    tag(0x66, 0x6D, 0x74, 0x20)
}

pub open spec fn tag_data() -> Seq<u8> {
    tag(0x64, 0x61, 0x74, 0x61)
}

/// The 44-byte header in front of `data_len` bytes of 16-bit PCM.
#[verifier::opaque]
pub open spec fn wav_header(data_len: int, sample_rate: int, channels: int) -> Seq<u8> {
    tag_riff() + le32(36 + data_len) + tag_wave() + tag_fmt() + le32(16) + le16(1) + le16(channels)
        + le32(sample_rate) + le32(sample_rate * channels * 2) + le16(channels * 2) + le16(16)
        + tag_data() + le32(data_len)
}

/// The length field of a data chunk is 32 bits wide.
pub open spec fn length_field(len: nat) -> int {
    len as int % 0x1_0000_0000
}

/// The whole file: the header and the samples.
pub open spec fn wav_spec(pcm: Seq<u8>, sample_rate: int, channels: int) -> Seq<u8> {
    wav_header(length_field(pcm.len()), sample_rate, channels) + pcm
}

/// What the fields of a header can hold.
pub open spec fn wav_fits(len: nat, sample_rate: u32, channels: u16) -> bool {
    &&& 36 + length_field(len) <= u32::MAX
    &&& sample_rate * channels * 2 <= u32::MAX
    &&& channels * 2 <= u16::MAX
}

/// Offset and size of the first data chunk met when the chunks are walked from `pos` on.
pub open spec fn data_chunk_from(bytes: Seq<u8>, pos: int) -> Option<(int, int)>
    decreases bytes.len() - pos,
{
    if pos < 0 || pos + 8 > bytes.len() {
        None
    } else {
        let size = le32_at(bytes, pos + 4);
        if bytes.subrange(pos, pos + 4) == tag_data() {
            let room = bytes.len() - (pos + 8);
            Some((pos + 8, if size < room { size } else { room }))
        } else if pos + 8 + size + size % 2 > bytes.len() {
            None
        } else {
            data_chunk_from(bytes, pos + 8 + size + size % 2)
        }
    }
}

/// Offset and size of the data chunk of a RIFF/WAVE file.
pub open spec fn wav_data_spec(bytes: Seq<u8>) -> Option<(int, int)> {
    if bytes.len() < 12 || bytes.subrange(0, 4) != tag_riff() || bytes.subrange(8, 12) != tag_wave() {
        None
    } else {
        data_chunk_from(bytes, 12)
    }
}

/// The samples of an upload: the data chunk of a WAV file, everything otherwise.
pub open spec fn upload_pcm(bytes: Seq<u8>) -> Seq<u8> {
    match wav_data_spec(bytes) {
        Some((off, size)) => bytes.subrange(off, off + size),
        None => bytes,
    }
}

fn push_le16(out: &mut Vec<u8>, x: u16)
    ensures
        final(out)@ == old(out)@ + le16(x as int),
{
    out.push((x % 256) as u8);
    out.push((x / 256) as u8);
    assert(out@ =~= old(out)@ + le16(x as int));
}

fn push_le32(out: &mut Vec<u8>, x: u32)
    ensures
        final(out)@ == old(out)@ + le32(x as int),
{
    out.push((x % 256) as u8);
    out.push((x / 256 % 256) as u8);
    out.push((x / 65536 % 256) as u8);
    out.push((x / 16777216) as u8);
    assert(out@ =~= old(out)@ + le32(x as int));
}

fn push_tag(out: &mut Vec<u8>, a: u8, b: u8, c: u8, d: u8)
    ensures
        final(out)@ == old(out)@ + tag(a, b, c, d),
{
    out.push(a);
    out.push(b);
    out.push(c);
    out.push(d);
    assert(out@ =~= old(out)@ + tag(a, b, c, d));
}

/// Appends `bytes` to `out`.
pub fn append_bytes(out: &mut Vec<u8>, bytes: &[u8])
    ensures
        final(out)@ == old(out)@ + bytes@,
{
    out.extend_from_slice(bytes);
    assert(out@ =~= old(out)@ + bytes@);
}

/// A copy of `bytes[from..to]`.
pub fn copy_range(bytes: &[u8], from: usize, to: usize) -> (r: Vec<u8>)
    requires
        from <= to <= bytes@.len(),
    ensures
        r@ == bytes@.subrange(from as int, to as int),
{
    vstd::slice::slice_to_vec(vstd::slice::slice_subrange(bytes, from, to))
}

/// Puts a 44-byte RIFF/WAVE header in front of raw 16-bit PCM.
pub fn wrap_pcm_as_wav(pcm: &[u8], sample_rate: u32, channels: u16) -> (out: Vec<u8>)
    requires
        wav_fits(pcm@.len(), sample_rate, channels),
    ensures
        out@ == wav_spec(pcm@, sample_rate as int, channels as int),
        out@.len() == WAV_HEADER_LEN + pcm@.len(),
{
    let data_len: u32 = (pcm.len() as u64 % 0x1_0000_0000) as u32;
    assert(sample_rate * channels <= sample_rate * channels * 2) by (nonlinear_arith);
    let byte_rate: u32 = sample_rate * (channels as u32) * 2;
    let mut out: Vec<u8> = Vec::new();
    push_tag(&mut out, 0x52, 0x49, 0x46, 0x46);
    push_le32(&mut out, 36 + data_len);
    push_tag(&mut out, 0x57, 0x41, 0x56, 0x45);
    push_tag(&mut out, 0x66, 0x6D, 0x74, 0x20);
    push_le32(&mut out, 16);
    push_le16(&mut out, 1);
    push_le16(&mut out, channels);
    push_le32(&mut out, sample_rate);
    push_le32(&mut out, byte_rate);
    push_le16(&mut out, channels * 2);
    push_le16(&mut out, 16);
    push_tag(&mut out, 0x64, 0x61, 0x74, 0x61);
    push_le32(&mut out, data_len);
    reveal(wav_header);
    assert(out@ =~= wav_header(data_len as int, sample_rate as int, channels as int));
    append_bytes(&mut out, pcm);
    out
}

/// Whether the four bytes at `at` are `a b c d`.
fn has_tag(bytes: &[u8], at: usize, a: u8, b: u8, c: u8, d: u8) -> (r: bool)
    requires
        at + 4 <= bytes@.len(),
    ensures
        r == (bytes@.subrange(at as int, at + 4) == tag(a, b, c, d)),
{
    let n: usize = bytes.len();
    assert(at + 4 <= n);
    let r = bytes[at] == a && bytes[at + 1] == b && bytes[at + 2] == c && bytes[at + 3] == d;
    proof {
        let s = bytes@.subrange(at as int, at + 4);
        if r {
            assert(s =~= tag(a, b, c, d));
        } else {
            assert(s[0] == bytes@[at as int] && s[1] == bytes@[at + 1] && s[2] == bytes@[at + 2]
                && s[3] == bytes@[at + 3]);
            assert(tag(a, b, c, d)[0] == a && tag(a, b, c, d)[1] == b && tag(a, b, c, d)[2] == c
                && tag(a, b, c, d)[3] == d);
        }
    }
    r
}

/// Finds the data chunk of a RIFF/WAVE file: its offset and how much of it is there.
pub fn find_wav_data(bytes: &[u8]) -> (r: Option<(usize, usize)>)
    ensures
        match wav_data_spec(bytes@) {
            Some((off, size)) => r matches Some((o, s)) && o == off && s == size && off + size
                <= bytes@.len(),
            None => r is None,
        },
{
    if bytes.len() < 12 || !has_tag(bytes, 0, 0x52, 0x49, 0x46, 0x46) || !has_tag(
        bytes,
        8,
        0x57,
        0x41,
        0x56,
        0x45,
    ) {
        return None;
    }
    let n: usize = bytes.len();
    let mut pos: usize = 12;
    while n - pos >= 8
        invariant
            12 <= pos <= n == bytes@.len(),
            bytes@.len() >= 12,
            bytes@.subrange(0, 4) == tag_riff(),
            bytes@.subrange(8, 12) == tag_wave(),
            wav_data_spec(bytes@) == data_chunk_from(bytes@, pos as int),
        decreases n - pos,
    {
        let size: u64 = bytes[pos + 4] as u64 + 256 * (bytes[pos + 5] as u64) + 65536 * (bytes[pos
            + 6] as u64) + 16777216 * (bytes[pos + 7] as u64);
        let room: usize = n - (pos + 8);
        if has_tag(bytes, pos, 0x64, 0x61, 0x74, 0x61) {
            let there: usize = if size < room as u64 { size as usize } else { room };
            return Some((pos + 8, there));
        }
        let advance: u64 = size + size % 2;
        if advance > room as u64 {
            return None;
        }
        pos = pos + 8 + advance as usize;
    }
    None
}

/// Turns an upload into a mono 16 kHz WAV file; nothing where it holds no sample.
pub fn prepare_audio_for_asr(bytes: Vec<u8>) -> (r: Option<Vec<u8>>)
    requires
        36 + length_field(upload_pcm(bytes@).len()) <= u32::MAX,
    ensures
        r is None <==> upload_pcm(bytes@).len() == 0,
        r is Some ==> r->0@ == wav_spec(upload_pcm(bytes@), UPLOAD_SAMPLE_RATE as int, 1),
{
    let pcm: Vec<u8> = match find_wav_data(bytes.as_slice()) {
        Some((off, size)) => copy_range(bytes.as_slice(), off, off + size),
        None => bytes,
    };
    if pcm.len() == 0 {
        return None;
    }
    Some(wrap_pcm_as_wav(pcm.as_slice(), UPLOAD_SAMPLE_RATE, 1))
}

proof fn lemma_le32_at(x: int)
    requires
        0 <= x <= u32::MAX,
    ensures
        le32_at(le32(x), 0) == x,
{
    assert(x == x % 256 + 256 * ((x / 256) % 256) + 65536 * ((x / 65536) % 256) + 16777216 * ((x
        / 16777216) % 256)) by (nonlinear_arith)
        requires
            0 <= x <= 0xFFFF_FFFF,
    ;
}

proof fn lemma_header(data_len: int, sample_rate: int, channels: int)
    requires
        0 <= data_len <= u32::MAX,
    ensures
        ({
            let h = wav_header(data_len, sample_rate, channels);
            &&& h.len() == 44
            &&& h.subrange(0, 4) == tag_riff()
            &&& h.subrange(8, 12) == tag_wave()
            &&& h.subrange(12, 16) == tag_fmt()
            &&& h.subrange(36, 40) == tag_data()
            &&& le32_at(h, 16) == 16
            &&& le32_at(h, 40) == data_len
        }),
{
    reveal(wav_header);
    let h = wav_header(data_len, sample_rate, channels);
    assert(h.subrange(0, 4) =~= tag_riff());
    assert(h.subrange(8, 12) =~= tag_wave());
    assert(h.subrange(12, 16) =~= tag_fmt());
    assert(h.subrange(16, 20) =~= le32(16));
    assert(h.subrange(36, 40) =~= tag_data());
    assert(h.subrange(40, 44) =~= le32(data_len));
    lemma_le32_at(16);
    lemma_le32_at(data_len);
    let s = h.subrange(16, 20);
    assert(s[0] == h[16] && s[1] == h[17] && s[2] == h[18] && s[3] == h[19]);
    let t = h.subrange(40, 44);
    assert(t[0] == h[40] && t[1] == h[41] && t[2] == h[42] && t[3] == h[43]);
}

proof fn lemma_scan(h: Seq<u8>, pcm: Seq<u8>)
    requires
        h.len() == 44,
        h.subrange(0, 4) == tag_riff(),
        h.subrange(8, 12) == tag_wave(),
        h.subrange(12, 16) == tag_fmt(),
        h.subrange(36, 40) == tag_data(),
        le32_at(h, 16) == 16,
        le32_at(h, 40) == pcm.len(),
    ensures
        wav_data_spec(h + pcm) == Some((44int, pcm.len() as int)),
        (h + pcm).subrange(44, 44 + pcm.len() as int) == pcm,
{
    let f = h + pcm;
    assert(f.subrange(0, 4) =~= tag_riff());
    assert(f.subrange(8, 12) =~= tag_wave());
    assert(f.subrange(12, 16) =~= tag_fmt());
    assert(f.subrange(36, 40) =~= tag_data());
    assert(tag_fmt()[0] != tag_data()[0]);
    assert(le32_at(f, 16) == le32_at(h, 16));
    assert(le32_at(f, 40) == le32_at(h, 40));
    assert(data_chunk_from(f, 36) == Some((44int, pcm.len() as int)));
    assert(data_chunk_from(f, 12) == data_chunk_from(f, 36));
    assert(f.subrange(44, 44 + pcm.len() as int) =~= pcm);
}

/// The data chunk of a file that `wrap_pcm_as_wav` wrote is what was wrapped, wherever the
/// length fits its field.
pub proof fn law_wrap_then_find(pcm: Seq<u8>, sample_rate: u32, channels: u16)
    requires
        pcm.len() <= u32::MAX,
        wav_fits(pcm.len(), sample_rate, channels),
    ensures
        wav_data_spec(wav_spec(pcm, sample_rate as int, channels as int)) == Some(
            (WAV_HEADER_LEN as int, pcm.len() as int),
        ),
        upload_pcm(wav_spec(pcm, sample_rate as int, channels as int)) == pcm,
{
    assert(length_field(pcm.len()) == pcm.len());
    lemma_header(pcm.len() as int, sample_rate as int, channels as int);
    lemma_scan(wav_header(pcm.len() as int, sample_rate as int, channels as int), pcm);
}

proof fn lemma_upload_of_wrapped(pcm: Seq<u8>)
    requires
        pcm.len() + 36 <= u32::MAX,
    ensures
        upload_pcm(wav_spec(pcm, UPLOAD_SAMPLE_RATE as int, 1)) == pcm,
{
    law_wrap_then_find(pcm, UPLOAD_SAMPLE_RATE, 1);
}

/// Preparing an upload that was already prepared changes nothing.
pub proof fn law_prepare_is_idempotent(bytes: Seq<u8>)
    requires
        upload_pcm(bytes).len() + 36 <= u32::MAX,
    ensures
        upload_pcm(wav_spec(upload_pcm(bytes), UPLOAD_SAMPLE_RATE as int, 1)) == upload_pcm(bytes),
{
    lemma_upload_of_wrapped(upload_pcm(bytes));
}

/// The number whose two bytes, least significant first, stand at `at`.
pub open spec fn le16_at(bytes: Seq<u8>, at: int) -> int {
    bytes[at] + 256 * bytes[at + 1]
}

/// The header of a file says what is in it: whole samples of 16 bits, uncompressed, at the rate and
/// on the channels that were asked for, and how many bytes there are; the samples follow as they
/// are.
pub proof fn law_header_describes_the_samples(pcm: Seq<u8>, sample_rate: u32, channels: u16)
    requires
        pcm.len() <= u32::MAX,
        wav_fits(pcm.len(), sample_rate, channels),
    ensures
        ({
            let f = wav_spec(pcm, sample_rate as int, channels as int);
            &&& f.len() == 44 + pcm.len()
            &&& f.skip(44) == pcm
            &&& le32_at(f, 4) == 36 + pcm.len()
            &&& le16_at(f, 20) == 1
            &&& le16_at(f, 22) == channels
            &&& le32_at(f, 24) == sample_rate
            &&& le32_at(f, 28) == sample_rate * channels * 2
            &&& le16_at(f, 32) == channels * 2
            &&& le16_at(f, 34) == 16
            &&& le32_at(f, 40) == pcm.len()
        }),
{
    reveal(wav_header);
    let f = wav_spec(pcm, sample_rate as int, channels as int);
    assert(length_field(pcm.len()) == pcm.len());
    assert(f.skip(44) =~= pcm);
    lemma_le32(36 + pcm.len() as int);
    lemma_le32(sample_rate as int);
    assert(sample_rate * channels * 2 >= 0) by (nonlinear_arith);
    lemma_le32(sample_rate * channels * 2);
    lemma_le32(pcm.len() as int);
    lemma_le16(1);
    lemma_le16(channels as int);
    lemma_le16(channels * 2);
    lemma_le16(16);
    assert(f.subrange(4, 8) =~= le32(36 + pcm.len() as int));
    assert(f.subrange(20, 22) =~= le16(1));
    assert(f.subrange(22, 24) =~= le16(channels as int));
    assert(f.subrange(24, 28) =~= le32(sample_rate as int));
    assert(f.subrange(28, 32) =~= le32(sample_rate * channels * 2));
    assert(f.subrange(32, 34) =~= le16(channels * 2));
    assert(f.subrange(34, 36) =~= le16(16));
    assert(f.subrange(40, 44) =~= le32(pcm.len() as int));
    assert(le32_at(f, 4) == le32_at(f.subrange(4, 8), 0));
    assert(le16_at(f, 20) == le16_at(f.subrange(20, 22), 0));
    assert(le16_at(f, 22) == le16_at(f.subrange(22, 24), 0));
    assert(le32_at(f, 24) == le32_at(f.subrange(24, 28), 0));
    assert(le32_at(f, 28) == le32_at(f.subrange(28, 32), 0));
    assert(le16_at(f, 32) == le16_at(f.subrange(32, 34), 0));
    assert(le16_at(f, 34) == le16_at(f.subrange(34, 36), 0));
    assert(le32_at(f, 40) == le32_at(f.subrange(40, 44), 0));
}

proof fn lemma_le32(x: int)
    requires
        0 <= x <= u32::MAX,
    ensures
        le32_at(le32(x), 0) == x,
{
    assert(x / 256 / 256 == x / 65536) by (nonlinear_arith);
    assert(x / 65536 / 256 == x / 16777216) by (nonlinear_arith);
}

proof fn lemma_le16(x: int)
    requires
        0 <= x <= u16::MAX,
    ensures
        le16_at(le16(x), 0) == x,
{
}

/// A chunk that holds no samples is stepped over whole, with the byte that fills it up where its
/// size is odd, and the search goes on behind it.
pub proof fn law_other_chunks_are_stepped_over(
    before: Seq<u8>,
    name: Seq<u8>,
    content: Seq<u8>,
    fill: Seq<u8>,
    rest: Seq<u8>,
)
    requires
        name.len() == 4,
        name != tag_data(),
        content.len() <= u32::MAX,
        fill.len() == content.len() % 2,
    ensures
        ({
            let size = content.len() as int;
            let file = before + name + le32(size) + content + fill + rest;
            data_chunk_from(file, before.len() as int) == data_chunk_from(
                file,
                before.len() + 8 + size + fill.len(),
            )
        }),
{
    let size = content.len() as int;
    let file = before + name + le32(size) + content + fill + rest;
    let at = before.len() as int;
    lemma_le32(size);
    assert(file.subrange(at, at + 4) =~= name);
    assert(file.subrange(at + 4, at + 8) =~= le32(size));
    assert(le32_at(file, at + 4) == le32_at(file.subrange(at + 4, at + 8), 0));
}

} // verus!

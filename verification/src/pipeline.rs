//! What a pipeline that ends in speech passes on: audio, cross-faded from sentence to sentence and
//! numbered through, then an end mark.

use vstd::prelude::*;

use crate::codec::{base64_bytes, base64_encode, base64_text, decoded};
use crate::crossfade::{
    begin_spec, end_spec, fader_wf, feed_spec, finish_spec, FaderState, SentenceCrossfader,
};
use crate::events::TtsEvent;

verus! {

/// The last number that audio can have before the end mark.
pub const MAX_SEQ: u32 = 0xFFFF_FF00;

/// What the pipeline passes on.
#[derive(Debug)]
pub enum LlmTtsItem {
    /// A piece of the answer.
    Llm { delta: String, is_final: bool },
    /// Audio in Base64. The last one is empty and marks the end.
    Tts { seq: u32, audio: String, is_last: bool },
    /// The pipeline failed; nothing follows.
    Failed { error: String, code: u16 },
}

/// What the pipeline passes on.
pub ghost enum ItemView {
    Llm { delta: Seq<char>, is_final: bool },
    Tts { seq: u32, audio: Seq<char>, is_last: bool },
    Failed { error: Seq<char>, code: u16 },
}

impl View for LlmTtsItem {
    type V = ItemView;

    open spec fn view(&self) -> ItemView {
        match *self {
            LlmTtsItem::Llm { delta, is_final } => ItemView::Llm { delta: delta@, is_final },
            LlmTtsItem::Tts { seq, audio, is_last } => ItemView::Tts { seq, audio: audio@, is_last },
            LlmTtsItem::Failed { error, code } => ItemView::Failed { error: error@, code },
        }
    }
}

pub open spec fn item_views(v: Seq<LlmTtsItem>) -> Seq<ItemView> {
    Seq::new(v.len(), |i: int| v[i]@)
}

// ---- numbered audio ----

/// The text of this audio decodes to the audio.
pub open spec fn decodes(pcm: Seq<u8>) -> bool {
    base64_bytes(base64_text(pcm)) == decoded(pcm)
}

/// This is no audio, or the end mark, or the text of some audio that it decodes to.
pub open spec fn playable(item: ItemView) -> bool {
    match item {
        ItemView::Tts { audio, is_last, .. } => is_last || exists|pcm: Seq<u8>|
            pcm.len() > 0 && decodes(pcm) && audio == #[trigger] base64_text(pcm),
        _ => true,
    }
}

/// All audio in a run of items can be decoded.
#[verifier::opaque]
pub open spec fn all_playable(items: Seq<ItemView>) -> bool {
    forall|i: int| 0 <= i < items.len() ==> playable(#[trigger] items[i])
}

/// A run of items stays playable with one more that is.
pub proof fn lemma_playable_push(items: Seq<ItemView>, item: ItemView)
    requires
        all_playable(items),
        playable(item),
    ensures
        all_playable(items.push(item)),
{
    reveal(all_playable);
}

/// Where there are no items, all audio can be decoded.
pub proof fn lemma_playable_none()
    ensures
        all_playable(Seq::empty()),
{
    reveal(all_playable);
}

/// A cross-fader and the number of the last audio.
pub ghost struct AudioState {
    pub fader: FaderState,
    pub seq: u32,
}

/// Audio is numbered and passed on; where there is none, nothing is.
pub open spec fn emit_spec(seq: u32, pcm: Seq<u8>) -> (u32, Seq<ItemView>) {
    if pcm.len() == 0 {
        (seq, Seq::empty())
    } else {
        let next = (seq + 1) as u32;
        (next, seq![ItemView::Tts { seq: next, audio: base64_text(pcm), is_last: false }])
    }
}

pub open spec fn audio_begin(a: AudioState) -> AudioState {
    AudioState { fader: begin_spec(a.fader), ..a }
}

pub open spec fn audio_feed(a: AudioState, data: Seq<u8>) -> (AudioState, Seq<ItemView>) {
    let (fader, pcm) = feed_spec(a.fader, data);
    let (seq, items) = emit_spec(a.seq, pcm);
    (AudioState { fader, seq }, items)
}

pub open spec fn audio_end(a: AudioState) -> (AudioState, Seq<ItemView>) {
    let (fader, pcm) = end_spec(a.fader);
    let (seq, items) = emit_spec(a.seq, pcm);
    (AudioState { fader, seq }, items)
}

/// Everything that is held goes out, then the end mark.
pub open spec fn audio_finish(a: AudioState) -> (AudioState, Seq<ItemView>) {
    let (fader, pcm) = finish_spec(a.fader);
    let (seq, items) = emit_spec(a.seq, pcm);
    let last = (seq + 1) as u32;
    (
        AudioState { fader, seq: last },
        items.push(ItemView::Tts { seq: last, audio: Seq::empty(), is_last: true }),
    )
}

/// The audio of some events, one after another.
pub open spec fn audio_feed_all(a: AudioState, datas: Seq<Seq<u8>>) -> (AudioState, Seq<ItemView>)
    decreases datas.len(),
{
    if datas.len() == 0 {
        (a, Seq::empty())
    } else {
        let (b, items) = audio_feed_all(a, datas.drop_last());
        let (c, more) = audio_feed(b, datas.last());
        (c, items + more)
    }
}

/// A whole sentence.
pub open spec fn audio_sentence(a: AudioState, datas: Seq<Seq<u8>>) -> (AudioState, Seq<ItemView>) {
    let (b, items) = audio_feed_all(audio_begin(a), datas);
    let (c, more) = audio_end(b);
    (c, items + more)
}

/// Cross-fades and numbers audio.
pub struct AudioOut {
    fader: SentenceCrossfader,
    seq: u32,
}

impl View for AudioOut {
    type V = AudioState;

    closed spec fn view(&self) -> AudioState {
        AudioState { fader: self.fader@, seq: self.seq }
    }
}

/// The state before any audio.
pub open spec fn audio_start() -> AudioState {
    AudioState {
        fader: FaderState {
            tail: Seq::empty(),
            head: Seq::empty(),
            hold: Seq::empty(),
            head_done: false,
        },
        seq: 0,
    }
}

impl AudioOut {
    pub open spec fn wf(&self) -> bool {
        fader_wf(self@.fader)
    }

    pub fn new() -> (r: Self)
        ensures
            r.wf(),
            r@ == audio_start(),
    {
        AudioOut { fader: SentenceCrossfader::default(), seq: 0 }
    }

    /// The number of the last audio.
    pub fn seq(&self) -> (r: u32)
        ensures
            r == self@.seq,
    {
        self.seq
    }

    fn emit(&mut self, pcm: Vec<u8>, items: &mut Vec<LlmTtsItem>)
        requires
            old(self).wf(),
            old(self)@.seq < u32::MAX,
        ensures
            final(self).wf(),
            final(self)@.fader == old(self)@.fader,
            final(self)@.seq == emit_spec(old(self)@.seq, pcm@).0,
            item_views(final(items)@) == item_views(old(items)@) + emit_spec(old(self)@.seq, pcm@).1,
            all_playable(item_views(old(items)@)) ==> all_playable(item_views(final(items)@)),
    {
        let ghost want = emit_spec(self@.seq, pcm@).1;
        let ghost start = item_views(items@);
        let ghost bytes = pcm@;
        if pcm.len() > 0 {
            self.seq = self.seq + 1;
            let audio = base64_encode(pcm.as_slice());
            let ghost text = audio@;
            items.push(LlmTtsItem::Tts { seq: self.seq, audio, is_last: false });
            proof {
                let item = ItemView::Tts { seq: self.seq, audio: text, is_last: false };
                assert(item_views(items@) =~= start.push(item));
                assert(decodes(bytes) && text == base64_text(bytes));
                if all_playable(start) {
                    lemma_playable_push(start, item);
                }
            }
        }
        assert(item_views(items@) =~= start + want);
    }

    pub fn begin_sentence(&mut self)
        requires
            old(self).wf(),
        ensures
            final(self).wf(),
            final(self)@ == audio_begin(old(self)@),
    {
        self.fader.begin_sentence();
    }

    /// Takes audio of the current sentence.
    pub fn feed(&mut self, data: &Vec<u8>, items: &mut Vec<LlmTtsItem>)
        requires
            old(self).wf(),
            old(self)@.seq < u32::MAX,
        ensures
            final(self).wf(),
            final(self)@ == audio_feed(old(self)@, data@).0,
            item_views(final(items)@) == item_views(old(items)@) + audio_feed(old(self)@, data@).1,
            all_playable(item_views(old(items)@)) ==> all_playable(item_views(final(items)@)),
    {
        let pcm = self.fader.feed(data.as_slice());
        self.emit(pcm, items);
    }

    pub fn end_sentence(&mut self, items: &mut Vec<LlmTtsItem>)
        requires
            old(self).wf(),
            old(self)@.seq < u32::MAX,
        ensures
            final(self).wf(),
            final(self)@ == audio_end(old(self)@).0,
            item_views(final(items)@) == item_views(old(items)@) + audio_end(old(self)@).1,
            all_playable(item_views(old(items)@)) ==> all_playable(item_views(final(items)@)),
    {
        let pcm = self.fader.end_sentence();
        self.emit(pcm, items);
    }

    /// Ends the stream.
    pub fn finish(&mut self, items: &mut Vec<LlmTtsItem>)
        requires
            old(self).wf(),
            old(self)@.seq < u32::MAX - 1,
        ensures
            final(self).wf(),
            final(self)@ == audio_finish(old(self)@).0,
            item_views(final(items)@) == item_views(old(items)@) + audio_finish(old(self)@).1,
            all_playable(item_views(old(items)@)) ==> all_playable(item_views(final(items)@)),
    {
        let ghost want = audio_finish(self@);
        let ghost start = item_views(items@);
        let pcm = self.fader.finish();
        self.emit(pcm, items);
        let ghost mid = item_views(items@);
        self.seq = self.seq + 1;
        items.push(LlmTtsItem::Tts { seq: self.seq, audio: String::new(), is_last: true });
        proof {
            let mark = ItemView::Tts { seq: self.seq, audio: Seq::<char>::empty(), is_last: true };
            let v = items@[items@.len() - 1]@;
            assert(v->audio =~= Seq::<char>::empty());
            assert(item_views(items@) =~= mid.push(mark));
            if all_playable(mid) {
                lemma_playable_push(mid, mark);
            }
            assert(item_views(items@) =~= start + want.1);
        }
    }

    /// Takes the audio of a whole sentence.
    pub fn sentence(&mut self, events: &Vec<TtsEvent>, items: &mut Vec<LlmTtsItem>)
        requires
            old(self).wf(),
            old(self)@.seq + events@.len() + 1 < u32::MAX,
        ensures
            final(self).wf(),
            final(self)@ == audio_sentence(old(self)@, event_data(events@)).0,
            item_views(final(items)@) == item_views(old(items)@) + audio_sentence(
                old(self)@,
                event_data(events@),
            ).1,
            final(self)@.seq <= old(self)@.seq + events@.len() + 1,
            all_playable(item_views(old(items)@)) ==> all_playable(item_views(final(items)@)),
    {
        let ghost start = item_views(items@);
        let ghost datas = event_data(events@);
        self.begin_sentence();
        let ghost b = self@;
        assert(start + audio_feed_all(b, datas.take(0)).1 =~= start);
        for i in 0..events.len()
            invariant
                self.wf(),
                datas == event_data(events@),
                self@ == audio_feed_all(b, datas.take(i as int)).0,
                item_views(items@) == start + audio_feed_all(b, datas.take(i as int)).1,
                b.seq + events@.len() + 1 < u32::MAX,
                self@.seq <= b.seq + i,
                all_playable(start) ==> all_playable(item_views(items@)),
        {
            let ghost before = audio_feed_all(b, datas.take(i as int));
            proof {
                assert(datas.take(i + 1).drop_last() =~= datas.take(i as int));
                assert(datas.take(i + 1).last() == events@[i as int].data@);
            }
            self.feed(&events[i].data, items);
            proof {
                let more = audio_feed(before.0, events@[i as int].data@).1;
                assert((start + before.1) + more =~= start + (before.1 + more));
            }
        }
        assert(datas.take(events@.len() as int) =~= datas);
        let ghost fed = audio_feed_all(b, datas);
        self.end_sentence(items);
        assert((start + fed.1) + audio_end(fed.0).1 =~= start + (fed.1 + audio_end(fed.0).1));
    }
}

pub open spec fn event_data(events: Seq<TtsEvent>) -> Seq<Seq<u8>> {
    Seq::new(events.len(), |i: int| events[i].data@)
}

/// The numbers that audio has in a run of items go on from `from` to `to` without a gap.
pub open spec fn numbered(items: Seq<ItemView>, from: u32, to: u32) -> bool
    decreases items.len(),
{
    if items.len() == 0 {
        from == to
    } else {
        match items.last() {
            ItemView::Tts { seq, .. } => seq == to && to > 0 && numbered(
                items.drop_last(),
                from,
                (to - 1) as u32,
            ),
            _ => numbered(items.drop_last(), from, to),
        }
    }
}

pub proof fn lemma_numbered_concat(x: Seq<ItemView>, y: Seq<ItemView>, a: u32, b: u32, c: u32)
    requires
        numbered(x, a, b),
        numbered(y, b, c),
    ensures
        numbered(x + y, a, c),
    decreases y.len(),
{
    if y.len() == 0 {
        assert(x + y =~= x);
    } else {
        assert((x + y).drop_last() =~= x + y.drop_last());
        assert((x + y).last() == y.last());
        match y.last() {
            ItemView::Tts { seq, .. } => {
                lemma_numbered_concat(x, y.drop_last(), a, b, (c - 1) as u32);
            },
            _ => {
                lemma_numbered_concat(x, y.drop_last(), a, b, c);
            },
        }
    }
}

pub proof fn lemma_emit_numbered(seq: u32, pcm: Seq<u8>)
    requires
        seq < u32::MAX,
    ensures
        numbered(emit_spec(seq, pcm).1, seq, emit_spec(seq, pcm).0),
        seq <= emit_spec(seq, pcm).0 <= seq + 1,
{
    let items = emit_spec(seq, pcm).1;
    if pcm.len() > 0 {
        assert(items.drop_last() =~= Seq::<ItemView>::empty());
        assert(numbered(items.drop_last(), seq, seq));
    }
}

pub proof fn lemma_finish_numbered(a: AudioState)
    requires
        a.seq < u32::MAX - 1,
    ensures
        numbered(audio_finish(a).1, a.seq, audio_finish(a).0.seq),
{
    let (fader, pcm) = finish_spec(a.fader);
    lemma_emit_numbered(a.seq, pcm);
    let (seq, items) = emit_spec(a.seq, pcm);
    let whole = audio_finish(a).1;
    assert(whole.drop_last() =~= items);
}

proof fn lemma_feed_all_numbered(a: AudioState, datas: Seq<Seq<u8>>)
    requires
        a.seq + datas.len() < u32::MAX,
    ensures
        numbered(audio_feed_all(a, datas).1, a.seq, audio_feed_all(a, datas).0.seq),
        a.seq <= audio_feed_all(a, datas).0.seq <= a.seq + datas.len(),
    decreases datas.len(),
{
    if datas.len() > 0 {
        lemma_feed_all_numbered(a, datas.drop_last());
        let (b, items) = audio_feed_all(a, datas.drop_last());
        lemma_emit_numbered(b.seq, feed_spec(b.fader, datas.last()).1);
        let (c, more) = audio_feed(b, datas.last());
        lemma_numbered_concat(items, more, a.seq, b.seq, c.seq);
    }
}

pub proof fn lemma_sentence_numbered(a: AudioState, datas: Seq<Seq<u8>>)
    requires
        a.seq + datas.len() + 1 < u32::MAX,
    ensures
        numbered(audio_sentence(a, datas).1, a.seq, audio_sentence(a, datas).0.seq),
        a.seq <= audio_sentence(a, datas).0.seq <= a.seq + datas.len() + 1,
{
    lemma_feed_all_numbered(audio_begin(a), datas);
    let (b, items) = audio_feed_all(audio_begin(a), datas);
    lemma_emit_numbered(b.seq, end_spec(b.fader).1);
    let (c, more) = audio_end(b);
    lemma_numbered_concat(items, more, a.seq, b.seq, c.seq);
}

} // verus!

//! What the upstream clients produce.

use vstd::prelude::*;

use crate::error::{ClientError, ErrorView};

verus! {

/// A result of speech recognition.
#[derive(Debug, Clone)]
pub struct AsrEvent {
    pub text: String,
    pub is_final: bool,
    /// The language, where the service tells it.
    pub language: Option<String>,
}

impl Default for AsrEvent {
    fn default() -> (r: Self)
        ensures
            r.text@ == Seq::<char>::empty(),
            !r.is_final,
            r.language is None,
    {
        AsrEvent { text: String::new(), is_final: false, language: None }
    }
}

/// A piece of an answer of the language model.
#[derive(Debug, Clone)]
pub struct LlmEvent {
    pub delta: String,
    pub is_final: bool,
}

/// A piece of synthesised speech.
#[derive(Debug, Clone)]
pub struct TtsEvent {
    pub seq: u32,
    pub data: Vec<u8>,
    pub is_last: bool,
}

/// A piece of an answer, or why there is none.
pub ghost enum LlmItem {
    Event { delta: Seq<char>, is_final: bool },
    Failed(ErrorView),
}

pub open spec fn llm_item(r: Result<LlmEvent, ClientError>) -> LlmItem {
    match r {
        Ok(e) => LlmItem::Event { delta: e.delta@, is_final: e.is_final },
        Err(e) => LlmItem::Failed(e@),
    }
}

pub open spec fn llm_items(v: Seq<Result<LlmEvent, ClientError>>) -> Seq<LlmItem> {
    Seq::new(v.len(), |i: int| llm_item(v[i]))
}

/// A piece of speech, or why there is none.
pub ghost enum TtsItem {
    Event { seq: u32, data: Seq<u8>, is_last: bool },
    Failed(ErrorView),
}

pub open spec fn tts_item(r: Result<TtsEvent, ClientError>) -> TtsItem {
    match r {
        Ok(e) => TtsItem::Event { seq: e.seq, data: e.data@, is_last: e.is_last },
        Err(e) => TtsItem::Failed(e@),
    }
}

pub open spec fn tts_items(v: Seq<Result<TtsEvent, ClientError>>) -> Seq<TtsItem> {
    Seq::new(v.len(), |i: int| tts_item(v[i]))
}

} // verus!

//! Messages between this server and its clients.

use vstd::prelude::*;

use crate::text::opt_view;

verus! {

/// A message between this server and a client.
#[derive(Debug)]
pub enum VoicePayload {
    /// A client starts to speak.
    SessionStart {
        sample_rate: u32,
        channels: u8,
        codec: String,
        language: String,
        /// Sample rate that the client wants for speech.
        tts_sample_rate: Option<u32>,
        /// Voice that the client wants.
        voice: Option<String>,
    },
    AudioChunk { seq: u32, timestamp_ms: u64, data: Vec<u8>, is_last: bool },
    /// The client wants to be answered no more.
    Interrupt,
    SessionEnd { reason: String },
    SessionAck { session_id: String, success: bool, message: String },
    AsrPartial {
        session_id: String,
        text: String,
        is_final: bool,
        /// The text replaces the last final one.
        replace_last: bool,
    },
    LlmDelta { session_id: String, delta: String, is_final: bool },
    TtsAudio { session_id: String, seq: u32, data: Vec<u8>, is_last: bool },
    Error { code: u32, message: String },
}

/// A message between this server and a client.
pub ghost enum PayloadView {
    SessionStart {
        sample_rate: u32,
        channels: u8,
        codec: Seq<char>,
        language: Seq<char>,
        tts_sample_rate: Option<u32>,
        voice: Option<Seq<char>>,
    },
    AudioChunk { seq: u32, timestamp_ms: u64, data: Seq<u8>, is_last: bool },
    Interrupt,
    SessionEnd { reason: Seq<char> },
    SessionAck { session_id: Seq<char>, success: bool, message: Seq<char> },
    AsrPartial { session_id: Seq<char>, text: Seq<char>, is_final: bool, replace_last: bool },
    LlmDelta { session_id: Seq<char>, delta: Seq<char>, is_final: bool },
    TtsAudio { session_id: Seq<char>, seq: u32, data: Seq<u8>, is_last: bool },
    Error { code: u32, message: Seq<char> },
}

impl View for VoicePayload {
    type V = PayloadView;

    open spec fn view(&self) -> PayloadView {
        match *self {
            VoicePayload::SessionStart {
                sample_rate,
                channels,
                codec,
                language,
                tts_sample_rate,
                voice,
            } => PayloadView::SessionStart {
                sample_rate,
                channels,
                codec: codec@,
                language: language@,
                tts_sample_rate,
                voice: opt_view(voice),
            },
            VoicePayload::AudioChunk { seq, timestamp_ms, data, is_last } => PayloadView::AudioChunk {
                seq,
                timestamp_ms,
                data: data@,
                is_last,
            },
            VoicePayload::Interrupt => PayloadView::Interrupt,
            VoicePayload::SessionEnd { reason } => PayloadView::SessionEnd { reason: reason@ },
            VoicePayload::SessionAck { session_id, success, message } => PayloadView::SessionAck {
                session_id: session_id@,
                success,
                message: message@,
            },
            VoicePayload::AsrPartial { session_id, text, is_final, replace_last } =>
                PayloadView::AsrPartial {
                session_id: session_id@,
                text: text@,
                is_final,
                replace_last,
            },
            VoicePayload::LlmDelta { session_id, delta, is_final } => PayloadView::LlmDelta {
                session_id: session_id@,
                delta: delta@,
                is_final,
            },
            VoicePayload::TtsAudio { session_id, seq, data, is_last } => PayloadView::TtsAudio {
                session_id: session_id@,
                seq,
                data: data@,
                is_last,
            },
            VoicePayload::Error { code, message } => PayloadView::Error { code, message: message@ },
        }
    }
}

pub open spec fn payload_views(v: Seq<VoicePayload>) -> Seq<PayloadView> {
    Seq::new(v.len(), |i: int| v[i]@)
}

} // verus!

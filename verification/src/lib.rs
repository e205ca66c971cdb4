//! A voice server: speech is recognised, answered by a language model, and the answer is spoken.
//!
//! The library decides and computes. It makes no connection: where something has to be asked, sent
//! or waited for, a function says so in its result, and the next one takes what happened.

pub mod admin;
pub mod agent;
pub mod aloud;
pub mod answer;
pub mod asr;
pub mod asr_stream;
pub mod audio;
pub mod chat;
pub mod codec;
pub mod config;
pub mod crossfade;
pub mod documents;
pub mod emotion;
pub mod error;
pub mod events;
pub mod frames;
pub mod funasr;
pub mod handshake;
pub mod json;
pub mod knowledge;
pub mod live_asr;
pub mod llm;
pub mod llm_tts;
pub mod memory;
pub mod metrics;
pub mod payload;
pub mod pipeline;
pub mod prompts;
pub mod record;
pub mod sentence;
pub mod service;
pub mod session;
pub mod settings;
pub mod speech;
pub mod spoken;
pub mod sse;
pub mod string_map;
pub mod text;
pub mod tts;
pub mod tts_build;
pub mod tts_session;
pub mod tts_ws;
pub mod voices;

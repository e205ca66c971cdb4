//! Client of a speech synthesis service over HTTP: the request, and what comes back.
//!
//! The answer is either an event stream of `speech.audio.*` events with Base64 audio, or the
//! audio itself.

use vstd::prelude::*;

use crate::audio::append_bytes;
use crate::codec::{base64_bytes, base64_decode, lossy_text, utf8_lossy};
use crate::config::{authorization, authorization_spec};
use crate::error::{ClientError, ErrorView};
use crate::events::{tts_item, tts_items, TtsEvent, TtsItem};
use crate::json::{
    object_text, opt_bool_member, opt_number_member, opt_raw_member, opt_text_member, rejection,
    rejection_text, Member, ObjectWriter,
};
use crate::record::{
    array_elements, byte_views, field_absent, field_optional_text, field_view, is_absent,
    optional_text, read_elements, read_record, record_fields, required_text, str_views, value_text,
};
use crate::llm::{done_payload, trim_slashes, without_slashes};
use crate::sse::{
    bytes_equal, bytes_start_with, first_line, lemma_first_line_stays, lemma_newline_bounds, take_line,
};
use crate::string_map::StringMap;
use crate::text::{concat, contains, copy_opt, occurs, opt_str_view, opt_view, same, views};
use crate::voices::{rate_fits, rate_message, validate_sample_rate_override};

verus! {

/// The voice where none is configured.
pub open spec fn fallback_voice() -> Seq<char> {
    "vivian"@
}

/// A request for speech.
#[derive(Debug)]
pub struct TtsRequest {
    pub input: Option<String>,
    pub model: Option<String>,
    pub voice: Option<String>,
    pub response_format: Option<String>,
    /// Written as a JSON number.
    pub speed: Option<String>,
    pub task_type: Option<String>,
    pub language: Option<String>,
    pub instructions: Option<String>,
    pub max_new_tokens: Option<u32>,
    pub initial_codec_chunk_frames: Option<u32>,
    pub non_streaming_mode: Option<bool>,
    pub stream: Option<bool>,
    pub stream_format: Option<String>,
    pub ref_audio: Option<String>,
    pub ref_text: Option<String>,
    pub x_vector_only_mode: Option<bool>,
    pub sample_rate: Option<u32>,
}

/// What a request for speech says.
pub ghost struct RequestView {
    pub input: Option<Seq<char>>,
    pub model: Option<Seq<char>>,
    pub voice: Option<Seq<char>>,
    pub response_format: Option<Seq<char>>,
    pub speed: Option<Seq<char>>,
    pub task_type: Option<Seq<char>>,
    pub language: Option<Seq<char>>,
    pub instructions: Option<Seq<char>>,
    pub max_new_tokens: Option<u32>,
    pub initial_codec_chunk_frames: Option<u32>,
    pub non_streaming_mode: Option<bool>,
    pub stream: Option<bool>,
    pub stream_format: Option<Seq<char>>,
    pub ref_audio: Option<Seq<char>>,
    pub ref_text: Option<Seq<char>>,
    pub x_vector_only_mode: Option<bool>,
    pub sample_rate: Option<u32>,
}

impl View for TtsRequest {
    type V = RequestView;

    open spec fn view(&self) -> RequestView {
        RequestView {
            input: opt_view(self.input),
            model: opt_view(self.model),
            voice: opt_view(self.voice),
            response_format: opt_view(self.response_format),
            speed: opt_view(self.speed),
            task_type: opt_view(self.task_type),
            language: opt_view(self.language),
            instructions: opt_view(self.instructions),
            max_new_tokens: self.max_new_tokens,
            initial_codec_chunk_frames: self.initial_codec_chunk_frames,
            non_streaming_mode: self.non_streaming_mode,
            stream: self.stream,
            stream_format: opt_view(self.stream_format),
            ref_audio: opt_view(self.ref_audio),
            ref_text: opt_view(self.ref_text),
            x_vector_only_mode: self.x_vector_only_mode,
            sample_rate: self.sample_rate,
        }
    }
}

/// The members of a request; what is not given is left out.
pub open spec fn request_members(r: RequestView) -> Seq<Member> {
    opt_text_member("input"@, r.input) + opt_text_member("model"@, r.model) + opt_text_member(
        "voice"@,
        r.voice,
    ) + opt_text_member("response_format"@, r.response_format) + opt_raw_member("speed"@, r.speed)
        + opt_text_member("task_type"@, r.task_type) + opt_text_member("language"@, r.language)
        + opt_text_member("instructions"@, r.instructions) + opt_number_member(
        "max_new_tokens"@,
        r.max_new_tokens,
    ) + opt_number_member("initial_codec_chunk_frames"@, r.initial_codec_chunk_frames)
        + opt_bool_member("non_streaming_mode"@, r.non_streaming_mode) + opt_bool_member(
        "stream"@,
        r.stream,
    ) + opt_text_member("stream_format"@, r.stream_format) + opt_text_member(
        "ref_audio"@,
        r.ref_audio,
    ) + opt_text_member("ref_text"@, r.ref_text) + opt_bool_member(
        "x_vector_only_mode"@,
        r.x_vector_only_mode,
    ) + opt_number_member("sample_rate"@, r.sample_rate)
}

impl TtsRequest {
    /// The request as JSON.
    pub fn to_json(&self) -> (r: String)
        ensures
            r@ == object_text(request_members(self@)),
    {
        let mut w = ObjectWriter::new();
        w.opt_text("input", &self.input);
        w.opt_text("model", &self.model);
        w.opt_text("voice", &self.voice);
        w.opt_text("response_format", &self.response_format);
        w.opt_raw("speed", &self.speed);
        w.opt_text("task_type", &self.task_type);
        w.opt_text("language", &self.language);
        w.opt_text("instructions", &self.instructions);
        w.opt_number("max_new_tokens", self.max_new_tokens);
        w.opt_number("initial_codec_chunk_frames", self.initial_codec_chunk_frames);
        w.opt_boolean("non_streaming_mode", self.non_streaming_mode);
        w.opt_boolean("stream", self.stream);
        w.opt_text("stream_format", &self.stream_format);
        w.opt_text("ref_audio", &self.ref_audio);
        w.opt_text("ref_text", &self.ref_text);
        w.opt_boolean("x_vector_only_mode", self.x_vector_only_mode);
        w.opt_number("sample_rate", self.sample_rate);
        assert(w@ =~= request_members(self@));
        w.finish()
    }
}

/// Names and values in order.
pub open spec fn pairs_view(v: Seq<(String, String)>) -> Seq<(Seq<char>, Seq<char>)> {
    Seq::new(v.len(), |i: int| (v[i].0@, v[i].1@))
}

/// A request that is ready to be sent.
pub struct HttpCall {
    pub url: String,
    /// In the order in which they are added.
    pub headers: Vec<(String, String)>,
    pub body: String,
}

/// How a speech service is asked over HTTP.
pub struct HttpTtsClient {
    pub base_url: String,
    pub path: String,
    /// None sends no `Authorization`.
    pub api_key: Option<String>,
    pub model: String,
    pub voice_short: String,
    pub response_format: String,
    pub stream: bool,
    pub sample_rate: Option<u32>,
    pub channels: u8,
    /// Written as a JSON number.
    pub speed: Option<String>,
    pub task_type: Option<String>,
    pub language: Option<String>,
    pub instructions: Option<String>,
    pub max_new_tokens: Option<u32>,
    pub initial_codec_chunk_frames: Option<u32>,
    pub non_streaming_mode: Option<bool>,
    pub stream_format: Option<String>,
    pub ref_audio: Option<String>,
    pub ref_text: Option<String>,
    pub x_vector_only_mode: Option<bool>,
    pub extra_headers: StringMap,
    pub timeout_ms: u64,
}

/// `Some` of a text that is not empty.
pub open spec fn some_text(s: Seq<char>) -> Option<Seq<char>> {
    if s.len() == 0 {
        None
    } else {
        Some(s)
    }
}

pub open spec fn or_text(o: Option<Seq<char>>, default: Seq<char>) -> Seq<char> {
    match o {
        Some(s) => s,
        None => default,
    }
}

/// What a client sends as authorization: a pair where it has a key.
pub open spec fn key_header(name: Seq<char>, key: Option<Seq<char>>) -> Seq<(Seq<char>, Seq<char>)> {
    match key {
        Some(k) => seq![(name, authorization_spec(k))],
        None => Seq::empty(),
    }
}

fn text_or(o: &Option<String>, default: &str) -> (r: String)
    ensures
        r@ == or_text(opt_view(*o), default@),
{
    match o {
        Some(s) => s.clone(),
        None => default.to_string(),
    }
}

fn some_of(s: &str) -> (r: Option<String>)
    ensures
        opt_view(r) == some_text(s@),
{
    if s.is_empty() {
        None
    } else {
        Some(s.to_string())
    }
}

/// Appends copies of `extra` to `out`.
pub fn push_pairs(out: &mut Vec<(String, String)>, extra: &Vec<(String, String)>)
    ensures
        pairs_view(final(out)@) == pairs_view(old(out)@) + pairs_view(extra@),
{
    for i in 0..extra.len()
        invariant
            pairs_view(out@) =~= pairs_view(old(out)@) + pairs_view(extra@).take(i as int),
    {
        let ghost before = out@;
        out.push((extra[i].0.clone(), extra[i].1.clone()));
        assert(pairs_view(out@) =~= pairs_view(before).push((extra@[i as int].0@, extra@[i as int].1@)));
        assert(pairs_view(extra@).take(i + 1) =~= pairs_view(extra@).take(i as int).push(
            pairs_view(extra@)[i as int],
        ));
    }
    assert(pairs_view(extra@).take(extra@.len() as int) =~= pairs_view(extra@));
}

fn push_pair(out: &mut Vec<(String, String)>, name: &str, value: String)
    ensures
        pairs_view(final(out)@) == pairs_view(old(out)@) + seq![(name@, value@)],
{
    out.push((name.to_string(), value));
    assert(pairs_view(out@) =~= pairs_view(old(out)@) + seq![(name@, value@)]);
}

impl HttpTtsClient {
    /// The client with `vivian` for its voice where it has none.
    pub fn new(client: HttpTtsClient) -> (r: Self)
        ensures
            r.voice_short@ == (if client.voice_short@.len() == 0 {
                fallback_voice()
            } else {
                client.voice_short@
            }),
            r == (HttpTtsClient { voice_short: r.voice_short, ..client }),
    {
        let mut c = client;
        if c.voice_short.as_str().is_empty() {
            c.voice_short = "vivian".to_string();
        }
        c
    }

    /// Sample rate and channels of the output as they are configured.
    pub fn output_format(&self) -> (r: (Option<u32>, u8))
        ensures
            r == (self.sample_rate, self.channels),
    {
        (self.sample_rate, self.channels)
    }

    /// The name of the default voice.
    pub fn default_voice_short(&self) -> (r: &str)
        ensures
            r@ == self.voice_short@,
    {
        self.voice_short.as_str()
    }

    /// The streamed answer is asked for.
    pub open spec fn wants_stream(&self) -> bool {
        self.stream || (self.stream_format is Some && (self.stream_format->0@ == "sse"@
            || self.stream_format->0@ == "audio"@))
    }

    /// The request for a text: what the caller overrides wins over what is configured.
    pub open spec fn request_spec(
        &self,
        text: Seq<char>,
        sample_rate: Option<u32>,
        voice: Option<Seq<char>>,
    ) -> RequestView {
        RequestView {
            input: Some(text),
            model: some_text(self.model@),
            voice: some_text(or_text(voice, self.voice_short@)),
            response_format: Some(
                if self.response_format@.len() == 0 {
                    "wav"@
                } else {
                    self.response_format@
                },
            ),
            speed: Some(or_text(opt_view(self.speed), "1.0"@)),
            task_type: Some(or_text(opt_view(self.task_type), "CustomVoice"@)),
            language: Some(or_text(opt_view(self.language), "Auto"@)),
            instructions: Some(or_text(opt_view(self.instructions), ""@)),
            max_new_tokens: Some(
                match self.max_new_tokens {
                    Some(n) => n,
                    None => 2048,
                },
            ),
            initial_codec_chunk_frames: self.initial_codec_chunk_frames,
            non_streaming_mode: self.non_streaming_mode,
            stream: if self.wants_stream() { Some(true) } else { None },
            stream_format: opt_view(self.stream_format),
            ref_audio: opt_view(self.ref_audio),
            ref_text: opt_view(self.ref_text),
            x_vector_only_mode: self.x_vector_only_mode,
            sample_rate: match sample_rate {
                Some(r) => Some(r),
                None => self.sample_rate,
            },
        }
    }

    /// The headers of a request for speech.
    pub open spec fn header_pairs(&self, session_id: Seq<char>, trace_id: Option<Seq<char>>) -> Seq<
        (Seq<char>, Seq<char>),
    > {
        seq![("x-session-id"@, session_id)] + (match trace_id {
            Some(t) => seq![("trace_id"@, t)],
            None => Seq::empty(),
        }) + key_header("Authorization"@, opt_view(self.api_key)) + pairs_view(
            self.extra_headers.entries_spec(),
        )
    }

    fn build_request(&self, text: &str, sample_rate: Option<u32>, voice: Option<&str>) -> (r:
        TtsRequest)
        ensures
            r@ == self.request_spec(text@, sample_rate, opt_str_view(voice)),
    {
        let streamed = self.stream || match &self.stream_format {
            Some(f) => same(f.as_str(), "sse") || same(f.as_str(), "audio"),
            None => false,
        };
        let voice_text: &str = match voice {
            Some(v) => v,
            None => self.voice_short.as_str(),
        };
        TtsRequest {
            input: Some(text.to_string()),
            model: some_of(self.model.as_str()),
            voice: some_of(voice_text),
            response_format: Some(
                if self.response_format.as_str().is_empty() {
                    "wav".to_string()
                } else {
                    self.response_format.clone()
                },
            ),
            speed: Some(text_or(&self.speed, "1.0")),
            task_type: Some(text_or(&self.task_type, "CustomVoice")),
            language: Some(text_or(&self.language, "Auto")),
            instructions: Some(text_or(&self.instructions, "")),
            max_new_tokens: Some(
                match self.max_new_tokens {
                    Some(n) => n,
                    None => 2048,
                },
            ),
            initial_codec_chunk_frames: self.initial_codec_chunk_frames,
            non_streaming_mode: self.non_streaming_mode,
            stream: if streamed { Some(true) } else { None },
            stream_format: copy_opt(&self.stream_format),
            ref_audio: copy_opt(&self.ref_audio),
            ref_text: copy_opt(&self.ref_text),
            x_vector_only_mode: self.x_vector_only_mode,
            sample_rate: match sample_rate {
                Some(r) => Some(r),
                None => self.sample_rate,
            },
        }
    }

    /// The request that speaks `text`. A rate that the format does not support is refused.
    pub fn synthesize(
        &self,
        session_id: &str,
        text: &str,
        sample_rate_override: Option<u32>,
        voice_override: Option<&str>,
        trace_id: Option<&str>,
    ) -> (r: Result<HttpCall, ClientError>)
        ensures
            r is Ok <==> (sample_rate_override is None || rate_fits(
                sample_rate_override->0,
                self.response_format@,
            )),
            r is Err ==> r->Err_0@ == ErrorView::Config(
                rate_message(sample_rate_override->0, self.response_format@),
            ),
            r is Ok ==> {
                &&& r->Ok_0.url@ == self.base_url@ + self.path@
                &&& r->Ok_0.body@ == object_text(
                    request_members(
                        self.request_spec(text@, sample_rate_override, opt_str_view(voice_override)),
                    ),
                )
                &&& pairs_view(r->Ok_0.headers@) == self.header_pairs(
                    session_id@,
                    opt_str_view(trace_id),
                )
            },
    {
        match validate_sample_rate_override(sample_rate_override, self.response_format.as_str()) {
            Ok(()) => {},
            Err(e) => {
                return Err(e);
            },
        }
        let body = self.build_request(text, sample_rate_override, voice_override).to_json();
        let mut headers: Vec<(String, String)> = Vec::new();
        push_pair(&mut headers, "x-session-id", session_id.to_string());
        if let Some(t) = trace_id {
            push_pair(&mut headers, "trace_id", t.to_string());
        }
        if let Some(k) = &self.api_key {
            push_pair(&mut headers, "Authorization", authorization(k.as_str()));
        }
        push_pairs(&mut headers, self.extra_headers.entries());
        assert(pairs_view(headers@) =~= self.header_pairs(session_id@, opt_str_view(trace_id)));
        Ok(HttpCall { url: concat(self.base_url.as_str(), self.path.as_str()), headers, body })
    }

    /// The request that lists the voices of the service.
    pub fn list_voices(&self) -> (r: HttpCall)
        ensures
            r.url@ == without_slashes(self.base_url@) + "/audio/voices"@,
            pairs_view(r.headers@) == key_header("Authorization"@, opt_view(self.api_key)) + pairs_view(
                self.extra_headers.entries_spec(),
            ),
            r.body@ == Seq::<char>::empty(),
    {
        let base = trim_slashes(self.base_url.as_str());
        let mut headers: Vec<(String, String)> = Vec::new();
        if let Some(k) = &self.api_key {
            push_pair(&mut headers, "Authorization", authorization(k.as_str()));
        }
        push_pairs(&mut headers, self.extra_headers.entries());
        assert(pairs_view(headers@) =~= key_header("Authorization"@, opt_view(self.api_key)) + pairs_view(
            self.extra_headers.entries_spec(),
        ));
        HttpCall { url: concat(base.as_str(), "/audio/voices"), headers, body: String::new() }
    }
}

/// The texts that some values are; nothing where one of them is something else.
pub open spec fn all_texts(vs: Seq<Seq<u8>>) -> Option<Seq<Seq<char>>> {
    if forall|i: int| 0 <= i < vs.len() ==> required_text(Some(#[trigger] vs[i])) is Some {
        Some(Seq::new(vs.len(), |i: int| required_text(Some(vs[i]))->0))
    } else {
        None
    }
}

/// The voices that a document lists: none where there is no list. Nothing where it has not the
/// expected shape.
pub open spec fn listed_voices(d: Seq<u8>) -> Option<Seq<Seq<char>>> {
    match record_fields(d, seq!["voices"@], 0) {
        Some(f) => match f[0] {
            Some(v) => match array_elements(v) {
                Some(vs) => all_texts(vs),
                None => None,
            },
            None => Some(Seq::empty()),
        },
        None => None,
    }
}

fn read_texts(values: &Vec<Vec<u8>>) -> (r: Option<Vec<String>>)
    ensures
        match r {
            Some(v) => all_texts(byte_views(values@)) == Some(views(v@)),
            None => all_texts(byte_views(values@)) is None,
        },
{
    let ghost vs = byte_views(values@);
    let mut out: Vec<String> = Vec::new();
    for i in 0..values.len()
        invariant
            vs == byte_views(values@),
            out@.len() == i,
            forall|k: int|
                0 <= k < i ==> required_text(Some(#[trigger] vs[k])) == Some(out@[k]@),
    {
        match value_text(&values[i]) {
            Some(s) => out.push(s),
            None => {
                assert(required_text(Some(vs[i as int])) is None);
                return None;
            },
        }
    }
    assert(views(out@) =~= Seq::new(vs.len(), |i: int| required_text(Some(vs[i]))->0));
    Some(out)
}

fn read_voices(body: &[u8]) -> (r: Option<Vec<String>>)
    ensures
        match r {
            Some(v) => listed_voices(body@) == Some(views(v@)),
            None => listed_voices(body@) is None,
        },
{
    let names: [&str; 1] = ["voices"];
    assert(str_views(names@) =~= seq!["voices"@]);
    match read_record(body, &names, 0) {
        Some(f) => match &f[0] {
            Some(v) => match read_elements(v.as_slice()) {
                Some(vs) => read_texts(&vs),
                None => None,
            },
            None => {
                let none: Vec<String> = Vec::new();
                assert(views(none@) =~= Seq::<Seq<char>>::empty());
                Some(none)
            },
        },
        None => None,
    }
}

/// Reads the list of voices out of a successful answer.
pub fn parse_voice_list(body: &[u8]) -> (r: Result<Vec<String>, ClientError>)
    ensures
        match listed_voices(body@) {
            Some(voices) => r matches Ok(v) && views(v@) == voices,
            None => r matches Err(e) && e@ == ErrorView::Decode(
                "invalid TTS voice list response: "@ + rejection(body@),
            ),
        },
{
    match read_voices(body) {
        Some(v) => Ok(v),
        None => Err(
            ClientError::Decode(
                concat("invalid TTS voice list response: ", rejection_text(body).as_str()),
            ),
        ),
    }
}

// ---- the event stream ----

/// The audio of a document of the stream and the message of its error; nothing where it has not
/// the expected shape.
pub open spec fn speech_parts(d: Seq<u8>) -> Option<(Option<Seq<char>>, Option<Seq<char>>)> {
    match record_fields(d, seq!["audio"@, "error"@], 0) {
        Some(f) => match (optional_text(f[0]), failure_of(f[1])) {
            (Some(audio), Some(message)) => Some((audio, message)),
            _ => None,
        },
        None => None,
    }
}

/// The message of a failure that may be absent or null.
pub open spec fn failure_of(f: Option<Seq<u8>>) -> Option<Option<Seq<char>>> {
    if is_absent(f) {
        Some(None)
    } else {
        match record_fields(f->0, seq!["message"@], 1) {
            Some(g) => optional_text(g[0]),
            None => None,
        }
    }
}

/// The next audio event: none without audio, numbered on otherwise.
pub open spec fn audio_event_spec(bytes: Seq<u8>, is_last: bool, seq: u32) -> (Option<TtsItem>, u32) {
    if bytes.len() == 0 {
        (None, seq)
    } else {
        let next = (seq + 1) as u32;
        (Some(TtsItem::Event { seq: next, data: bytes, is_last }), next)
    }
}

/// What an event without a name contributes: audio in `data`, the last where a reason for the
/// end is given. Anything that cannot be read is passed over.
pub open spec fn legacy_spec(d: Seq<u8>, seq: u32) -> (Option<TtsItem>, u32) {
    match record_fields(d, seq!["data"@, "finish_reason"@], 0) {
        Some(f) => match (optional_text(f[0]), optional_text(f[1])) {
            (Some(Some(data)), Some(reason)) => match base64_bytes(data) {
                Ok(b) => audio_event_spec(b, reason is Some, seq),
                Err(_) => (None, seq),
            },
            _ => (None, seq),
        },
        None => (None, seq),
    }
}

/// What an event of the stream contributes, and the number of the last audio after it.
pub open spec fn speech_event_spec(event: Seq<char>, d: Seq<u8>, seq: u32) -> (Option<TtsItem>, u32) {
    match speech_parts(d) {
        None => (
            Some(TtsItem::Failed(ErrorView::Decode("invalid TTS SSE payload: "@ + rejection(d)))),
            seq,
        ),
        Some((audio, message)) => if event == "speech.audio.delta"@ {
            match base64_bytes(or_text(audio, ""@)) {
                Ok(b) => audio_event_spec(b, false, seq),
                Err(m) => (
                    Some(TtsItem::Failed(ErrorView::Decode("invalid TTS audio base64: "@ + m))),
                    seq,
                ),
            }
        } else if event == "speech.audio.done"@ {
            (Some(TtsItem::Event { seq: (seq + 1) as u32, data: Seq::empty(), is_last: true }), seq)
        } else if event == "speech.audio.error"@ {
            (Some(TtsItem::Failed(ErrorView::Decode(or_text(message, "TTS generation failed"@)))), seq)
        } else if event.len() == 0 {
            legacy_spec(d, seq)
        } else {
            (None, seq)
        },
    }
}

/// The next audio event: none without audio, numbered on otherwise.
pub fn audio_event(bytes: Vec<u8>, is_last: bool, seq: &mut u32) -> (r: Option<TtsEvent>)
    requires
        *old(seq) < u32::MAX,
    ensures
        ({
            let (item, next) = audio_event_spec(bytes@, is_last, *old(seq));
            &&& *final(seq) == next
            &&& match r {
                Some(e) => item == Some(tts_item(Ok(e))),
                None => item is None,
            }
        }),
{
    if bytes.len() == 0 {
        return None;
    }
    *seq = *seq + 1;
    Some(TtsEvent { seq: *seq, data: bytes, is_last })
}

pub open spec fn tts_opt(r: Option<Result<TtsEvent, ClientError>>) -> Option<TtsItem> {
    match r {
        Some(r) => Some(tts_item(r)),
        None => None,
    }
}

fn parse_legacy(payload: &[u8], seq: &mut u32) -> (r: Option<TtsEvent>)
    requires
        *old(seq) < u32::MAX,
    ensures
        ({
            let (item, next) = legacy_spec(payload@, *old(seq));
            &&& *final(seq) == next
            &&& match r {
                Some(e) => item == Some(tts_item(Ok(e))),
                None => item is None,
            }
        }),
{
    let names: [&str; 2] = ["data", "finish_reason"];
    assert(str_views(names@) =~= seq!["data"@, "finish_reason"@]);
    let f = match read_record(payload, &names, 0) {
        Some(f) => f,
        None => {
            return None;
        },
    };
    match (field_optional_text(&f[0]), field_optional_text(&f[1])) {
        (Some(Some(audio)), Some(reason)) => {
            match base64_decode(audio.as_str()) {
                Ok(bytes) => audio_event(bytes, reason.is_some(), seq),
                Err(_) => None,
            }
        },
        _ => None,
    }
}

fn read_failure(f: &Option<Vec<u8>>) -> (r: Option<Option<String>>)
    ensures
        match r {
            Some(m) => failure_of(field_view(*f)) == Some(opt_view(m)),
            None => failure_of(field_view(*f)) is None,
        },
{
    if field_absent(f) {
        return Some(None);
    }
    let names: [&str; 1] = ["message"];
    assert(str_views(names@) =~= seq!["message"@]);
    match f {
        Some(v) => match read_record(v.as_slice(), &names, 1) {
            Some(g) => field_optional_text(&g[0]),
            None => None,
        },
        None => Some(None),
    }
}

fn read_speech(payload: &[u8]) -> (r: Option<(Option<String>, Option<String>)>)
    ensures
        match r {
            Some((audio, message)) => speech_parts(payload@) == Some(
                (opt_view(audio), opt_view(message)),
            ),
            None => speech_parts(payload@) is None,
        },
{
    let names: [&str; 2] = ["audio", "error"];
    assert(str_views(names@) =~= seq!["audio"@, "error"@]);
    match read_record(payload, &names, 0) {
        Some(f) => match (field_optional_text(&f[0]), read_failure(&f[1])) {
            (Some(audio), Some(message)) => Some((audio, message)),
            _ => None,
        },
        None => None,
    }
}

/// Reads an event of the stream. `seq` is the number of the last audio.
pub fn parse_speech_audio_event(event: &str, payload: &[u8], seq: &mut u32) -> (r: Option<
    Result<TtsEvent, ClientError>,
>)
    requires
        *old(seq) < u32::MAX,
    ensures
        (tts_opt(r), *final(seq)) == speech_event_spec(event@, payload@, *old(seq)),
{
    let (audio, message): (Option<String>, Option<String>) = match read_speech(payload) {
        Some(x) => x,
        None => {
            return Some(
                Err(
                    ClientError::Decode(
                        concat("invalid TTS SSE payload: ", rejection_text(payload).as_str()),
                    ),
                ),
            );
        },
    };
    if same(event, "speech.audio.delta") {
        let text = match audio {
            Some(a) => a,
            None => "".to_string(),
        };
        match base64_decode(text.as_str()) {
            Ok(bytes) => match audio_event(bytes, false, seq) {
                Some(e) => Some(Ok(e)),
                None => None,
            },
            Err(m) => Some(
                Err(ClientError::Decode(concat("invalid TTS audio base64: ", m.as_str()))),
            ),
        }
    } else if same(event, "speech.audio.done") {
        let e = TtsEvent { seq: *seq + 1, data: Vec::new(), is_last: true };
        Some(Ok(e))
    } else if same(event, "speech.audio.error") {
        let text = match message {
            Some(m) => m,
            None => "TTS generation failed".to_string(),
        };
        Some(Err(ClientError::Decode(text)))
    } else if event.is_empty() {
        match parse_legacy(payload, seq) {
            Some(e) => Some(Ok(e)),
            None => None,
        }
    } else {
        None
    }
}

pub open spec fn event_prefix() -> Seq<u8> {
    seq![0x65u8, 0x76, 0x65, 0x6E, 0x74, 0x3A, 0x20]
}

pub open spec fn data_prefix() -> Seq<u8> {
    seq![0x64u8, 0x61, 0x74, 0x61, 0x3A, 0x20]
}

/// The state of a reader of the stream.
pub ghost struct SpeechState {
    /// Bytes that were not read yet.
    pub buf: Seq<u8>,
    /// Name of the current event.
    pub event: Seq<char>,
    /// Number of the last audio.
    pub seq: u32,
}

/// Nothing follows this in the sentence: it is its last audio or its failure.
pub open spec fn terminal(item: TtsItem) -> bool {
    match item {
        TtsItem::Event { is_last, .. } => is_last,
        TtsItem::Failed(_) => true,
    }
}

/// What one line does: the state after it and what it contributes.
pub open spec fn speech_line(s: SpeechState, line: Seq<u8>) -> (SpeechState, Option<TtsItem>) {
    if event_prefix().is_prefix_of(line) {
        (SpeechState { event: lossy_text(line.skip(7)), ..s }, None)
    } else if data_prefix().is_prefix_of(line) {
        let payload = line.skip(6);
        if payload.len() == 0 || payload == done_payload() {
            (s, None)
        } else {
            let (item, seq) = speech_event_spec(s.event, payload, s.seq);
            (SpeechState { seq, ..s }, item)
        }
    } else {
        (s, None)
    }
}

/// Reads the complete lines in the buffer, up to one that ends the sentence.
pub open spec fn speech_drain(s: SpeechState) -> (SpeechState, Seq<TtsItem>)
    decreases s.buf.len(),
{
    match first_line(s.buf) {
        None => (s, Seq::empty()),
        Some((line, rest)) => if rest.len() < s.buf.len() {
            let (t, item) = speech_line(SpeechState { buf: rest, ..s }, line);
            match item {
                None => speech_drain(t),
                Some(i) => if terminal(i) {
                    (t, seq![i])
                } else {
                    let (u, more) = speech_drain(t);
                    (u, seq![i] + more)
                },
            }
        } else {
            (s, Seq::empty())
        },
    }
}

/// A piece of the stream arrives.
pub open spec fn speech_feed(s: SpeechState, chunk: Seq<u8>) -> (SpeechState, Seq<TtsItem>) {
    speech_drain(SpeechState { buf: s.buf + chunk, ..s })
}

/// Reads an event stream of speech that arrives in pieces.
pub struct TtsSseDecoder {
    buf: Vec<u8>,
    event: String,
    seq: u32,
}

impl View for TtsSseDecoder {
    type V = SpeechState;

    closed spec fn view(&self) -> SpeechState {
        SpeechState { buf: self.buf@, event: self.event@, seq: self.seq }
    }
}

impl TtsSseDecoder {
    pub fn new() -> (r: Self)
        ensures
            r@ == (SpeechState { buf: Seq::empty(), event: Seq::empty(), seq: 0 }),
    {
        TtsSseDecoder { buf: Vec::new(), event: String::new(), seq: 0 }
    }

    /// Reads one line.
    fn read_line(&mut self, line: &Vec<u8>) -> (r: Option<Result<TtsEvent, ClientError>>)
        requires
            old(self)@.seq < u32::MAX,
        ensures
            (final(self)@, tts_opt(r)) == speech_line(old(self)@, line@),
            old(self)@.seq <= final(self)@.seq <= old(self)@.seq + 1,
            final(self)@.buf == old(self)@.buf,
    {
        let n: usize = line.len();
        let event_tag: [u8; 7] = [0x65, 0x76, 0x65, 0x6E, 0x74, 0x3A, 0x20];
        let data_tag: [u8; 6] = [0x64, 0x61, 0x74, 0x61, 0x3A, 0x20];
        let done: [u8; 6] = [0x5B, 0x44, 0x4F, 0x4E, 0x45, 0x5D];
        assert(event_tag@ =~= event_prefix());
        assert(data_tag@ =~= data_prefix());
        assert(done@ =~= done_payload());
        if bytes_start_with(line, &event_tag) {
            let name = vstd::slice::slice_subrange(line.as_slice(), 7, n);
            assert(name@ =~= line@.skip(7));
            self.event = utf8_lossy(name);
            None
        } else if bytes_start_with(line, &data_tag) {
            let payload = vstd::slice::slice_subrange(line.as_slice(), 6, n);
            assert(payload@ =~= line@.skip(6));
            if payload.len() == 0 || bytes_equal(payload, &done) {
                None
            } else {
                let mut seq: u32 = self.seq;
                let r = parse_speech_audio_event(self.event.as_str(), payload, &mut seq);
                self.seq = seq;
                r
            }
        } else {
            None
        }
    }

    /// Takes a piece of the stream and returns what it contributes. Lines behind one that ends
    /// the sentence wait for the next piece.
    pub fn feed(&mut self, chunk: &[u8]) -> (out: Vec<Result<TtsEvent, ClientError>>)
        requires
            old(self)@.seq + old(self)@.buf.len() + chunk@.len() < u32::MAX,
        ensures
            final(self)@ == speech_feed(old(self)@, chunk@).0,
            tts_items(out@) == speech_feed(old(self)@, chunk@).1,
    {
        let mut out: Vec<Result<TtsEvent, ClientError>> = Vec::new();
        append_bytes(&mut self.buf, chunk);
        let ghost want = speech_feed(old(self)@, chunk@);
        assert(tts_items(out@) + speech_drain(self@).1 =~= speech_drain(self@).1);
        loop
            invariant_except_break
                self@.seq + self@.buf.len() < u32::MAX,
                want == speech_feed(old(self)@, chunk@),
                speech_drain(self@).0 == want.0,
                tts_items(out@) + speech_drain(self@).1 == want.1,
            ensures
                self@ == want.0,
                tts_items(out@) == want.1,
            decreases self@.buf.len(),
        {
            let ghost before = self@;
            proof {
                lemma_newline_bounds(before.buf, 0);
            }
            let line = match take_line(&mut self.buf) {
                Some(line) => line,
                None => {
                    assert(tts_items(out@) + Seq::<TtsItem>::empty() =~= tts_items(out@));
                    break ;
                },
            };
            let ghost mid = self@;
            let ghost items = tts_items(out@);
            assert(mid == SpeechState { buf: mid.buf, ..before });
            match self.read_line(&line) {
                None => {},
                Some(r) => {
                    let ends = match &r {
                        Ok(e) => e.is_last,
                        Err(_) => true,
                    };
                    let ghost item = tts_item(r);
                    out.push(r);
                    assert(tts_items(out@) =~= items.push(item));
                    if ends {
                        assert(items + seq![item] =~= items.push(item));
                        break ;
                    }
                    proof {
                        let (u, more) = speech_drain(self@);
                        assert(items + (seq![item] + more) =~= items.push(item) + more);
                    }
                },
            }
        }
        out
    }
}

/// How the answer to a request for speech is read.
pub enum TtsAnswer {
    /// As an event stream, piece by piece.
    Stream,
    /// As the audio itself.
    Audio,
}

/// Decides from the content type how a successful answer is read.
pub fn answer_kind(content_type: &str) -> (r: TtsAnswer)
    ensures
        r is Stream <==> (occurs(content_type@, "text/event-stream"@) || occurs(
            content_type@,
            "application/x-ndjson"@,
        )),
{
    if contains(content_type, "text/event-stream") || contains(content_type, "application/x-ndjson") {
        TtsAnswer::Stream
    } else {
        TtsAnswer::Audio
    }
}

/// The only event of an answer that is the audio itself.
pub fn whole_audio(bytes: Vec<u8>) -> (r: TtsEvent)
    ensures
        r.seq == 1,
        r.data@ == bytes@,
        r.is_last,
{
    TtsEvent { seq: 1, data: bytes, is_last: true }
}

/// The last of some items ends the sentence.
pub open spec fn ends_sentence(items: Seq<TtsItem>) -> bool {
    items.len() > 0 && terminal(items.last())
}

proof fn lemma_drain_splits(s: SpeechState, b: Seq<u8>)
    ensures
        ({
            let (t, items) = speech_drain(s);
            let (u, more) = speech_feed(t, b);
            speech_drain(SpeechState { buf: s.buf + b, ..s }) == if ends_sentence(items) {
                (SpeechState { buf: t.buf + b, ..t }, items)
            } else {
                (u, items + more)
            }
        }),
    decreases s.buf.len(),
{
    let (t, items) = speech_drain(s);
    let (u, more) = speech_feed(t, b);
    lemma_first_line_stays(s.buf, b);
    match first_line(s.buf) {
        None => {
            assert(items + more =~= more);
        },
        Some((line, rest)) => {
            let (x, item) = speech_line(SpeechState { buf: rest, ..s }, line);
            let (y, same) = speech_line(SpeechState { buf: rest + b, ..s }, line);
            assert(y == SpeechState { buf: rest + b, ..x });
            match item {
                None => {
                    lemma_drain_splits(x, b);
                },
                Some(i) => if !terminal(i) {
                    lemma_drain_splits(x, b);
                    let (v, rest_items) = speech_drain(x);
                    assert((seq![i] + rest_items) + more =~= seq![i] + (rest_items + more));
                    if rest_items.len() > 0 {
                        assert(items.last() == rest_items.last());
                    } else {
                        assert(items.last() == i);
                    }
                },
            }
        },
    }
}

/// Where the stream is cut within a sentence does not matter: two pieces, of which the first does
/// not reach the end of the sentence, give the same speech and leave the same state as the two
/// joined.
pub proof fn law_speech_pieces_do_not_matter(s: SpeechState, a: Seq<u8>, b: Seq<u8>)
    requires
        !ends_sentence(speech_feed(s, a).1),
    ensures
        ({
            let (t, items) = speech_feed(s, a);
            let (u, more) = speech_feed(t, b);
            speech_feed(s, a + b) == (u, items + more)
        }),
{
    lemma_drain_splits(SpeechState { buf: s.buf + a, ..s }, b);
    assert((s.buf + a) + b =~= s.buf + (a + b));
}

/// Whatever stands behind the end of a sentence in the same piece contributes nothing with it, but
/// waits unread.
pub proof fn law_speech_stops_at_its_end(s: SpeechState, a: Seq<u8>, b: Seq<u8>)
    requires
        ends_sentence(speech_feed(s, a).1),
    ensures
        ({
            let (t, items) = speech_feed(s, a);
            speech_feed(s, a + b) == (SpeechState { buf: t.buf + b, ..t }, items)
        }),
{
    lemma_drain_splits(SpeechState { buf: s.buf + a, ..s }, b);
    assert((s.buf + a) + b =~= s.buf + (a + b));
}

/// Numbers go up by one with every audio event and never down.
pub proof fn law_numbers_go_up(event: Seq<char>, d: Seq<u8>, seq: u32)
    requires
        seq < u32::MAX,
    ensures
        ({
            let (item, next) = speech_event_spec(event, d, seq);
            &&& next == seq || next == seq + 1
            &&& item matches Some(TtsItem::Event { seq: n, .. }) ==> n == seq + 1
            &&& next == seq + 1 ==> (item matches Some(TtsItem::Event { data, .. }) && data.len() > 0)
        }),
{
}

/// The text that is to be spoken is in the request as it is; a voice or a rate that the caller
/// asks for takes the place of the configured one, and without it the configured one counts.
pub proof fn law_caller_chooses_voice_and_rate(
    c: HttpTtsClient,
    text: Seq<char>,
    rate: u32,
    voice: Seq<char>,
)
    ensures
        c.request_spec(text, Some(rate), Some(voice)).input == Some(text),
        c.request_spec(text, Some(rate), Some(voice)).sample_rate == Some(rate),
        voice.len() > 0 ==> c.request_spec(text, Some(rate), Some(voice)).voice == Some(voice),
        c.request_spec(text, None, None).input == Some(text),
        c.request_spec(text, None, None).sample_rate == c.sample_rate,
        c.voice_short@.len() > 0 ==> c.request_spec(text, None, None).voice == Some(c.voice_short@),
        c.voice_short@.len() == 0 ==> c.request_spec(text, None, None).voice is None,
{
}

/// Whatever is configured is asked for as it is configured.
pub proof fn law_configured_speech_is_asked_for(
    c: HttpTtsClient,
    text: Seq<char>,
    rate: Option<u32>,
    voice: Option<Seq<char>>,
)
    ensures
        ({
            let r = c.request_spec(text, rate, voice);
            &&& c.model@.len() > 0 ==> r.model == Some(c.model@)
            &&& c.response_format@.len() > 0 ==> r.response_format == Some(c.response_format@)
            &&& c.speed is Some ==> r.speed == opt_view(c.speed)
            &&& c.task_type is Some ==> r.task_type == opt_view(c.task_type)
            &&& c.language is Some ==> r.language == opt_view(c.language)
            &&& c.instructions is Some ==> r.instructions == opt_view(c.instructions)
            &&& c.max_new_tokens is Some ==> r.max_new_tokens == c.max_new_tokens
            &&& r.initial_codec_chunk_frames == c.initial_codec_chunk_frames
            &&& r.non_streaming_mode == c.non_streaming_mode
            &&& r.stream_format == opt_view(c.stream_format)
            &&& r.ref_audio == opt_view(c.ref_audio)
            &&& r.ref_text == opt_view(c.ref_text)
            &&& r.x_vector_only_mode == c.x_vector_only_mode
            &&& c.stream ==> r.stream == Some(true)
            &&& !c.stream && c.stream_format is None ==> r.stream is None
        }),
{
}

/// Every request names its session, and its trace where there is one; where there is a key it is
/// sent, and every configured header is.
pub proof fn law_request_is_signed(
    c: HttpTtsClient,
    session_id: Seq<char>,
    trace_id: Option<Seq<char>>,
    i: int,
)
    ensures
        ({
            let pairs = c.header_pairs(session_id, trace_id);
            let extra = pairs_view(c.extra_headers.entries_spec());
            &&& pairs[0] == ("x-session-id"@, session_id)
            &&& trace_id matches Some(t) ==> pairs[1] == ("trace_id"@, t)
            &&& c.api_key matches Some(k) ==> pairs.contains(("Authorization"@, authorization_spec(k@)))
            &&& 0 <= i < extra.len() ==> pairs.contains(extra[i])
        }),
{
    let pairs = c.header_pairs(session_id, trace_id);
    let extra = pairs_view(c.extra_headers.entries_spec());
    let head = seq![("x-session-id"@, session_id)] + (match trace_id {
        Some(t) => seq![("trace_id"@, t)],
        None => Seq::empty(),
    });
    let key = key_header("Authorization"@, opt_view(c.api_key));
    assert(pairs == head + key + extra);
    if c.api_key is Some {
        assert(pairs[head.len() as int] == key[0]);
    }
    if 0 <= i < extra.len() {
        assert(pairs[(head.len() + key.len()) as int + i] == extra[i]);
    }
}

/// What a stream says is heard: audio is passed on as it was encoded, numbered on, and is not the
/// last; the end is the last and has no audio; a failure is told in its own words, and a document
/// that cannot be read is one.
pub proof fn law_stream_events_are_heard(
    d: Seq<u8>,
    seq: u32,
    audio: Seq<char>,
    bytes: Seq<u8>,
    message: Seq<char>,
)
    requires
        seq < u32::MAX,
    ensures
        speech_parts(d) == Some((Some(audio), None::<Seq<char>>)) && base64_bytes(audio) == Ok::<
            Seq<u8>,
            Seq<char>,
        >(bytes) && bytes.len() > 0 ==> speech_event_spec("speech.audio.delta"@, d, seq) == (
            Some(TtsItem::Event { seq: (seq + 1) as u32, data: bytes, is_last: false }),
            (seq + 1) as u32,
        ),
        speech_parts(d) is Some ==> (speech_event_spec("speech.audio.done"@, d, seq).0 matches Some(
            TtsItem::Event { data, is_last, .. },
        ) && data.len() == 0 && is_last),
        speech_parts(d) == Some((None::<Seq<char>>, Some(message))) ==> speech_event_spec(
            "speech.audio.error"@,
            d,
            seq,
        ).0 == Some(TtsItem::Failed(ErrorView::Decode(message))),
        speech_parts(d) is None ==> (speech_event_spec("speech.audio.delta"@, d, seq).0 matches Some(
            TtsItem::Failed(_),
        )),
{
    reveal_strlit("speech.audio.delta");
    reveal_strlit("speech.audio.done");
    reveal_strlit("speech.audio.error");
    assert("speech.audio.delta"@.len() == 18 && "speech.audio.done"@.len() == 17);
    assert("speech.audio.error"@[13] != "speech.audio.delta"@[13]);
    assert("speech.audio.error"@.len() == 18);
}

/// Nothing is handed out behind the end of a sentence: every item but the last is audio that more
/// follows.
pub proof fn law_nothing_follows_the_end(s: SpeechState, i: int)
    requires
        0 <= i < speech_drain(s).1.len() - 1,
    ensures
        speech_drain(s).1[i] matches TtsItem::Event { is_last, .. } && !is_last,
    decreases s.buf.len(),
{
    match first_line(s.buf) {
        Some((line, rest)) => {
            let (t, item) = speech_line(SpeechState { buf: rest, ..s }, line);
            match item {
                None => {
                    law_nothing_follows_the_end(t, i);
                },
                Some(x) => {
                    let more = speech_drain(t).1;
                    if i > 0 {
                        law_nothing_follows_the_end(t, i - 1);
                        assert(speech_drain(s).1[i] == more[i - 1]);
                    }
                },
            }
        },
        None => {},
    }
}

/// A line of the stream names an event, carries data, or says nothing: a name holds for the data
/// that follows it; data that is empty or the end mark, and any other line, says nothing.
pub proof fn law_stream_lines_are_read(s: SpeechState, name: Seq<u8>, line: Seq<u8>)
    ensures
        ({
            let event = seq![0x65u8, 0x76, 0x65, 0x6E, 0x74, 0x3A, 0x20];
            let data = seq![0x64u8, 0x61, 0x74, 0x61, 0x3A, 0x20];
            let done = seq![0x5Bu8, 0x44, 0x4F, 0x4E, 0x45, 0x5D];
            &&& speech_line(s, event + name) == (SpeechState { event: lossy_text(name), ..s }, None::<TtsItem>)
            &&& speech_line(s, data) == (s, None::<TtsItem>)
            &&& speech_line(s, data + done) == (s, None::<TtsItem>)
            &&& !event.is_prefix_of(line) && !data.is_prefix_of(line) ==> speech_line(s, line) == (
                s,
                None::<TtsItem>,
            )
            &&& name.len() > 0 && name != done ==> speech_line(s, data + name).1 == speech_event_spec(
                s.event,
                name,
                s.seq,
            ).0
        }),
{
    let event = seq![0x65u8, 0x76, 0x65, 0x6E, 0x74, 0x3A, 0x20];
    let data = seq![0x64u8, 0x61, 0x74, 0x61, 0x3A, 0x20];
    let done = seq![0x5Bu8, 0x44, 0x4F, 0x4E, 0x45, 0x5D];
    let a = event + name;
    assert(a.subrange(0, 7) =~= event);
    assert(a.skip(7) =~= name);
    assert(data.subrange(0, 6) =~= data);
    assert(data.skip(6).len() == 0);
    let b = data + done;
    assert(b.subrange(0, 6) =~= data);
    assert(b.skip(6) =~= done);
    assert(done =~= done_payload());
    let c = data + name;
    assert(c.subrange(0, 6) =~= data);
    assert(c.skip(6) =~= name);
    assert(event[0] != data[0]);
    assert(data[0] == 0x64 && b[0] == 0x64 && c[0] == 0x64);
    assert(!event.is_prefix_of(data));
    assert(!event.is_prefix_of(b)) by {
        if event.is_prefix_of(b) {
            assert(b.subrange(0, 7)[0] == event[0]);
        }
    }
    assert(!event.is_prefix_of(c)) by {
        if event.is_prefix_of(c) {
            assert(c.subrange(0, 7)[0] == event[0]);
        }
    }
}

} // verus!

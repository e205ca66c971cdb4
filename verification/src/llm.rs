//! Client of an OpenAI-compatible chat service: the request, and what comes back.
//!
//! The answer is either one JSON document or an event stream whose `data:` lines carry one JSON
//! document each.

use vstd::prelude::*;

use crate::audio::append_bytes;
use crate::config::{bare_token, strip_bearer, LlmConfig, ProviderConfig};
use crate::error::{ClientError, ErrorView};
use crate::events::{llm_item, llm_items, LlmEvent, LlmItem};
use crate::json::{
    array_text, bool_member, object_text, opt_number_member, opt_raw_member, opt_text_member,
    raw_member, rejection, rejection_text, text_member, write_array, Document, Member, ObjectWriter,
};
use crate::record::{
    allows_u64, array_elements, byte_views, default_text, field_absent, field_allows_u64,
    field_default_text, field_optional_text, field_required_u64, field_view, is_absent,
    optional_text, read_elements, read_record, record_fields, required_u64, str_views,
};
use crate::sse::{
    bytes_equal, bytes_start_with, complete_lines, lemma_newline_bounds, take_line, unfinished_line,
};
use crate::string_map::{sendable, sent_of, StringMap};
use crate::text::{
    chars_of, concat, concat3, contains, is_blank, occurs, opt_str_view, opt_view, same, string_of,
    trim_spec, views,
};

verus! {

/// One message of a conversation; the role is `system`, `user` or `assistant`.
#[derive(Debug, Clone)]
pub struct ChatMessage {
    pub role: String,
    pub content: String,
}

/// Which of the two models answers.
#[derive(Debug, Clone, Copy, PartialEq, Eq, Structural)]
pub enum ModelTier {
    Fast,
    Strong,
}

impl ModelTier {
    pub open spec fn name_spec(&self) -> Seq<char> {
        match *self {
            ModelTier::Fast => "fast"@,
            ModelTier::Strong => "strong"@,
        }
    }

    /// The name of the tier.
    pub fn as_str(&self) -> (r: &'static str)
        ensures
            r@ == self.name_spec(),
    {
        match self {
            ModelTier::Fast => "fast",
            ModelTier::Strong => "strong",
        }
    }
}

/// What a message says.
pub ghost struct MessageView {
    pub role: Seq<char>,
    pub content: Seq<char>,
}

impl View for ChatMessage {
    type V = MessageView;

    open spec fn view(&self) -> MessageView {
        MessageView { role: self.role@, content: self.content@ }
    }
}

pub open spec fn message_views(v: Seq<ChatMessage>) -> Seq<MessageView> {
    Seq::new(v.len(), |i: int| v[i]@)
}

/// How many tokens an exchange took.
#[derive(Debug, Clone, Copy, PartialEq, Eq, Structural)]
pub struct ChatUsage {
    pub prompt_tokens: u64,
    pub completion_tokens: u64,
    pub total_tokens: u64,
}

/// What one document of an answer contributes.
#[derive(Debug)]
pub struct ParsedChatOutput {
    pub delta: String,
    pub reasoning_content: Option<String>,
    pub is_final: bool,
    pub usage: Option<ChatUsage>,
}

/// What one document of an answer contributes.
pub ghost struct OutputView {
    pub delta: Seq<char>,
    pub reasoning_content: Option<Seq<char>>,
    pub is_final: bool,
    pub usage: Option<ChatUsage>,
}

impl View for ParsedChatOutput {
    type V = OutputView;

    open spec fn view(&self) -> OutputView {
        OutputView {
            delta: self.delta@,
            reasoning_content: opt_view(self.reasoning_content),
            is_final: self.is_final,
            usage: self.usage,
        }
    }
}

/// A choice of an answer: what was said, and whether it is complete.
#[derive(Debug)]
pub struct ChatChoice {
    pub content: Option<String>,
    pub refusal: Option<String>,
    pub reasoning_content: Option<String>,
    pub finished: bool,
}

pub ghost struct ChoiceView {
    pub content: Option<Seq<char>>,
    pub refusal: Option<Seq<char>>,
    pub reasoning_content: Option<Seq<char>>,
    pub finished: bool,
}

impl View for ChatChoice {
    type V = ChoiceView;

    open spec fn view(&self) -> ChoiceView {
        ChoiceView {
            content: opt_view(self.content),
            refusal: opt_view(self.refusal),
            reasoning_content: opt_view(self.reasoning_content),
            finished: self.finished,
        }
    }
}

/// The text that is shown for content and refusal: what there is of the two, a line break
/// between them where there is both.
pub open spec fn response_text_spec(content: Option<Seq<char>>, refusal: Option<Seq<char>>) -> Seq<char> {
    match (content, refusal) {
        (Some(c), Some(r)) => if c.len() > 0 && r.len() > 0 {
            c + seq!['\n'] + r
        } else if c.len() > 0 {
            c
        } else {
            r
        },
        (Some(c), None) => c,
        (None, Some(r)) => r,
        (None, None) => Seq::empty(),
    }
}

/// A text that is more than white space.
pub open spec fn non_blank_spec(value: Option<Seq<char>>) -> Option<Seq<char>> {
    match value {
        Some(s) => if trim_spec(s).len() == 0 {
            None
        } else {
            Some(s)
        },
        None => None,
    }
}

/// What a choice contributes.
pub open spec fn choice_output(c: ChoiceView, usage: Option<ChatUsage>) -> OutputView {
    OutputView {
        delta: response_text_spec(c.content, c.refusal),
        reasoning_content: non_blank_spec(c.reasoning_content),
        is_final: c.finished,
        usage,
    }
}

/// What a document of an event stream contributes: its first choice, or the usage where there is
/// no choice.
pub open spec fn chunk_output(first: Option<ChoiceView>, usage: Option<ChatUsage>) -> Option<OutputView> {
    match first {
        Some(c) => Some(choice_output(c, usage)),
        None => match usage {
            Some(u) => Some(
                OutputView {
                    delta: Seq::empty(),
                    reasoning_content: None,
                    is_final: false,
                    usage: Some(u),
                },
            ),
            None => None,
        },
    }
}

pub fn response_text(content: Option<String>, refusal: Option<String>) -> (r: String)
    ensures
        r@ == response_text_spec(opt_view(content), opt_view(refusal)),
{
    match (content, refusal) {
        (Some(c), Some(r)) => {
            if !c.as_str().is_empty() && !r.as_str().is_empty() {
                let mut s = c;
                s.push('\n');
                assert(s@ =~= c@ + seq!['\n']);
                s.append(r.as_str());
                s
            } else if !c.as_str().is_empty() {
                c
            } else {
                r
            }
        },
        (Some(c), None) => c,
        (None, Some(r)) => r,
        (None, None) => String::new(),
    }
}

pub fn non_blank_text(value: Option<String>) -> (r: Option<String>)
    ensures
        opt_view(r) == non_blank_spec(opt_view(value)),
{
    match value {
        Some(s) => {
            if is_blank(s.as_str()) {
                None
            } else {
                Some(s)
            }
        },
        None => None,
    }
}

/// What a choice contributes.
pub fn output_of_choice(choice: ChatChoice, usage: Option<ChatUsage>) -> (r: ParsedChatOutput)
    ensures
        r@ == choice_output(choice@, usage),
{
    ParsedChatOutput {
        delta: response_text(choice.content, choice.refusal),
        reasoning_content: non_blank_text(choice.reasoning_content),
        is_final: choice.finished,
        usage,
    }
}

/// What a document of an event stream contributes.
pub fn output_of_chunk(first: Option<ChatChoice>, usage: Option<ChatUsage>) -> (r: Option<
    ParsedChatOutput,
>)
    ensures
        match r {
            Some(o) => chunk_output(choice_opt(first), usage) == Some(o@),
            None => chunk_output(choice_opt(first), usage) is None,
        },
{
    match first {
        Some(c) => Some(output_of_choice(c, usage)),
        None => match usage {
            Some(u) => Some(
                ParsedChatOutput {
                    delta: String::new(),
                    reasoning_content: None,
                    is_final: false,
                    usage: Some(u),
                },
            ),
            None => None,
        },
    }
}

pub open spec fn choice_opt(c: Option<ChatChoice>) -> Option<ChoiceView> {
    match c {
        Some(c) => Some(c@),
        None => None,
    }
}

// ---- reading a document ----

/// The names of the fields of what a choice says, in their order.
pub open spec fn words_names() -> Seq<Seq<char>> {
    seq!["content"@, "refusal"@, "reasoning_content"@]
}

/// What a choice says: content, refusal and reasoning.
pub open spec fn words_view(v: Seq<u8>, finished: bool) -> Option<ChoiceView> {
    match record_fields(v, words_names(), 0) {
        Some(f) => match (optional_text(f[0]), optional_text(f[1]), optional_text(f[2])) {
            (Some(content), Some(refusal), Some(reasoning_content)) => Some(
                ChoiceView { content, refusal, reasoning_content, finished },
            ),
            _ => None,
        },
        None => None,
    }
}

/// A choice; nothing where a field has a wrong type. In an event stream it may say nothing, and a
/// reason for the end marks the last one.
pub open spec fn choice_view(v: Seq<u8>, part: Part) -> Option<ChoiceView> {
    match part {
        Part::Delta => match record_fields(v, seq!["index"@, "delta"@, "finish_reason"@], 0) {
            Some(f) => match (allows_u64(f[0]), optional_text(f[2])) {
                (true, Some(reason)) => match f[1] {
                    Some(words) => words_view(words, reason is Some),
                    None => Some(
                        ChoiceView {
                            content: None,
                            refusal: None,
                            reasoning_content: None,
                            finished: reason is Some,
                        },
                    ),
                },
                _ => None,
            },
            None => None,
        },
        Part::Message => match record_fields(v, seq!["message"@], 1) {
            Some(f) => match f[0] {
                Some(words) => words_view(words, true),
                None => None,
            },
            None => None,
        },
    }
}

/// Where the words of a choice stand: in pieces in an event stream, whole otherwise.
#[derive(Debug, Clone, Copy, PartialEq, Eq, Structural)]
pub enum Part {
    Delta,
    Message,
}

/// The names of the fields of a usage, in their order.
pub open spec fn usage_names() -> Seq<Seq<char>> {
    seq!["prompt_tokens"@, "completion_tokens"@, "total_tokens"@]
}

/// The usage that a field tells, where it is not absent or null; nothing where it has a wrong type.
pub open spec fn usage_view(f: Option<Seq<u8>>) -> Option<Option<ChatUsage>> {
    if is_absent(f) {
        Some(None)
    } else {
        match record_fields(f->0, usage_names(), 3) {
            Some(g) => match (required_u64(g[0]), required_u64(g[1]), required_u64(g[2])) {
                (Some(prompt_tokens), Some(completion_tokens), Some(total_tokens)) => Some(
                    Some(ChatUsage { prompt_tokens, completion_tokens, total_tokens }),
                ),
                _ => None,
            },
            None => None,
        }
    }
}

/// The first of some choices, where there is one; nothing where one of them cannot be read.
pub open spec fn first_choice(vs: Seq<Seq<u8>>, part: Part) -> Option<Option<ChoiceView>> {
    if forall|i: int| 0 <= i < vs.len() ==> (choice_view(#[trigger] vs[i], part)) is Some {
        Some(
            if vs.len() == 0 {
                None
            } else {
                choice_view(vs[0], part)
            },
        )
    } else {
        None
    }
}

/// The first choice in a list of them.
pub open spec fn listed_choice(v: Seq<u8>, part: Part) -> Option<Option<ChoiceView>> {
    match array_elements(v) {
        Some(vs) => first_choice(vs, part),
        None => None,
    }
}

/// The names of the fields of a document of an event stream, in their order.
pub open spec fn chunk_names() -> Seq<Seq<char>> {
    seq!["id"@, "created"@, "model"@, "choices"@, "usage"@]
}

/// First choice and usage of a document of an event stream; nothing where it has not the expected
/// shape.
pub open spec fn chunk_parts(d: Seq<u8>) -> Option<(Option<ChoiceView>, Option<ChatUsage>)> {
    match record_fields(d, chunk_names(), 2) {
        Some(f) => {
            let first = match f[3] {
                Some(v) => listed_choice(v, Part::Delta),
                None => Some(None),
            };
            match (first, usage_view(f[4])) {
                (Some(first), Some(usage)) => if default_text(f[0]) is Some && allows_u64(f[1])
                    && default_text(f[2]) is Some {
                    Some((first, usage))
                } else {
                    None
                },
                _ => None,
            }
        },
        None => None,
    }
}

/// First choice and usage of a whole answer; nothing where it has not the expected shape.
pub open spec fn response_parts(d: Seq<u8>) -> Option<(Option<ChoiceView>, Option<ChatUsage>)> {
    match record_fields(d, seq!["choices"@, "usage"@], 1) {
        Some(f) => match f[0] {
            Some(v) => match (listed_choice(v, Part::Message), usage_view(f[1])) {
                (Some(first), Some(usage)) => Some((first, usage)),
                _ => None,
            },
            None => None,
        },
        None => None,
    }
}

pub open spec fn done_payload() -> Seq<u8> {
    seq![0x5Bu8, 0x44, 0x4F, 0x4E, 0x45, 0x5D]
}

/// What the payload of a `data:` line contributes, or the message of the error.
pub open spec fn payload_result(d: Seq<u8>) -> Result<Option<OutputView>, Seq<char>> {
    if d.len() == 0 || d == done_payload() {
        Ok(None)
    } else {
        match chunk_parts(d) {
            Some((first, usage)) => Ok(chunk_output(first, usage)),
            None => Err(rejection(d)),
        }
    }
}

/// What a whole answer contributes, or the message of the error.
pub open spec fn response_result(d: Seq<u8>) -> Result<OutputView, Seq<char>> {
    match response_parts(d) {
        Some((Some(c), usage)) => Ok(choice_output(c, usage)),
        Some((None, _)) => Err("no choices in response"@),
        None => Err(rejection(d)),
    }
}

fn read_words(v: &Vec<u8>, finished: bool) -> (r: Option<ChatChoice>)
    ensures
        choice_opt(r) == words_view(v@, finished),
{
    let names: [&str; 3] = ["content", "refusal", "reasoning_content"];
    assert(str_views(names@) =~= words_names());
    let f = match read_record(v.as_slice(), &names, 0) {
        Some(f) => f,
        None => {
            return None;
        },
    };
    match (field_optional_text(&f[0]), field_optional_text(&f[1]), field_optional_text(&f[2])) {
        (Some(content), Some(refusal), Some(reasoning_content)) => Some(
            ChatChoice { content, refusal, reasoning_content, finished },
        ),
        _ => None,
    }
}

fn read_choice(v: &Vec<u8>, part: Part) -> (r: Option<ChatChoice>)
    ensures
        choice_opt(r) == choice_view(v@, part),
{
    match part {
        Part::Delta => {
            let names: [&str; 3] = ["index", "delta", "finish_reason"];
            assert(str_views(names@) =~= seq!["index"@, "delta"@, "finish_reason"@]);
            let f = match read_record(v.as_slice(), &names, 0) {
                Some(f) => f,
                None => {
                    return None;
                },
            };
            match (field_allows_u64(&f[0]), field_optional_text(&f[2])) {
                (true, Some(reason)) => match &f[1] {
                    Some(words) => read_words(words, reason.is_some()),
                    None => Some(
                        ChatChoice {
                            content: None,
                            refusal: None,
                            reasoning_content: None,
                            finished: reason.is_some(),
                        },
                    ),
                },
                _ => None,
            }
        },
        Part::Message => {
            let names: [&str; 1] = ["message"];
            assert(str_views(names@) =~= seq!["message"@]);
            match read_record(v.as_slice(), &names, 1) {
                Some(f) => match &f[0] {
                    Some(words) => read_words(words, true),
                    None => None,
                },
                None => None,
            }
        },
    }
}

fn read_usage(f: &Option<Vec<u8>>) -> (r: Option<Option<ChatUsage>>)
    ensures
        r == usage_view(field_view(*f)),
{
    if field_absent(f) {
        return Some(None);
    }
    let names: [&str; 3] = ["prompt_tokens", "completion_tokens", "total_tokens"];
    assert(str_views(names@) =~= usage_names());
    let g = match f {
        Some(v) => match read_record(v.as_slice(), &names, 3) {
            Some(g) => g,
            None => {
                return None;
            },
        },
        None => {
            return Some(None);
        },
    };
    match (field_required_u64(&g[0]), field_required_u64(&g[1]), field_required_u64(&g[2])) {
        (Some(prompt_tokens), Some(completion_tokens), Some(total_tokens)) => Some(
            Some(ChatUsage { prompt_tokens, completion_tokens, total_tokens }),
        ),
        _ => None,
    }
}

/// Reads a list of choices; the first of them is kept. Nothing where one has a wrong type.
fn read_choices(v: &Vec<u8>, part: Part) -> (r: Option<Option<ChatChoice>>)
    ensures
        match r {
            Some(c) => listed_choice(v@, part) == Some(choice_opt(c)),
            None => listed_choice(v@, part) is None,
        },
{
    let values = match read_elements(v.as_slice()) {
        Some(values) => values,
        None => {
            return None;
        },
    };
    let ghost vs = byte_views(values@);
    let mut first: Option<ChatChoice> = None;
    for i in 0..values.len()
        invariant
            vs == byte_views(values@),
            array_elements(v@) == Some(vs),
            forall|k: int| 0 <= k < i ==> (choice_view(#[trigger] vs[k], part)) is Some,
            choice_opt(first) == (if i == 0 {
                None
            } else {
                choice_view(vs[0], part)
            }),
    {
        match read_choice(&values[i], part) {
            Some(c) => {
                if i == 0 {
                    first = Some(c);
                }
            },
            None => {
                assert(choice_view(vs[i as int], part) is None);
                return None;
            },
        }
    }
    Some(first)
}

fn read_chunk(payload: &[u8]) -> (r: Option<(Option<ChatChoice>, Option<ChatUsage>)>)
    ensures
        match r {
            Some((first, usage)) => chunk_parts(payload@) == Some((choice_opt(first), usage)),
            None => chunk_parts(payload@) is None,
        },
{
    let names: [&str; 5] = ["id", "created", "model", "choices", "usage"];
    assert(str_views(names@) =~= chunk_names());
    let f = match read_record(payload, &names, 2) {
        Some(f) => f,
        None => {
            return None;
        },
    };
    if field_default_text(&f[0]).is_none() || !field_allows_u64(&f[1]) || field_default_text(
        &f[2],
    ).is_none() {
        return None;
    }
    let first = match &f[3] {
        Some(v) => read_choices(v, Part::Delta),
        None => Some(None),
    };
    match (first, read_usage(&f[4])) {
        (Some(first), Some(usage)) => Some((first, usage)),
        _ => None,
    }
}

fn read_response(body: &[u8]) -> (r: Option<(Option<ChatChoice>, Option<ChatUsage>)>)
    ensures
        match r {
            Some((first, usage)) => response_parts(body@) == Some((choice_opt(first), usage)),
            None => response_parts(body@) is None,
        },
{
    let names: [&str; 2] = ["choices", "usage"];
    assert(str_views(names@) =~= seq!["choices"@, "usage"@]);
    let f = match read_record(body, &names, 1) {
        Some(f) => f,
        None => {
            return None;
        },
    };
    match &f[0] {
        Some(v) => match (read_choices(v, Part::Message), read_usage(&f[1])) {
            (Some(first), Some(usage)) => Some((first, usage)),
            _ => None,
        },
        None => None,
    }
}

/// Reads the payload of a `data:` line.
pub fn parse_stream_payload(payload: &[u8]) -> (r: Result<Option<ParsedChatOutput>, ClientError>)
    ensures
        match payload_result(payload@) {
            Ok(None) => r matches Ok(None),
            Ok(Some(o)) => r matches Ok(Some(p)) && p@ == o,
            Err(m) => r matches Err(ClientError::Decode(t)) && t@ == m,
        },
{
    let done: [u8; 6] = [0x5B, 0x44, 0x4F, 0x4E, 0x45, 0x5D];
    assert(done@ =~= done_payload());
    if payload.len() == 0 || bytes_equal(payload, &done) {
        return Ok(None);
    }
    match read_chunk(payload) {
        Some((first, usage)) => Ok(output_of_chunk(first, usage)),
        None => Err(ClientError::Decode(rejection_text(payload))),
    }
}

/// Reads an answer that came as one document.
pub fn parse_non_stream_response(body: &[u8]) -> (r: Result<ParsedChatOutput, ClientError>)
    ensures
        match response_result(body@) {
            Ok(o) => r matches Ok(p) && p@ == o,
            Err(m) => r matches Err(ClientError::Decode(t)) && t@ == m,
        },
{
    match read_response(body) {
        Some((Some(c), usage)) => Ok(output_of_choice(c, usage)),
        Some((None, _)) => Err(ClientError::Decode("no choices in response".to_string())),
        None => Err(ClientError::Decode(rejection_text(body))),
    }
}

// ---- the event stream ----

pub open spec fn data_prefix() -> Seq<u8> {
    seq![0x64u8, 0x61, 0x74, 0x61, 0x3A]
}

/// The payload of a `data:` line: what stands behind the colon and at most one space.
pub open spec fn data_payload(line: Seq<u8>) -> Seq<u8> {
    let rest = line.skip(5);
    if rest.len() > 0 && rest[0] == 0x20 {
        rest.drop_first()
    } else {
        rest
    }
}

/// What a line contributes, or the message of the error. Lines other than `data:` contribute
/// nothing.
pub open spec fn line_result(line: Seq<u8>) -> Result<Option<OutputView>, Seq<char>> {
    if data_prefix().is_prefix_of(line) {
        payload_result(data_payload(line))
    } else {
        Ok(None)
    }
}

/// Reads a line of an event stream.
pub fn parse_sse_data_line(line: &[u8]) -> (r: Result<Option<ParsedChatOutput>, ClientError>)
    ensures
        match line_result(line@) {
            Ok(None) => r matches Ok(None),
            Ok(Some(o)) => r matches Ok(Some(p)) && p@ == o,
            Err(m) => r matches Err(ClientError::Decode(t)) && t@ == m,
        },
{
    let prefix: [u8; 5] = [0x64, 0x61, 0x74, 0x61, 0x3A];
    assert(prefix@ =~= data_prefix());
    let owned = vstd::slice::slice_to_vec(line);
    if !bytes_start_with(&owned, &prefix) {
        return Ok(None);
    }
    let n: usize = line.len();
    let start: usize = if n > 5 && line[5] == 0x20 { 6 } else { 5 };
    let payload = vstd::slice::slice_subrange(line, start, n);
    assert(payload@ =~= data_payload(line@));
    parse_stream_payload(payload)
}

/// What a line adds to the answer: nothing, a piece of it, or its failure.
pub open spec fn line_item(line: Seq<u8>) -> Option<LlmItem> {
    match line_result(line) {
        Err(m) => Some(LlmItem::Failed(ErrorView::Decode("decode error: "@ + m))),
        Ok(None) => None,
        Ok(Some(o)) => if o.delta.len() > 0 || o.is_final {
            Some(LlmItem::Event { delta: o.delta, is_final: o.is_final })
        } else {
            None
        },
    }
}

/// What lines add to the answer, up to the first failure, and whether there was one.
pub open spec fn lines_items(lines: Seq<Seq<u8>>) -> (Seq<LlmItem>, bool)
    decreases lines.len(),
{
    if lines.len() == 0 {
        (Seq::empty(), false)
    } else {
        let (items, failed) = lines_items(lines.drop_last());
        if failed {
            (items, true)
        } else {
            match line_item(lines.last()) {
                None => (items, false),
                Some(item) => (items.push(item), item is Failed),
            }
        }
    }
}

/// Reads an event stream that arrives in pieces. After a failure nothing more is read.
pub struct LlmSseDecoder {
    buf: Vec<u8>,
    failed: bool,
}

/// The bytes that are no complete line yet, and whether reading has failed.
pub ghost struct SseState {
    pub buf: Seq<u8>,
    pub failed: bool,
}

impl View for LlmSseDecoder {
    type V = SseState;

    closed spec fn view(&self) -> SseState {
        SseState { buf: self.buf@, failed: self.failed }
    }
}

/// The pieces of the answer that a piece of the stream completes, and the state after it.
pub open spec fn sse_feed(s: SseState, chunk: Seq<u8>) -> (SseState, Seq<LlmItem>) {
    if s.failed {
        (s, Seq::empty())
    } else {
        let all = s.buf + chunk;
        let (items, failed) = lines_items(complete_lines(all));
        (
            SseState { buf: if failed { Seq::empty() } else { unfinished_line(all) }, failed },
            items,
        )
    }
}

proof fn lemma_lines_items_prefix_failed(a: Seq<Seq<u8>>, b: Seq<Seq<u8>>)
    requires
        lines_items(a).1,
    ensures
        lines_items(a + b) == lines_items(a),
    decreases b.len(),
{
    if b.len() == 0 {
        assert(a + b =~= a);
    } else {
        lemma_lines_items_prefix_failed(a, b.drop_last());
        assert((a + b).drop_last() =~= a + b.drop_last());
    }
}

proof fn lemma_lines_items_concat(a: Seq<Seq<u8>>, b: Seq<Seq<u8>>)
    requires
        !lines_items(a).1,
    ensures
        lines_items(a + b) == (lines_items(a).0 + lines_items(b).0, lines_items(b).1),
    decreases b.len(),
{
    if b.len() == 0 {
        assert(a + b =~= a);
        assert(lines_items(a).0 + lines_items(b).0 =~= lines_items(a).0);
    } else {
        lemma_lines_items_concat(a, b.drop_last());
        assert((a + b).drop_last() =~= a + b.drop_last());
        let (items, failed) = lines_items(b.drop_last());
        if !failed {
            match line_item(b.last()) {
                Some(item) => {
                    assert((lines_items(a).0 + items).push(item) =~= lines_items(a).0 + items.push(item));
                },
                None => {},
            }
        }
    }
}

impl LlmSseDecoder {
    pub fn new() -> (r: Self)
        ensures
            r@ == (SseState { buf: Seq::empty(), failed: false }),
    {
        LlmSseDecoder { buf: Vec::new(), failed: false }
    }

    /// Takes a piece of the stream and returns the pieces of the answer that it completes.
    pub fn feed(&mut self, chunk: &[u8]) -> (out: Vec<Result<LlmEvent, ClientError>>)
        ensures
            final(self)@ == sse_feed(old(self)@, chunk@).0,
            llm_items(out@) == sse_feed(old(self)@, chunk@).1,
    {
        let mut out: Vec<Result<LlmEvent, ClientError>> = Vec::new();
        assert(llm_items(out@) =~= Seq::<LlmItem>::empty());
        if self.failed {
            return out;
        }
        append_bytes(&mut self.buf, chunk);
        let ghost all = self.buf@;
        let ghost mut seen: Seq<Seq<u8>> = Seq::empty();
        assert(seen + complete_lines(all) =~= complete_lines(all));
        loop
            invariant
                !self.failed,
                !old(self)@.failed,
                all == old(self)@.buf + chunk@,
                seen + complete_lines(self.buf@) == complete_lines(all),
                unfinished_line(self.buf@) == unfinished_line(all),
                lines_items(seen) == (llm_items(out@), false),
            ensures
                !self.failed,
                self.buf@ == unfinished_line(all),
                lines_items(complete_lines(all)) == (llm_items(out@), false),
            decreases self.buf@.len(),
        {
            let ghost before = self.buf@;
            proof {
                lemma_newline_bounds(before, 0);
            }
            let line = match take_line(&mut self.buf) {
                Some(line) => line,
                None => {
                    assert(seen + Seq::<Seq<u8>>::empty() =~= seen);
                    break ;
                },
            };
            let ghost rest = self.buf@;
            let ghost items = llm_items(out@);
            proof {
                assert(seen + (seq![line@] + complete_lines(rest)) =~= seen.push(line@) + complete_lines(rest));
                assert(seen.push(line@).drop_last() =~= seen);
            }
            match parse_sse_data_line(line.as_slice()) {
                Ok(None) => {},
                Ok(Some(parsed)) => {
                    if !parsed.delta.as_str().is_empty() || parsed.is_final {
                        let ghost item = LlmItem::Event { delta: parsed.delta@, is_final: parsed.is_final };
                        out.push(Ok(LlmEvent { delta: parsed.delta, is_final: parsed.is_final }));
                        assert(llm_items(out@) =~= items.push(item));
                    }
                },
                Err(e) => {
                    let text = e.to_string();
                    let ghost item = LlmItem::Failed(ErrorView::Decode(text@));
                    out.push(Err(ClientError::Decode(text)));
                    self.buf.clear();
                    self.failed = true;
                    proof {
                        assert(llm_items(out@) =~= items.push(item));
                        lemma_lines_items_prefix_failed(seen.push(line@), complete_lines(rest));
                    }
                    return out;
                },
            }
            proof {
                seen = seen.push(line@);
            }
        }
        out
    }
}

/// Where the stream is cut into pieces does not matter: two pieces give the same answer and
/// leave the same state as the two joined.
pub proof fn law_stream_pieces_do_not_matter(s: SseState, a: Seq<u8>, b: Seq<u8>)
    ensures
        sse_feed(s, a + b).0 == sse_feed(sse_feed(s, a).0, b).0,
        sse_feed(s, a + b).1 == sse_feed(s, a).1 + sse_feed(sse_feed(s, a).0, b).1,
{
    let (m, first) = sse_feed(s, a);
    let (e, second) = sse_feed(m, b);
    if s.failed {
        assert(first + second =~= Seq::<LlmItem>::empty());
    } else {
        let x = s.buf + a;
        assert(s.buf + (a + b) =~= x + b);
        crate::sse::law_lines_do_not_depend_on_pieces(x, b);
        let la = complete_lines(x);
        let lb = complete_lines(unfinished_line(x) + b);
        if lines_items(la).1 {
            lemma_lines_items_prefix_failed(la, lb);
            assert(first + second =~= first);
        } else {
            lemma_lines_items_concat(la, lb);
        }
    }
}

// ---- the request ----

/// `s` without slashes at its end.
pub open spec fn without_slashes(s: Seq<char>) -> Seq<char>
    decreases s.len(),
{
    if s.len() > 0 && s.last() == '/' {
        without_slashes(s.drop_last())
    } else {
        s
    }
}

proof fn lemma_without_slashes(s: Seq<char>, n: int)
    requires
        0 <= n <= s.len(),
        forall|k: int| n <= k < s.len() ==> s[k] == '/',
        n > 0 ==> s[n - 1] != '/',
    ensures
        without_slashes(s) == s.take(n),
    decreases s.len(),
{
    if n < s.len() {
        lemma_without_slashes(s.drop_last(), n);
        assert(s.drop_last().take(n) =~= s.take(n));
    } else {
        assert(s.take(n) =~= s);
    }
}

/// `s` without slashes at its end.
pub fn trim_slashes(s: &str) -> (r: String)
    ensures
        r@ == without_slashes(s@),
{
    let v = chars_of(s);
    let mut n: usize = v.len();
    while n > 0 && v[n - 1] == '/'
        invariant
            n <= v@.len(),
            forall|k: int| n <= k < v@.len() ==> v@[k] == '/',
        decreases n,
    {
        n -= 1;
    }
    proof {
        lemma_without_slashes(v@, n as int);
        assert(v@.take(n as int) =~= v@.subrange(0, n as int));
    }
    string_of(&v, 0, n)
}

/// A message in a request.
pub open spec fn message_json(m: MessageView) -> Seq<char> {
    object_text(text_member("role"@, m.role) + text_member("content"@, m.content))
}

pub open spec fn messages_json(ms: Seq<MessageView>) -> Seq<char> {
    array_text(Seq::new(ms.len(), |i: int| message_json(ms[i])))
}

/// How a chat service is asked.
pub struct HttpLlmClient {
    pub api_base: String,
    pub api_key: String,
    pub model: String,
    pub max_completion_tokens: Option<u32>,
    /// Written as a JSON number.
    pub temperature: Option<String>,
    /// Written as a JSON number.
    pub top_p: Option<String>,
    pub reasoning_effort: Option<String>,
    pub include_usage: bool,
    pub headers: StringMap,
    pub timeout_ms: u64,
}

/// A request that is ready to be sent.
pub struct HttpRequest {
    pub url: String,
    pub headers: StringMap,
    pub body: String,
}

/// The headers of a chat request: the configured ones, and the key as `x-api-key` where none of
/// them is that.
pub open spec fn auth_headers_spec(
    api_key: Seq<char>,
    headers: Map<Seq<char>, Seq<char>>,
) -> Map<Seq<char>, Seq<char>> {
    if !headers.contains_key("x-api-key"@) && api_key.len() > 0 {
        headers.insert("x-api-key"@, bare_token(api_key))
    } else {
        headers
    }
}

/// The headers of a chat request.
pub fn apply_auth_headers(api_key: &str, headers: &StringMap) -> (r: StringMap)
    ensures
        r@ == auth_headers_spec(api_key@, headers@),
{
    let mut out = headers.copy();
    if !headers.contains_key("x-api-key") && !api_key.is_empty() {
        out.insert("x-api-key".to_string(), strip_bearer(api_key));
    }
    out
}

/// The headers with the trace identifier of the request that is being served, where there is one.
pub fn apply_trace_header(headers: StringMap, trace_id: Option<&str>) -> (r: StringMap)
    ensures
        r@ == (match trace_id {
            Some(t) => headers@.insert("trace_id"@, t@),
            None => headers@,
        }),
{
    let mut out = headers;
    if let Some(t) = trace_id {
        out.insert("trace_id".to_string(), t.to_string());
    }
    out
}

impl HttpLlmClient {
    /// A client that leaves every option to the service.
    pub fn new(resolved: ProviderConfig, model: String) -> (r: Self)
        ensures
            r.api_base@ == resolved.api_base@,
            r.api_key@ == resolved.api_key@,
            r.model@ == model@,
            r.max_completion_tokens is None,
            r.temperature is None,
            r.top_p is None,
            r.reasoning_effort is None,
            !r.include_usage,
            r.headers@ == sendable(resolved.headers.entries_spec()),
            sent_of(r.headers@, resolved.headers@),
            r.timeout_ms == resolved.timeout_ms,
    {
        let mut cfg = LlmConfig::default();
        cfg.model = model;
        HttpLlmClient::from_config(resolved, &cfg)
    }

    /// A client as configured.
    pub fn from_config(resolved: ProviderConfig, cfg: &LlmConfig) -> (r: Self)
        ensures
            r.api_base@ == resolved.api_base@,
            r.api_key@ == resolved.api_key@,
            r.model@ == cfg.model@,
            r.max_completion_tokens == cfg.max_completion_tokens,
            opt_view(r.temperature) == opt_view(cfg.temperature),
            opt_view(r.top_p) == opt_view(cfg.top_p),
            opt_view(r.reasoning_effort) == opt_view(cfg.reasoning_effort),
            r.include_usage == cfg.include_usage,
            r.headers@ == sendable(resolved.headers.entries_spec()),
            sent_of(r.headers@, resolved.headers@),
            r.timeout_ms == resolved.timeout_ms,
    {
        let headers = resolved.to_header_map();
        HttpLlmClient {
            api_base: resolved.api_base,
            api_key: resolved.api_key,
            model: cfg.model.clone(),
            max_completion_tokens: cfg.max_completion_tokens,
            temperature: crate::text::copy_opt(&cfg.temperature),
            top_p: crate::text::copy_opt(&cfg.top_p),
            reasoning_effort: crate::text::copy_opt(&cfg.reasoning_effort),
            include_usage: cfg.include_usage,
            headers,
            timeout_ms: resolved.timeout_ms,
        }
    }

    /// The members of the request; options that are not configured are left out.
    pub open spec fn body_members(&self, messages: Seq<MessageView>) -> Seq<Member> {
        text_member("model"@, self.model@) + raw_member("messages"@, messages_json(messages))
            + bool_member("stream"@, true) + opt_number_member(
            "max_completion_tokens"@,
            self.max_completion_tokens,
        ) + opt_raw_member("temperature"@, opt_view(self.temperature)) + opt_raw_member(
            "top_p"@,
            opt_view(self.top_p),
        ) + opt_text_member("reasoning_effort"@, opt_view(self.reasoning_effort)) + (
        if self.include_usage {
            raw_member("stream_options"@, object_text(bool_member("include_usage"@, true)))
        } else {
            Seq::empty()
        })
    }

    /// The body of the request.
    pub fn request_body(&self, messages: &Vec<ChatMessage>) -> (r: String)
        ensures
            r@ == object_text(self.body_members(message_views(messages@))),
    {
        let mut parts: Vec<String> = Vec::new();
        let ghost want = Seq::new(
            messages@.len(),
            |i: int| message_json(message_views(messages@)[i]),
        );
        for i in 0..messages.len()
            invariant
                want == Seq::new(
                    messages@.len(),
                    |i: int| message_json(message_views(messages@)[i]),
                ),
                views(parts@) =~= want.take(i as int),
        {
            let mut m = ObjectWriter::new();
            m.text("role", messages[i].role.as_str());
            m.text("content", messages[i].content.as_str());
            assert(m@ =~= text_member("role"@, messages@[i as int].role@) + text_member(
                "content"@,
                messages@[i as int].content@,
            ));
            let ghost before = parts@;
            parts.push(m.finish());
            assert(views(parts@) =~= views(before).push(message_json(messages@[i as int]@)));
            assert(want.take(i + 1) =~= want.take(i as int).push(want[i as int]));
        }
        assert(views(parts@) =~= want);
        let list = write_array(&parts);
        let mut w = ObjectWriter::new();
        w.text("model", self.model.as_str());
        w.raw("messages", list.as_str());
        w.boolean("stream", true);
        w.opt_number("max_completion_tokens", self.max_completion_tokens);
        w.opt_raw("temperature", &self.temperature);
        w.opt_raw("top_p", &self.top_p);
        w.opt_text("reasoning_effort", &self.reasoning_effort);
        if self.include_usage {
            let mut o = ObjectWriter::new();
            o.boolean("include_usage", true);
            assert(o@ =~= bool_member("include_usage"@, true));
            w.raw("stream_options", o.finish().as_str());
        }
        assert(w@ =~= self.body_members(message_views(messages@)));
        w.finish()
    }

    /// The request for the next message of a conversation.
    pub fn chat_with_messages(&self, messages: &Vec<ChatMessage>, trace_id: Option<&str>) -> (r:
        HttpRequest)
        ensures
            r.url@ == without_slashes(self.api_base@) + "/chat/completions"@,
            r.body@ == object_text(self.body_members(message_views(messages@))),
            r.headers@ == ({
                let h = auth_headers_spec(self.api_key@, self.headers@);
                match trace_id {
                    Some(t) => h.insert("trace_id"@, t@),
                    None => h,
                }
            }),
    {
        let base = trim_slashes(self.api_base.as_str());
        HttpRequest {
            url: concat(base.as_str(), "/chat/completions"),
            headers: apply_trace_header(
                apply_auth_headers(self.api_key.as_str(), &self.headers),
                trace_id,
            ),
            body: self.request_body(messages),
        }
    }
}

/// The note on tone and setting that is put in front of a question.
pub open spec fn hint_text(hint: Seq<char>) -> Seq<char> {
    "[ASR参考信号] 以下内容由语音识别模型推断，仅供理解语气和场景参考，可能不准确：\n"@ + hint
        + "\n请自然回答用户，不要在回复中提及、复述或暗示这些信号，不要把事件当作用户明确说出的事实，也不要解释判断过程。"@
}

/// Messages with the note in front of them, where there is one.
pub open spec fn hinted(messages: Seq<MessageView>, hint: Option<Seq<char>>) -> Seq<MessageView> {
    match hint {
        Some(h) => seq![MessageView { role: "system"@, content: hint_text(h) }] + messages,
        None => messages,
    }
}

/// Messages with the note in front of them, where there is one.
pub fn hinted_messages(messages: &Vec<ChatMessage>, emotion_hint: Option<&str>) -> (r: Vec<
    ChatMessage,
>)
    ensures
        message_views(r@) == hinted(message_views(messages@), opt_str_view(emotion_hint)),
{
    let mut out: Vec<ChatMessage> = Vec::new();
    if let Some(h) = emotion_hint {
        let content = concat3(
            "[ASR参考信号] 以下内容由语音识别模型推断，仅供理解语气和场景参考，可能不准确：\n",
            h,
            "\n请自然回答用户，不要在回复中提及、复述或暗示这些信号，不要把事件当作用户明确说出的事实，也不要解释判断过程。",
        );
        out.push(ChatMessage { role: "system".to_string(), content });
    }
    let ghost note = message_views(out@);
    assert(note =~= hinted(Seq::empty(), opt_str_view(emotion_hint)));
    let ghost all = message_views(messages@);
    for i in 0..messages.len()
        invariant
            all == message_views(messages@),
            message_views(out@) =~= note + all.take(i as int),
    {
        let ghost before = out@;
        let m = &messages[i];
        out.push(ChatMessage { role: m.role.clone(), content: m.content.clone() });
        assert(message_views(out@) =~= message_views(before).push(all[i as int]));
        assert(all.take(i + 1) =~= all.take(i as int).push(all[i as int]));
    }
    assert(message_views(out@) =~= hinted(all, opt_str_view(emotion_hint)));
    out
}

/// The messages of a single question: the note where there is one, then the question.
pub open spec fn single_turn(prompt: Seq<char>, hint: Option<Seq<char>>) -> Seq<MessageView> {
    hinted(seq![MessageView { role: "user"@, content: prompt }], hint)
}

/// The messages of a single question.
pub fn chat_messages(prompt: &str, emotion_hint: Option<&str>) -> (r: Vec<ChatMessage>)
    ensures
        message_views(r@) == single_turn(prompt@, opt_str_view(emotion_hint)),
{
    let mut question: Vec<ChatMessage> = Vec::new();
    question.push(ChatMessage { role: "user".to_string(), content: prompt.to_string() });
    assert(message_views(question@) =~= seq![MessageView { role: "user"@, content: prompt@ }]);
    hinted_messages(&question, emotion_hint)
}

/// How the answer to a chat request is read.
pub enum LlmAnswer {
    /// As an event stream, piece by piece.
    Stream,
    /// As one document.
    Document,
}

/// Decides from the content type how a successful answer is read.
pub fn answer_kind(content_type: &str) -> (r: LlmAnswer)
    ensures
        r is Stream <==> occurs(content_type@, "text/event-stream"@),
{
    if contains(content_type, "text/event-stream") {
        LlmAnswer::Stream
    } else {
        LlmAnswer::Document
    }
}

/// The single piece of an answer that came as one document.
pub fn document_event(body: &[u8]) -> (r: Result<LlmEvent, ClientError>)
    ensures
        llm_item(r) == (match response_result(body@) {
            Ok(o) => LlmItem::Event { delta: o.delta, is_final: o.is_final },
            Err(m) => LlmItem::Failed(ErrorView::Decode(m)),
        }),
{
    match parse_non_stream_response(body) {
        Ok(o) => Ok(LlmEvent { delta: o.delta, is_final: o.is_final }),
        Err(e) => Err(e),
    }
}

/// A client for the language model as it is configured.
pub fn build_llm_client(cfg: &LlmConfig, provider: Option<&ProviderConfig>) -> (r: HttpLlmClient)
    ensures
        ({
            let p = crate::config::resolve_spec(
                cfg.api_base@,
                cfg.api_key@,
                cfg.timeout_ms,
                cfg.headers@,
                crate::config::provider_view(provider),
            );
            &&& r.api_base@ == p.api_base
            &&& r.api_key@ == p.api_key
            &&& r.timeout_ms == p.timeout_ms
            &&& sent_of(r.headers@, p.headers)
        }),
        r.model@ == cfg.model@,
        r.max_completion_tokens == cfg.max_completion_tokens,
        opt_view(r.temperature) == opt_view(cfg.temperature),
        opt_view(r.top_p) == opt_view(cfg.top_p),
        opt_view(r.reasoning_effort) == opt_view(cfg.reasoning_effort),
        r.include_usage == cfg.include_usage,
{
    HttpLlmClient::from_config(cfg.resolved(provider), cfg)
}

/// Slashes at the end of an address do not matter, and none is left.
pub proof fn law_trailing_slashes_do_not_matter(base: Seq<char>)
    ensures
        without_slashes(base.push('/')) == without_slashes(base),
        without_slashes(base).len() == 0 || without_slashes(base).last() != '/',
        base.len() > 0 && base.last() != '/' ==> without_slashes(base) == base,
    decreases base.len(),
{
    assert(base.push('/').drop_last() =~= base);
    if base.len() > 0 && base.last() == '/' {
        law_trailing_slashes_do_not_matter(base.drop_last());
    }
}

/// A key is sent under its own name and without a scheme in front of it; a header that is
/// configured is never changed by it.
pub proof fn law_key_is_sent(key: Seq<char>, headers: Map<Seq<char>, Seq<char>>, name: Seq<char>)
    ensures
        ({
            let sent = auth_headers_spec(key, headers);
            &&& headers.contains_key(name) ==> sent.contains_key(name) && sent[name] == headers[name]
            &&& key.len() > 0 && !headers.contains_key("x-api-key"@) ==> sent.contains_key("x-api-key"@)
                && sent["x-api-key"@] == bare_token(key)
            &&& key.len() == 0 ==> sent == headers
        }),
{
}

} // verus!

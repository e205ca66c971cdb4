//! Client of a speech recognition service over HTTP: the form that is sent, and what comes back.

use vstd::prelude::*;
use vstd::string::StringSliceAdditionalSpecFns;

use crate::config::{authorization, provider_view, resolve_spec, AsrConfig, ProviderConfig};
use crate::error::{is_status_error, status_error, success_status, ClientError, ErrorView};
use crate::events::AsrEvent;
use crate::json::{bool_text, rejection, rejection_text, NodeView};
use crate::record::{
    allows_array, allows_number, default_text, field_allows_array, field_allows_number,
    field_default_text, field_in, field_optional_text, law_fields_are_found, object_members,
    optional_text, read_record, record_fields, str_views, value_of, RawMember,
};
use crate::string_map::{sent_of, StringMap};
use crate::text::{
    concat, copy_opt, ends_with, lower_spec, opt_str_view, opt_view, same, to_ascii_lowercase,
    trim, trim_spec,
};
use crate::tts::{key_header, pairs_view, push_pairs};

verus! {

/// The media type that a file name suggests, whatever its case.
pub open spec fn audio_mime_spec(filename: Seq<char>) -> Seq<char> {
    let f = lower_spec(filename);
    if ".wav"@.is_suffix_of(f) {
        "audio/wav"@
    } else if ".mp3"@.is_suffix_of(f) {
        "audio/mpeg"@
    } else if ".flac"@.is_suffix_of(f) {
        "audio/flac"@
    } else if ".ogg"@.is_suffix_of(f) {
        "audio/ogg"@
    } else if ".m4a"@.is_suffix_of(f) {
        "audio/mp4"@
    } else if ".webm"@.is_suffix_of(f) {
        "audio/webm"@
    } else {
        "application/octet-stream"@
    }
}

/// The media type that a file name suggests.
pub fn guess_audio_mime(filename: &str) -> (r: &'static str)
    ensures
        r@ == audio_mime_spec(filename@),
{
    let f = to_ascii_lowercase(filename);
    let f = f.as_str();
    if ends_with(f, ".wav") {
        "audio/wav"
    } else if ends_with(f, ".mp3") {
        "audio/mpeg"
    } else if ends_with(f, ".flac") {
        "audio/flac"
    } else if ends_with(f, ".ogg") {
        "audio/ogg"
    } else if ends_with(f, ".m4a") {
        "audio/mp4"
    } else if ends_with(f, ".webm") {
        "audio/webm"
    } else {
        "application/octet-stream"
    }
}

/// The names of the fields of an answer, in their order.
pub open spec fn answer_names(verbose: bool) -> Seq<Seq<char>> {
    if verbose {
        seq!["text"@, "language"@, "duration"@, "segments"@]
    } else {
        seq!["text"@]
    }
}

/// The recognised text of a document, or nothing where it has not the expected shape.
pub open spec fn document_text(d: Seq<u8>, verbose: bool) -> Option<Seq<char>> {
    match record_fields(d, answer_names(verbose), 0) {
        Some(f) => if !verbose || (optional_text(f[1]) is Some && allows_number(f[2])
            && allows_array(f[3])) {
            default_text(f[0])
        } else {
            None
        },
        None => None,
    }
}

/// The recognised text of an answer in a given format, or the message of the error.
pub open spec fn extract_spec(body: Seq<char>, format: Seq<char>) -> Result<Seq<char>, Seq<char>> {
    let d = vstd::utf8::encode_utf8(body);
    if format == "text"@ {
        Ok(trim_spec(body))
    } else if format == "json"@ || format == "verbose_json"@ {
        let head = if format == "json"@ {
            "decode ASR json response: "@
        } else {
            "decode ASR verbose_json response: "@
        };
        match document_text(d, format == "verbose_json"@) {
            Some(t) => Ok(t),
            None => Err(head + rejection(d)),
        }
    } else {
        Err("unsupported response_format: "@ + format)
    }
}

/// The format of an answer: JSON where none is configured.
pub open spec fn format_or_json(format: Option<Seq<char>>) -> Seq<char> {
    match format {
        Some(f) => f,
        None => "json"@,
    }
}

/// Reads the text of a JSON answer.
fn read_document(body: &str, verbose: bool) -> (r: Option<String>)
    ensures
        opt_view(r) == document_text(body.spec_bytes(), verbose),
{
    let bytes = body.as_bytes();
    if verbose {
        let names: [&str; 4] = ["text", "language", "duration", "segments"];
        assert(str_views(names@) =~= answer_names(true));
        match read_record(bytes, &names, 0) {
            Some(f) => {
                if field_optional_text(&f[1]).is_none() || !field_allows_number(&f[2])
                    || !field_allows_array(&f[3]) {
                    return None;
                }
                field_default_text(&f[0])
            },
            None => None,
        }
    } else {
        let names: [&str; 1] = ["text"];
        assert(str_views(names@) =~= answer_names(false));
        match read_record(bytes, &names, 0) {
            Some(f) => field_default_text(&f[0]),
            None => None,
        }
    }
}

/// The recognised text of an answer.
pub fn extract_text(body: &str, response_format: Option<&str>) -> (r: Result<String, ClientError>)
    ensures
        match extract_spec(body@, format_or_json(opt_str_view(response_format))) {
            Ok(t) => r matches Ok(s) && s@ == t,
            Err(m) => r matches Err(e) && e@ == ErrorView::Decode(m),
        },
{
    let format: &str = match response_format {
        Some(f) => f,
        None => "json",
    };
    proof {
        reveal_strlit("text");
        reveal_strlit("json");
        reveal_strlit("verbose_json");
        assert("json"@.len() != "verbose_json"@.len());
        assert("text"@[0] != "json"@[0]);
    }
    if same(format, "text") {
        return Ok(trim(body));
    }
    let verbose = same(format, "verbose_json");
    if !verbose && !same(format, "json") {
        return Err(ClientError::Decode(concat("unsupported response_format: ", format)));
    }
    let head: &str = if verbose {
        "decode ASR verbose_json response: "
    } else {
        "decode ASR json response: "
    };
    match read_document(body, verbose) {
        Some(t) => Ok(t),
        None => Err(
            ClientError::Decode(concat(head, rejection_text(body.as_bytes()).as_str())),
        ),
    }
}

/// A field of the form.
#[derive(Debug)]
pub enum FormField {
    Text { name: String, value: String },
    /// The audio itself.
    File { name: String, filename: String, mime: String, data: Vec<u8> },
}

/// What a field of the form says.
pub ghost enum FieldView {
    Text { name: Seq<char>, value: Seq<char> },
    File { name: Seq<char>, filename: Seq<char>, mime: Seq<char>, data: Seq<u8> },
}

impl View for FormField {
    type V = FieldView;

    open spec fn view(&self) -> FieldView {
        match *self {
            FormField::Text { name, value } => FieldView::Text { name: name@, value: value@ },
            FormField::File { name, filename, mime, data } => FieldView::File {
                name: name@,
                filename: filename@,
                mime: mime@,
                data: data@,
            },
        }
    }
}

pub open spec fn field_views(v: Seq<FormField>) -> Seq<FieldView> {
    Seq::new(v.len(), |i: int| v[i]@)
}

/// A text field that is left out where there is nothing to say.
pub open spec fn opt_text_field(name: Seq<char>, value: Option<Seq<char>>) -> Seq<FieldView> {
    match value {
        Some(v) => if v.len() == 0 {
            Seq::empty()
        } else {
            seq![FieldView::Text { name, value: v }]
        },
        None => Seq::empty(),
    }
}

/// A truth value that is left out where there is none.
pub open spec fn opt_bool_field(name: Seq<char>, value: Option<bool>) -> Seq<FieldView> {
    match value {
        Some(b) => seq![FieldView::Text { name, value: bool_text(b) }],
        None => Seq::empty(),
    }
}

/// Adds a text field where there is something to say.
pub fn push_opt_text(form: &mut Vec<FormField>, name: &str, val: Option<&str>)
    ensures
        field_views(final(form)@) == field_views(old(form)@) + opt_text_field(
            name@,
            opt_str_view(val),
        ),
{
    if let Some(v) = val {
        if !v.is_empty() {
            form.push(FormField::Text { name: name.to_string(), value: v.to_string() });
        }
    }
    assert(field_views(form@) =~= field_views(old(form)@) + opt_text_field(name@, opt_str_view(val)));
}

/// Adds a truth value where there is one.
pub fn push_opt_bool(form: &mut Vec<FormField>, name: &str, val: Option<bool>)
    ensures
        field_views(final(form)@) == field_views(old(form)@) + opt_bool_field(name@, val),
{
    if let Some(b) = val {
        let value = if b { "true".to_string() } else { "false".to_string() };
        form.push(FormField::Text { name: name.to_string(), value });
    }
    assert(field_views(form@) =~= field_views(old(form)@) + opt_bool_field(name@, val));
}

/// A form that is ready to be sent.
pub struct AsrCall {
    pub url: String,
    pub headers: Vec<(String, String)>,
    pub form: Vec<FormField>,
}

/// How a recognition service is asked.
pub struct HttpAsrClient {
    pub base_url: String,
    pub path: String,
    /// None sends no `Authorization`.
    pub api_key: Option<String>,
    pub extra_headers: StringMap,
    pub timeout_ms: u64,
    pub model: String,
    pub language: Option<String>,
    pub response_format: Option<String>,
    pub spk: Option<bool>,
    pub tags: Option<bool>,
}

impl HttpAsrClient {
    /// The name under which audio is sent where the caller gives none.
    pub open spec fn upload_name(filename: Option<Seq<char>>) -> Seq<char> {
        match filename {
            Some(f) => f,
            None => "audio.wav"@,
        }
    }

    /// The form that carries a recording.
    pub open spec fn form_spec(&self, filename: Option<Seq<char>>, audio: Seq<u8>) -> Seq<FieldView> {
        let name = Self::upload_name(filename);
        seq![
            FieldView::Text { name: "model"@, value: self.model@ },
            FieldView::File {
                name: "file"@,
                filename: name,
                mime: audio_mime_spec(name),
                data: audio,
            },
        ] + opt_text_field("language"@, opt_view(self.language)) + opt_text_field(
            "response_format"@,
            opt_view(self.response_format),
        ) + opt_bool_field("spk"@, self.spk) + opt_bool_field("tags"@, self.tags)
    }

    /// The request that has a recording recognised.
    pub fn recognize(&self, filename: Option<&str>, audio: Vec<u8>) -> (r: AsrCall)
        ensures
            r.url@ == self.base_url@ + self.path@,
            field_views(r.form@) == self.form_spec(opt_str_view(filename), audio@),
            pairs_view(r.headers@) == key_header("Authorization"@, opt_view(self.api_key)) + pairs_view(
                self.extra_headers.entries_spec(),
            ),
    {
        let name: &str = match filename {
            Some(f) => f,
            None => "audio.wav",
        };
        let mut form: Vec<FormField> = Vec::new();
        form.push(FormField::Text { name: "model".to_string(), value: self.model.clone() });
        form.push(
            FormField::File {
                name: "file".to_string(),
                filename: name.to_string(),
                mime: guess_audio_mime(name).to_string(),
                data: audio,
            },
        );
        let ghost head = seq![
            FieldView::Text { name: "model"@, value: self.model@ },
            FieldView::File {
                name: "file"@,
                filename: name@,
                mime: audio_mime_spec(name@),
                data: audio@,
            },
        ];
        assert(field_views(form@) =~= head);
        let language: Option<&str> = match &self.language {
            Some(l) => Some(l.as_str()),
            None => None,
        };
        let format: Option<&str> = match &self.response_format {
            Some(l) => Some(l.as_str()),
            None => None,
        };
        push_opt_text(&mut form, "language", language);
        push_opt_text(&mut form, "response_format", format);
        push_opt_bool(&mut form, "spk", self.spk);
        push_opt_bool(&mut form, "tags", self.tags);
        let mut headers: Vec<(String, String)> = Vec::new();
        if let Some(k) = &self.api_key {
            headers.push(("Authorization".to_string(), authorization(k.as_str())));
        }
        assert(pairs_view(headers@) =~= key_header("Authorization"@, opt_view(self.api_key)));
        push_pairs(&mut headers, self.extra_headers.entries());
        AsrCall { url: concat(self.base_url.as_str(), self.path.as_str()), headers, form }
    }

    /// What an answer comes to: one final event with the text, or an error. `body` is the text
    /// of the answer or why it could not be read.
    pub fn result(&self, status: u16, body: Result<&str, &str>) -> (r: Result<AsrEvent, ClientError>)
        ensures
            !success_status(status) ==> r is Err && is_status_error(
                r->Err_0,
                status,
                match body {
                    Ok(b) => Some(b.spec_bytes()),
                    Err(_) => None,
                },
            ),
            success_status(status) ==> match body {
                Ok(b) => match extract_spec(b@, format_or_json(opt_view(self.response_format))) {
                    Ok(t) => r matches Ok(e) && e.text@ == t && e.is_final && e.language is None,
                    Err(m) => r matches Err(e) && e@ == ErrorView::Decode(m),
                },
                Err(m) => r matches Err(e) && e@ == ErrorView::Http(m@),
            },
    {
        if !(200 <= status && status < 300) {
            let text: Option<&str> = match body {
                Ok(b) => Some(b),
                Err(_) => None,
            };
            return Err(status_error(status, text));
        }
        let format: Option<&str> = match &self.response_format {
            Some(f) => Some(f.as_str()),
            None => None,
        };
        match body {
            Err(m) => Err(ClientError::Http(m.to_string())),
            Ok(b) => match extract_text(b, format) {
                Ok(text) => Ok(AsrEvent { text, is_final: true, language: None }),
                Err(e) => Err(e),
            },
        }
    }
}

/// A client for speech recognition as it is configured.
pub fn build_asr_client(cfg: &AsrConfig, provider: Option<&ProviderConfig>) -> (r: HttpAsrClient)
    ensures
        ({
            let p = resolve_spec(
                cfg.api_base@,
                cfg.api_key@,
                cfg.timeout_ms,
                cfg.headers@,
                provider_view(provider),
            );
            &&& r.base_url@ == p.api_base
            &&& opt_view(r.api_key) == crate::tts::some_text(p.api_key)
            &&& r.timeout_ms == p.timeout_ms
            &&& sent_of(r.extra_headers@, p.headers)
        }),
        r.path@ == "/audio/transcriptions"@,
        r.model@ == cfg.model@,
        opt_view(r.language) == opt_view(cfg.language),
        opt_view(r.response_format) == opt_view(cfg.response_format),
        r.spk == cfg.spk,
        r.tags == cfg.tags,
{
    let resolved = cfg.resolved(provider);
    let extra_headers = resolved.to_header_map();
    let timeout_ms: u64 = resolved.timeout();
    let api_key = if resolved.api_key.as_str().is_empty() { None } else { Some(resolved.api_key) };
    HttpAsrClient {
        base_url: resolved.api_base,
        path: "/audio/transcriptions".to_string(),
        api_key,
        extra_headers,
        timeout_ms,
        model: cfg.model.clone(),
        language: copy_opt(&cfg.language),
        response_format: copy_opt(&cfg.response_format),
        spk: cfg.spk,
        tags: cfg.tags,
    }
}

/// The form carries the recording as it is, once, under the name that the caller gave, and the
/// model that is to recognise it.
pub proof fn law_form_carries_the_recording(
    c: HttpAsrClient,
    filename: Option<Seq<char>>,
    audio: Seq<u8>,
)
    ensures
        ({
            let form = c.form_spec(filename, audio);
            &&& form.len() >= 2
            &&& form[0] == (FieldView::Text { name: "model"@, value: c.model@ })
            &&& form[1] matches FieldView::File { name, filename: f, data, .. } && name == "file"@
                && data == audio && (filename matches Some(given) ==> f == given)
            &&& forall|i: int| 0 <= i < form.len() && i != 1 ==> #[trigger] form[i] is Text
        }),
{
}

/// What is configured is asked for and nothing else is: the form has a field for the language, for
/// the format of the answer and for each of the two switches exactly where it is configured, with
/// the configured value.
pub proof fn law_form_asks_for_what_is_configured(
    c: HttpAsrClient,
    filename: Option<Seq<char>>,
    audio: Seq<u8>,
    value: Seq<char>,
)
    ensures
        ({
            let form = c.form_spec(filename, audio);
            let field = |name: Seq<char>| FieldView::Text { name, value };
            &&& form.contains(field("language"@)) <==> (value.len() > 0 && opt_view(c.language) == Some(
                value,
            ))
            &&& form.contains(field("response_format"@)) <==> (value.len() > 0 && opt_view(
                c.response_format,
            ) == Some(value))
            &&& form.contains(field("spk"@)) <==> (c.spk matches Some(b) && value == (if b {
                "true"@
            } else {
                "false"@
            }))
            &&& form.contains(field("tags"@)) <==> (c.tags matches Some(b) && value == (if b {
                "true"@
            } else {
                "false"@
            }))
        }),
{
    reveal_strlit("model");
    reveal_strlit("language");
    reveal_strlit("response_format");
    reveal_strlit("spk");
    reveal_strlit("tags");
    assert("model"@.len() == 5 && "language"@.len() == 8 && "response_format"@.len() == 15);
    assert("spk"@.len() == 3 && "tags"@.len() == 4);
    let form = c.form_spec(filename, audio);
    let name = HttpAsrClient::upload_name(filename);
    let head = seq![
        FieldView::Text { name: "model"@, value: c.model@ },
        FieldView::File { name: "file"@, filename: name, mime: audio_mime_spec(name), data: audio },
    ];
    let language = opt_text_field("language"@, opt_view(c.language));
    let format = opt_text_field("response_format"@, opt_view(c.response_format));
    let spk = opt_bool_field("spk"@, c.spk);
    let tags = opt_bool_field("tags"@, c.tags);
    let n1 = head.len() as int;
    let n2 = n1 + language.len();
    let n3 = n2 + format.len();
    let n4 = n3 + spk.len();
    if language.len() > 0 {
        assert(form[n1] == language[0]);
    }
    if format.len() > 0 {
        assert(form[n2] == format[0]);
    }
    if spk.len() > 0 {
        assert(form[n3] == spk[0]);
    }
    if tags.len() > 0 {
        assert(form[n4] == tags[0]);
    }
    assert forall|i: int| 0 <= i < form.len() implies (i < n1 && #[trigger] form[i] == head[i]) || (n1
        <= i < n2 && form[i] == language[i - n1]) || (n2 <= i < n3 && form[i] == format[i - n2]) || (n3
        <= i < n4 && form[i] == spk[i - n3]) || (n4 <= i && form[i] == tags[i - n4]) by {}
}

/// The ending of a file name decides its media type, whatever stands before it and in whatever
/// case it is written.
pub proof fn law_ending_decides_the_media_type(stem: Seq<char>, filename: Seq<char>)
    ensures
        lower_spec(filename) == stem + ".wav"@ ==> audio_mime_spec(filename) == "audio/wav"@,
        lower_spec(filename) == stem + ".mp3"@ ==> audio_mime_spec(filename) == "audio/mpeg"@,
        lower_spec(filename) == stem + ".flac"@ ==> audio_mime_spec(filename) == "audio/flac"@,
        lower_spec(filename) == stem + ".ogg"@ ==> audio_mime_spec(filename) == "audio/ogg"@,
        lower_spec(filename) == stem + ".m4a"@ ==> audio_mime_spec(filename) == "audio/mp4"@,
        lower_spec(filename) == stem + ".webm"@ ==> audio_mime_spec(filename) == "audio/webm"@,
{
    reveal_strlit(".wav");
    reveal_strlit(".mp3");
    reveal_strlit(".flac");
    reveal_strlit(".ogg");
    reveal_strlit(".m4a");
    reveal_strlit(".webm");
    let f = lower_spec(filename);
    assert(".wav"@.last() == 'v' && ".mp3"@.last() == '3' && ".flac"@.last() == 'c' && ".ogg"@.last()
        == 'g' && ".m4a"@.last() == 'a' && ".webm"@.last() == 'm');
    assert forall|e: Seq<char>| e.len() > 0 && #[trigger] e.is_suffix_of(f) implies f.last() == e.last() by {
        assert(f.subrange(f.len() - e.len(), f.len() as int).last() == f.last());
    }
    assert forall|e: Seq<char>| f == #[trigger] (stem + e) implies e.is_suffix_of(f) by {
        assert(f.subrange(f.len() - e.len(), f.len() as int) =~= e);
    }
    assert(f == stem + ".wav"@ ==> ".wav"@.is_suffix_of(f));
    assert(f == stem + ".mp3"@ ==> ".mp3"@.is_suffix_of(f));
    assert(f == stem + ".flac"@ ==> ".flac"@.is_suffix_of(f));
    assert(f == stem + ".ogg"@ ==> ".ogg"@.is_suffix_of(f));
    assert(f == stem + ".m4a"@ ==> ".m4a"@.is_suffix_of(f));
    assert(f == stem + ".webm"@ ==> ".webm"@.is_suffix_of(f));
}

/// An answer in plain text is the text, but for white space around it; a format that is not known
/// is refused by its name.
pub proof fn law_plain_answers_are_taken(body: Seq<char>, format: Seq<char>)
    ensures
        extract_spec(body, "text"@) == Ok::<Seq<char>, Seq<char>>(trim_spec(body)),
        format != "text"@ && format != "json"@ && format != "verbose_json"@ ==> (extract_spec(
            body,
            format,
        ) matches Err(m) && format.is_suffix_of(m)),
{
    let head = "unsupported response_format: "@;
    let m = head + format;
    assert(m.subrange(m.len() - format.len(), m.len() as int) =~= format);
}

/// The text of an answer in JSON is what was recognised, in the short form and in the long one.
pub proof fn law_recognised_text_is_taken(d: Seq<u8>, value: Seq<u8>, text: Seq<char>, verbose: bool)
    requires
        object_members(d) == Some(seq![RawMember { name: "text"@, value }]),
        value_of(value) == Some(NodeView::Text(text)),
    ensures
        document_text(d, verbose) == Some(text),
{
    reveal_strlit("text");
    reveal_strlit("language");
    reveal_strlit("duration");
    reveal_strlit("segments");
    assert("text"@.len() == 4 && "language"@.len() == 8 && "duration"@.len() == 8 && "segments"@.len()
        == 8);
    let ms = seq![RawMember { name: "text"@, value }];
    law_fields_are_found(ms, "text"@, 0, 0);
    law_fields_are_found(ms, "language"@, 0, 0);
    law_fields_are_found(ms, "duration"@, 0, 0);
    law_fields_are_found(ms, "segments"@, 0, 0);
    let names = answer_names(verbose);
    assert(field_in(ms, names[0]) == Some(Some(value)));
    assert(forall|i: int| 1 <= i < names.len() ==> field_in(ms, #[trigger] names[i]) == Some(
        None::<Seq<u8>>,
    ));
}

} // verus!

//! Errors of the upstream clients.

use vstd::prelude::*;
use vstd::string::StringSliceAdditionalSpecFns;
use vstd::string::to_string_from_display_ensures;
use vstd::utf8::encode_utf8;

use crate::json::{
    json_string, object_text, opt_text_member, plain_name, plain_names, raw_member, text_member,
    text_object, Member, ObjectWriter,
};
use crate::record::{
    closed_members, closed_value, field_optional_text, field_required_text, field_view, field_views,
    lemma_written_field, optional_text, read_record, reads_object, record_fields, required_text,
    str_views,
};
use crate::text::{decimal, decimal_of, opt_view};

verus! {

/// The error object of an OpenAI-compatible service.
#[derive(Debug, Clone)]
pub struct OpenAiError {
    /// What went wrong, for a human reader.
    pub message: String,
    /// The class of error, such as `invalid_request_error`.
    pub type_: Option<String>,
    /// The request field at fault.
    pub param: Option<String>,
    /// What went wrong, for a program.
    pub code: String,
}

/// Why a call to an upstream service failed.
#[derive(Debug)]
pub enum ClientError {
    Http(String),
    Io(String),
    Decode(String),
    /// The service answered with an error status and an error object.
    Api { status: u16, error: OpenAiError },
    /// The service answered with an error status and nothing that could be read.
    Status(u16),
    Ws(String),
    /// The request cannot be made with these parameters.
    Config(String),
}

/// What an error says.
pub ghost enum ErrorView {
    Http(Seq<char>),
    Io(Seq<char>),
    Decode(Seq<char>),
    Api {
        status: u16,
        message: Seq<char>,
        type_: Option<Seq<char>>,
        param: Option<Seq<char>>,
        code: Seq<char>,
    },
    Status(u16),
    Ws(Seq<char>),
    Config(Seq<char>),
}

impl View for ClientError {
    type V = ErrorView;

    open spec fn view(&self) -> ErrorView {
        match *self {
            ClientError::Http(m) => ErrorView::Http(m@),
            ClientError::Io(m) => ErrorView::Io(m@),
            ClientError::Decode(m) => ErrorView::Decode(m@),
            ClientError::Api { status, error } => ErrorView::Api {
                status,
                message: error.message@,
                type_: opt_view(error.type_),
                param: opt_view(error.param),
                code: error.code@,
            },
            ClientError::Status(c) => ErrorView::Status(c),
            ClientError::Ws(m) => ErrorView::Ws(m@),
            ClientError::Config(m) => ErrorView::Config(m@),
        }
    }
}

/// An error object as one line of text.
pub open spec fn openai_error_text(e: OpenAiError) -> Seq<char> {
    let head = "["@ + e.code@ + "] "@ + e.message@;
    match e.param {
        Some(p) => head + " (param="@ + p@ + ")"@,
        None => head,
    }
}

/// An error as one line of text.
pub open spec fn error_text(e: ClientError) -> Seq<char> {
    match e {
        ClientError::Http(m) => "http error: "@ + m@,
        ClientError::Io(m) => "io error: "@ + m@,
        ClientError::Decode(m) => "decode error: "@ + m@,
        ClientError::Api { status, error } => "api error: status="@ + decimal(status as nat) + ", "@
            + openai_error_text(error),
        ClientError::Status(c) => "service returned status "@ + decimal(c as nat),
        ClientError::Ws(m) => "ws error: "@ + m@,
        ClientError::Config(m) => "config error: "@ + m@,
    }
}

/// An error without its kind.
pub open spec fn short_error_text(e: ClientError) -> Seq<char> {
    match e {
        ClientError::Http(m) => m@,
        ClientError::Io(m) => m@,
        ClientError::Decode(m) => m@,
        ClientError::Ws(m) => m@,
        ClientError::Config(m) => m@,
        ClientError::Status(c) => decimal(c as nat),
        ClientError::Api { status, error } => decimal(status as nat) + ": "@ + openai_error_text(error),
    }
}

/// The members of an error object; what is not known is left out.
pub open spec fn openai_error_members(e: OpenAiError) -> Seq<Member> {
    text_member("code"@, e.code@) + text_member("message"@, e.message@) + opt_text_member(
        "param"@,
        opt_view(e.param),
    ) + opt_text_member("type"@, opt_view(e.type_))
}

/// The document that carries an error object.
pub open spec fn envelope_text(e: OpenAiError) -> Seq<char> {
    object_text(raw_member("error"@, object_text(openai_error_members(e))))
}

/// What an error object says.
pub ghost struct ErrorParts {
    pub message: Seq<char>,
    pub type_: Option<Seq<char>>,
    pub param: Option<Seq<char>>,
    pub code: Seq<char>,
}

impl View for OpenAiError {
    type V = ErrorParts;

    open spec fn view(&self) -> ErrorParts {
        ErrorParts {
            message: self.message@,
            type_: opt_view(self.type_),
            param: opt_view(self.param),
            code: self.code@,
        }
    }
}

/// The names of the fields of an error object, in their order.
pub open spec fn error_names() -> Seq<Seq<char>> {
    seq!["message"@, "type"@, "param"@, "code"@]
}

/// The error object that such fields make up: message and code are there, and nothing has a wrong
/// type.
pub open spec fn error_of(f: Seq<Option<Seq<u8>>>) -> Option<ErrorParts> {
    match (required_text(f[0]), optional_text(f[1]), optional_text(f[2]), required_text(f[3])) {
        (Some(message), Some(type_), Some(param), Some(code)) => Some(
            ErrorParts { message, type_, param, code },
        ),
        _ => None,
    }
}

/// The error object in a document that is a record of one.
pub open spec fn error_object(document: Seq<u8>) -> Option<ErrorParts> {
    match record_fields(document, seq!["error"@], 1) {
        Some(outer) => match outer[0] {
            Some(v) => match record_fields(v, error_names(), 4) {
                Some(f) => error_of(f),
                None => None,
            },
            None => None,
        },
        None => None,
    }
}

impl OpenAiError {
    /// The error as one line of text.
    pub fn to_string(&self) -> (r: String)
        ensures
            r@ == openai_error_text(*self),
    {
        let mut s: String = "[".to_string();
        s.append(self.code.as_str());
        s.append("] ");
        s.append(self.message.as_str());
        match &self.param {
            Some(p) => {
                s.append(" (param=");
                s.append(p.as_str());
                s.append(")");
            },
            None => {},
        }
        s
    }

    /// The error object as JSON.
    pub fn to_json(&self) -> (r: String)
        ensures
            r@ == object_text(openai_error_members(*self)),
    {
        let mut w = ObjectWriter::new();
        w.text("code", self.code.as_str());
        w.text("message", self.message.as_str());
        w.opt_text("param", &self.param);
        w.opt_text("type", &self.type_);
        assert(w@ =~= openai_error_members(*self));
        w.finish()
    }
}

/// The error object whose members were read as given; none where a member that must be there is
/// missing.
pub fn openai_error_from(
    message: Option<String>,
    type_: Option<Option<String>>,
    param: Option<Option<String>>,
    code: Option<String>,
) -> (r: Option<OpenAiError>)
    ensures
        r is Some <==> message is Some && type_ is Some && param is Some && code is Some,
        r is Some ==> {
            &&& r->0.message@ == message->0@
            &&& opt_view(r->0.type_) == opt_view(type_->0)
            &&& opt_view(r->0.param) == opt_view(param->0)
            &&& r->0.code@ == code->0@
        },
{
    match (message, type_, param, code) {
        (Some(message), Some(type_), Some(param), Some(code)) => Some(
            OpenAiError { message, type_, param, code },
        ),
        _ => None,
    }
}

/// The members of an error object as texts.
pub open spec fn error_pairs(e: OpenAiError) -> Seq<(Seq<char>, Seq<char>)> {
    seq![("code"@, e.code@), ("message"@, e.message@)] + (match e.param {
        Some(p) => seq![("param"@, p@)],
        None => Seq::empty(),
    }) + (match e.type_ {
        Some(t) => seq![("type"@, t@)],
        None => Seq::empty(),
    })
}

proof fn lemma_error_pairs(e: OpenAiError)
    ensures
        object_text(openai_error_members(e)) == text_object(error_pairs(e)),
        plain_name("error"@),
        plain_names(error_pairs(e)),
        ({
            let ms = openai_error_members(e);
            &&& forall|i: int, j: int|
                0 <= i < j < ms.len() ==> (#[trigger] ms[i]).name != (#[trigger] ms[j]).name
            &&& closed_members(ms)
            &&& ms.len() >= 2
            &&& ms[0] == Member { name: "code"@, value: json_string(e.code@) }
            &&& ms[1] == Member { name: "message"@, value: json_string(e.message@) }
            &&& e.param is Some ==> ms.len() >= 3 && ms[2] == Member {
                name: "param"@,
                value: json_string(e.param->0@),
            }
            &&& e.param is None ==> forall|i: int|
                0 <= i < ms.len() ==> (#[trigger] ms[i]).name != "param"@
            &&& e.type_ is Some ==> ms[ms.len() - 1] == Member {
                name: "type"@,
                value: json_string(e.type_->0@),
            }
            &&& e.type_ is None ==> forall|i: int|
                0 <= i < ms.len() ==> (#[trigger] ms[i]).name != "type"@
        }),
{
    reveal_strlit("error");
    reveal_strlit("code");
    reveal_strlit("message");
    reveal_strlit("param");
    reveal_strlit("type");
    assert("code"@[0] != "type"@[0]);
    assert("code"@.len() != "message"@.len());
    assert("code"@.len() != "param"@.len());
    assert("message"@.len() != "param"@.len());
    assert("message"@.len() != "type"@.len());
    assert("param"@.len() != "type"@.len());
    let pairs = error_pairs(e);
    let ms = openai_error_members(e);
    assert(ms =~= Seq::new(
        pairs.len(),
        |i: int| Member { name: pairs[i].0, value: json_string(pairs[i].1) },
    ));
    assert forall|i: int| 0 <= i < ms.len() implies plain_name((#[trigger] ms[i]).name)
        && closed_value(ms[i].value) by {
        assert(plain_name(pairs[i].0));
        assert(ms[i].value == json_string(pairs[i].1));
    }
}

/// The error object in a document that was written from one.
proof fn lemma_envelope(e: OpenAiError, d: Seq<u8>)
    requires
        d == encode_utf8(envelope_text(e)),
        reads_object(d),
    ensures
        record_fields(d, seq!["error"@], 1) == Some(
            seq![Some(encode_utf8(object_text(openai_error_members(e))))],
        ),
{
    lemma_error_pairs(e);
    let ms = raw_member("error"@, object_text(openai_error_members(e)));
    assert(closed_value(text_object(error_pairs(e))));
    assert(closed_members(ms));
    lemma_written_field(ms, "error"@);
    assert(ms[0].name == "error"@);
    assert(record_fields(d, seq!["error"@], 1)->0 =~= seq![
        Some(encode_utf8(object_text(openai_error_members(e)))),
    ]);
}

/// The fields of an error object that was written.
proof fn lemma_error_fields(e: OpenAiError, v: Seq<u8>)
    requires
        v == encode_utf8(object_text(openai_error_members(e))),
        reads_object(v),
    ensures
        record_fields(v, error_names(), 4) is Some,
        ({
            let f = record_fields(v, error_names(), 4)->0;
            &&& f.len() == 4
            &&& f[0] == Some(encode_utf8(json_string(e.message@)))
            &&& f[1] == (match e.type_ {
                Some(t) => Some(encode_utf8(json_string(t@))),
                None => None,
            })
            &&& f[2] == (match e.param {
                Some(p) => Some(encode_utf8(json_string(p@))),
                None => None,
            })
            &&& f[3] == Some(encode_utf8(json_string(e.code@)))
        }),
{
    lemma_error_pairs(e);
    let ms = openai_error_members(e);
    lemma_written_field(ms, "message"@);
    lemma_written_field(ms, "type"@);
    lemma_written_field(ms, "param"@);
    lemma_written_field(ms, "code"@);
    assert(ms[0].name == "code"@);
    assert(ms[1].name == "message"@);
    if e.type_ is Some {
        assert(ms[ms.len() - 1].name == "type"@);
    }
    if e.param is Some {
        assert(ms[2].name == "param"@);
    }
}

/// Reads an error object out of the body of an answer. Anything else is not an error object. The
/// document that `render_api_envelope` writes is read back.
pub fn parse_openai_error(body: &str) -> (r: Option<OpenAiError>)
    ensures
        match r {
            Some(e) => error_object(body.spec_bytes()) == Some(e@),
            None => error_object(body.spec_bytes()) is None,
        },
        forall|e: OpenAiError|
            body@ == #[trigger] envelope_text(e) ==> r is Some && r->0@ == e@,
{
    let bytes = body.as_bytes();
    let names: [&str; 1] = ["error"];
    let outer = read_record(bytes, &names, 1);
    proof {
        assert(str_views(names@) =~= seq!["error"@]);
        assert forall|e: OpenAiError| body@ == #[trigger] envelope_text(e) implies record_fields(
            bytes@,
            seq!["error"@],
            1,
        ) == Some(seq![Some(encode_utf8(object_text(openai_error_members(e))))]) by {
            lemma_envelope(e, bytes@);
        }
    }
    let outer = match outer {
        Some(f) => f,
        None => {
            return None;
        },
    };
    assert(field_views(outer@)[0] == field_view(outer@[0]));
    let inner = match &outer[0] {
        Some(v) => v,
        None => {
            return None;
        },
    };
    let names: [&str; 4] = ["message", "type", "param", "code"];
    let fields = read_record(inner.as_slice(), &names, 4);
    proof {
        assert(str_views(names@) =~= error_names());
        assert forall|e: OpenAiError| body@ == #[trigger] envelope_text(e) implies inner@
            == encode_utf8(object_text(openai_error_members(e))) && record_fields(
            inner@,
            error_names(),
            4,
        ) is Some by {
            lemma_error_fields(e, inner@);
        }
    }
    let f = match fields {
        Some(f) => f,
        None => {
            return None;
        },
    };
    let message = field_required_text(&f[0]);
    let type_ = field_optional_text(&f[1]);
    let param = field_optional_text(&f[2]);
    let code = field_required_text(&f[3]);
    proof {
        let v = field_views(f@);
        assert(v[0] == field_view(f@[0]));
        assert(v[1] == field_view(f@[1]));
        assert(v[2] == field_view(f@[2]));
        assert(v[3] == field_view(f@[3]));
        assert forall|e: OpenAiError| body@ == #[trigger] envelope_text(e) implies error_of(v)
            == Some(e@) by {
            lemma_error_fields(e, inner@);
        }
    }
    openai_error_from(message, type_, param, code)
}

impl ClientError {
    /// The error as one line of text.
    pub fn to_string(&self) -> (r: String)
        ensures
            r@ == error_text(*self),
    {
        match self {
            ClientError::Http(m) => crate::text::concat("http error: ", m.as_str()),
            ClientError::Io(m) => crate::text::concat("io error: ", m.as_str()),
            ClientError::Decode(m) => crate::text::concat("decode error: ", m.as_str()),
            ClientError::Api { status, error } => {
                let mut s: String = "api error: status=".to_string();
                s.append(decimal_of(*status as u64).as_str());
                s.append(", ");
                s.append(error.to_string().as_str());
                s
            },
            ClientError::Status(c) => crate::text::concat(
                "service returned status ",
                decimal_of(*c as u64).as_str(),
            ),
            ClientError::Ws(m) => crate::text::concat("ws error: ", m.as_str()),
            ClientError::Config(m) => crate::text::concat("config error: ", m.as_str()),
        }
    }

    /// The error without its kind.
    pub fn to_string_short(&self) -> (r: String)
        ensures
            r@ == short_error_text(*self),
    {
        match self {
            ClientError::Http(m) => m.clone(),
            ClientError::Io(m) => m.clone(),
            ClientError::Decode(m) => m.clone(),
            ClientError::Ws(m) => m.clone(),
            ClientError::Config(m) => m.clone(),
            ClientError::Status(c) => decimal_of(*c as u64),
            ClientError::Api { status, error } => {
                let mut s = decimal_of(*status as u64);
                s.append(": ");
                s.append(error.to_string().as_str());
                s
            },
        }
    }

    /// Status and body with which the error of the service can be passed on unchanged; none for
    /// an error that did not come as an error object.
    pub fn render_api_envelope(&self) -> (r: Option<(u16, String)>)
        ensures
            match *self {
                ClientError::Api { status, error } => r matches Some((s, body)) && s == status && body@
                    == envelope_text(error),
                _ => r is None,
            },
    {
        match self {
            ClientError::Api { status, error } => {
                let mut w = ObjectWriter::new();
                w.raw("error", error.to_json().as_str());
                assert(w@ =~= raw_member("error"@, object_text(openai_error_members(*error))));
                Some((*status, w.finish()))
            },
            _ => None,
        }
    }
}

/// An HTTP error with the text of `e`.
pub fn format_err<E: core::fmt::Display>(e: E) -> (r: ClientError)
    ensures
        r matches ClientError::Http(m) && to_string_from_display_ensures::<E>(&e, m),
{
    ClientError::Http(e.to_string())
}

/// Whether an HTTP status means success.
pub open spec fn success_status(status: u16) -> bool {
    200 <= status < 300
}

/// The error that an answer with an error status stands for: the error object in its body where
/// there is one, the bare status otherwise.
pub open spec fn is_status_error(e: ClientError, status: u16, body: Option<Seq<u8>>) -> bool {
    let error = match body {
        Some(b) => error_object(b),
        None => None,
    };
    match error {
        Some(parts) => e matches ClientError::Api { status: s, error } && s == status && error@
            == parts,
        None => e matches ClientError::Status(s) && s == status,
    }
}

/// The error that an answer with an error status stands for. `body` is missing where it could
/// not be read.
pub fn status_error(status: u16, body: Option<&str>) -> (r: ClientError)
    ensures
        is_status_error(
            r,
            status,
            match body {
                Some(b) => Some(b.spec_bytes()),
                None => None,
            },
        ),
{
    match body {
        Some(b) => status_error_from(status, parse_openai_error(b)),
        None => ClientError::Status(status),
    }
}

/// The error for a status and the error object, if there was one.
pub fn status_error_from(status: u16, error: Option<OpenAiError>) -> (r: ClientError)
    ensures
        error is Some ==> r == (ClientError::Api { status, error: error->0 }),
        error is None ==> r == ClientError::Status(status),
{
    match error {
        Some(error) => ClientError::Api { status, error },
        None => ClientError::Status(status),
    }
}

/// What the client of this server is answered when a call failed: an error object goes through
/// with its own status, anything else is an internal error with its text. A status outside
/// `100..=999` cannot be sent and becomes 500.
pub open spec fn response_spec(e: ClientError) -> (u16, Seq<char>) {
    match e {
        ClientError::Api { status, error } => (
            if 100 <= status <= 999 { status } else { 500 },
            envelope_text(error),
        ),
        _ => (500, error_text(e)),
    }
}

/// What the client of this server is answered when a call failed.
pub fn api_err_to_response(e: &ClientError) -> (r: (u16, String))
    ensures
        (r.0, r.1@) == response_spec(*e),
{
    match e.render_api_envelope() {
        Some((status, body)) => {
            let code: u16 = if 100 <= status && status <= 999 { status } else { 500 };
            (code, body)
        },
        None => (500, e.to_string()),
    }
}

/// An error of a service goes through with its own status where that can be sent; any other error
/// is an internal one, and its text says what happened.
pub proof fn law_errors_are_answered(e: ClientError)
    ensures
        e matches ClientError::Api { status, error } ==> response_spec(e).1 == envelope_text(error) && (
        100 <= status <= 999 ==> response_spec(e).0 == status) && (status < 100 || status > 999
            ==> response_spec(e).0 == 500),
        !(e is Api) ==> response_spec(e) == (500u16, error_text(e)),
        e matches ClientError::Http(m) ==> m@.is_suffix_of(error_text(e)) && short_error_text(e) == m@,
        e matches ClientError::Io(m) ==> m@.is_suffix_of(error_text(e)) && short_error_text(e) == m@,
        e matches ClientError::Decode(m) ==> m@.is_suffix_of(error_text(e)) && short_error_text(e)
            == m@,
        e matches ClientError::Ws(m) ==> m@.is_suffix_of(error_text(e)) && short_error_text(e) == m@,
        e matches ClientError::Config(m) ==> m@.is_suffix_of(error_text(e)) && short_error_text(e)
            == m@,
        e matches ClientError::Status(c) ==> decimal(c as nat).is_suffix_of(error_text(e)),
{
    let t = error_text(e);
    match e {
        ClientError::Http(m) => {
            assert(t.subrange(t.len() - m@.len(), t.len() as int) =~= m@);
        },
        ClientError::Io(m) => {
            assert(t.subrange(t.len() - m@.len(), t.len() as int) =~= m@);
        },
        ClientError::Decode(m) => {
            assert(t.subrange(t.len() - m@.len(), t.len() as int) =~= m@);
        },
        ClientError::Ws(m) => {
            assert(t.subrange(t.len() - m@.len(), t.len() as int) =~= m@);
        },
        ClientError::Config(m) => {
            assert(t.subrange(t.len() - m@.len(), t.len() as int) =~= m@);
        },
        ClientError::Status(c) => {
            let n = decimal(c as nat);
            assert(t.subrange(t.len() - n.len(), t.len() as int) =~= n);
        },
        _ => {},
    }
}

/// An answer with an error status keeps its status, whatever its body says.
pub proof fn law_status_is_kept(e: ClientError, status: u16, body: Option<Seq<u8>>)
    requires
        is_status_error(e, status, body),
    ensures
        e == ClientError::Status(status) || (e matches ClientError::Api { status: s, .. } && s == status),
        body is None ==> e == ClientError::Status(status),
{
}

/// A status means success where its first digit of three says so, and nowhere else.
pub proof fn law_success_is_in_the_first_digit(status: u16)
    ensures
        success_status(status) <==> status / 100 == 2,
{
}

} // verus!

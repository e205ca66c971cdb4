//! WebSocket handshakes.

use async_tungstenite::tungstenite::client::IntoClientRequest;
use vstd::prelude::*;

use crate::config::{authorization, authorization_spec};
use crate::error::{ClientError, ErrorView};
use crate::string_map::{
    check_header_value, header_name_ok, header_value_ok, read_header_name, sendable, StringMap,
};
use crate::text::{concat, opt_view};

verus! {

/// The scheme of an address that a handshake can go to, or the message with which the address is
/// rejected.
pub uninterp spec fn ws_address(url: Seq<char>) -> Result<Seq<char>, Seq<char>>;

/// The address is one that a handshake can go to, and this is its scheme.
pub open spec fn has_scheme(url: Seq<char>, scheme: Seq<char>) -> bool {
    match ws_address(url) {
        Ok(s) => s == scheme,
        Err(_) => false,
    }
}

pub open spec fn address_view(r: Result<String, String>) -> Result<Seq<char>, Seq<char>> {
    match r {
        Ok(s) => Ok(s@),
        Err(m) => Err(m@),
    }
}

/// `IntoClientRequest::into_client_request` of `tungstenite`: accepts or rejects the address of a
/// handshake. Which addresses are accepted, and the wording of a rejection, are left to it.
#[verifier::external_body]
fn check_address(url: &str) -> (r: Result<String, String>)
    ensures
        address_view(r) == ws_address(url@),
{
    match url.into_client_request() {
        Ok(request) => Ok(request.uri().scheme_str().unwrap_or("").to_string()),
        Err(e) => Err(e.to_string()),
    }
}

/// A handshake: where it goes and the headers that are set in it.
#[derive(Debug)]
pub struct HandshakeRequest {
    pub url: String,
    pub scheme: String,
    /// With names in lower case.
    pub headers: StringMap,
}

/// The headers of a handshake that asks for a subprotocol unless the caller's headers do.
pub open spec fn subprotocol_headers(
    protocol: Seq<char>,
    extra: Seq<(String, String)>,
) -> Map<Seq<char>, Seq<char>> {
    Map::empty().insert("sec-websocket-protocol"@, protocol).union_prefer_right(sendable(extra))
}

/// A handshake that asks for a subprotocol. What the caller adds wins, and what cannot be sent of
/// it is left out.
pub fn handshake_with_protocol(url: &str, protocol: &str, extra: &StringMap) -> (r: Result<
    HandshakeRequest,
    ClientError,
>)
    ensures
        match ws_address(url@) {
            Ok(scheme) => r matches Ok(h) && h.url@ == url@ && h.scheme@ == scheme && h.headers@
                == subprotocol_headers(protocol@, extra.entries_spec()),
            Err(m) => r matches Err(e) && e@ == ErrorView::Http("invalid ws url: "@ + m),
        },
{
    match check_address(url) {
        Err(m) => Err(ClientError::Http(concat("invalid ws url: ", m.as_str()))),
        Ok(scheme) => {
            let mut base = StringMap::new();
            base.insert("sec-websocket-protocol".to_string(), protocol.to_string());
            let sent = extra.to_headers();
            Ok(HandshakeRequest { url: url.to_string(), scheme, headers: base.merged(&sent) })
        },
    }
}

/// The first of the pairs that cannot be sent: its place.
pub open spec fn first_bad(pairs: Seq<(String, String)>, from: int) -> Option<int>
    decreases pairs.len() - from,
{
    if from < 0 || from >= pairs.len() {
        None
    } else if !header_name_ok(pairs[from].0@) || !header_value_ok(pairs[from].1@) {
        Some(from)
    } else {
        first_bad(pairs, from + 1)
    }
}

/// The headers of a handshake with a key: the key first, then the pairs, the later on top.
pub open spec fn keyed_headers(key: Option<Seq<char>>, pairs: Seq<(String, String)>) -> Map<
    Seq<char>,
    Seq<char>,
> {
    let base = match key {
        Some(k) => Map::empty().insert("authorization"@, authorization_spec(k)),
        None => Map::empty(),
    };
    base.union_prefer_right(sendable(pairs))
}

/// Why a handshake with a key cannot be made.
pub open spec fn keyed_failure(
    url: Seq<char>,
    key: Option<Seq<char>>,
    pairs: Seq<(String, String)>,
) -> Option<ErrorView> {
    match ws_address(url) {
        Err(m) => Some(ErrorView::Ws("invalid TTS WebSocket URL: "@ + m)),
        Ok(_) => if key is Some && !header_value_ok(authorization_spec(key->0)) {
            Some(ErrorView::Ws("invalid authorization: "@ + "failed to parse header value"@))
        } else {
            match first_bad(pairs, 0) {
                Some(i) => Some(
                    if !header_name_ok(pairs[i].0@) {
                        ErrorView::Ws("invalid header name: "@ + "invalid HTTP header name"@)
                    } else {
                        ErrorView::Ws("invalid header value: "@ + "failed to parse header value"@)
                    },
                ),
                None => None,
            }
        },
    }
}

/// A handshake with a key. Every header must be one that can be sent.
pub fn handshake_with_key(url: &str, key: &Option<String>, extra: &Vec<(String, String)>) -> (r: Result<
    HandshakeRequest,
    ClientError,
>)
    ensures
        match keyed_failure(url@, opt_view(*key), extra@) {
            Some(f) => r matches Err(e) && e@ == f,
            None => r matches Ok(h) && h.url@ == url@ && has_scheme(url@, h.scheme@) && h.headers@
                == keyed_headers(opt_view(*key), extra@),
        },
{
    let scheme = match check_address(url) {
        Ok(s) => s,
        Err(m) => {
            return Err(ClientError::Ws(concat("invalid TTS WebSocket URL: ", m.as_str())));
        },
    };
    let mut headers = StringMap::new();
    if let Some(k) = key {
        let value = authorization(k.as_str());
        if let Err(m) = check_header_value(value.as_str()) {
            return Err(ClientError::Ws(concat("invalid authorization: ", m.as_str())));
        }
        headers.insert("authorization".to_string(), value);
    }
    let ghost base = headers@;
    assert(base.union_prefer_right(sendable(extra@.take(0))) =~= base);
    for i in 0..extra.len()
        invariant
            headers@ =~= base.union_prefer_right(sendable(extra@.take(i as int))),
            ws_address(url@) is Ok,
            key is Some ==> header_value_ok(authorization_spec(key->0@)),
            first_bad(extra@, 0) == first_bad(extra@, i as int),
    {
        let (name, value) = &extra[i];
        proof {
            assert(extra@.take(i + 1).drop_last() =~= extra@.take(i as int));
        }
        match read_header_name(name.as_str()) {
            Err(m) => {
                return Err(ClientError::Ws(concat("invalid header name: ", m.as_str())));
            },
            Ok(lower) => {
                if let Err(m) = check_header_value(value.as_str()) {
                    return Err(ClientError::Ws(concat("invalid header value: ", m.as_str())));
                }
                headers.insert(lower, value.clone());
            },
        }
    }
    assert(extra@.take(extra@.len() as int) =~= extra@);
    Ok(HandshakeRequest { url: url.to_string(), scheme, headers })
}

/// What the caller adds to a handshake with a subprotocol is in it, whatever the default is.
pub proof fn law_callers_headers_win(protocol: Seq<char>, extra: Seq<(String, String)>, name: Seq<char>)
    requires
        sendable(extra).contains_key(name),
    ensures
        subprotocol_headers(protocol, extra).contains_key(name),
        subprotocol_headers(protocol, extra)[name] == sendable(extra)[name],
{
}

/// A handshake asks for the subprotocol where the caller does not ask for one, and a key is sent
/// where the caller sends no authorization of its own; whatever the caller adds is in it.
pub proof fn law_handshake_has_its_headers(
    protocol: Seq<char>,
    key: Seq<char>,
    extra: Seq<(String, String)>,
    name: Seq<char>,
)
    ensures
        !sendable(extra).contains_key("sec-websocket-protocol"@) ==> subprotocol_headers(
            protocol,
            extra,
        ).contains_key("sec-websocket-protocol"@) && subprotocol_headers(
            protocol,
            extra,
        )["sec-websocket-protocol"@] == protocol,
        !sendable(extra).contains_key("authorization"@) ==> keyed_headers(Some(key), extra).contains_key(
            "authorization"@,
        ) && keyed_headers(Some(key), extra)["authorization"@] == authorization_spec(key),
        sendable(extra).contains_key(name) ==> keyed_headers(Some(key), extra).contains_key(name)
            && keyed_headers(Some(key), extra)[name] == sendable(extra)[name],
        keyed_headers(None, extra) == sendable(extra),
{
    assert(keyed_headers(None, extra) =~= sendable(extra));
}

} // verus!

//! Base64 and lossy UTF-8, as the wire formats use them.

use base64::Engine;
use vstd::prelude::*;
use vstd::utf8::{decode_utf8, valid_utf8};

verus! {

/// The standard Base64 text of some bytes.
pub uninterp spec fn base64_text(bytes: Seq<u8>) -> Seq<char>;

/// The bytes that a standard Base64 text stands for, or the message with which it is rejected.
pub uninterp spec fn base64_bytes(text: Seq<char>) -> Result<Seq<u8>, Seq<char>>;

/// The text that lossy decoding makes of some bytes.
pub uninterp spec fn lossy_text(bytes: Seq<u8>) -> Seq<char>;

/// A text that stands for these bytes.
pub open spec fn decoded(bytes: Seq<u8>) -> Result<Seq<u8>, Seq<char>> {
    Ok(bytes)
}

/// `base64::engine::general_purpose::STANDARD.encode`: the Base64 text of the bytes. Decoding it
/// gives them back, and only nothing is written as nothing.
#[verifier::external_body]
fn encode_standard(bytes: &[u8]) -> (r: String)
    ensures
        r@ == base64_text(bytes@),
        base64_bytes(r@) == decoded(bytes@),
        r@.len() == 0 <==> bytes@.len() == 0,
{
    base64::engine::general_purpose::STANDARD.encode(bytes)
}

/// What decoding gives: the bytes, or the message of the rejection.
pub open spec fn decode_view(r: Result<Vec<u8>, String>) -> Result<Seq<u8>, Seq<char>> {
    match r {
        Ok(b) => Ok(b@),
        Err(m) => Err(m@),
    }
}

/// `base64::engine::general_purpose::STANDARD.decode`: the bytes that the text stands for. Which
/// texts are rejected, and the wording, are left to the `base64` crate; nothing stands for
/// nothing.
#[verifier::external_body]
fn decode_standard(text: &str) -> (r: Result<Vec<u8>, String>)
    ensures
        decode_view(r) == base64_bytes(text@),
        text@.len() == 0 ==> decode_view(r) == decoded(Seq::empty()),
{
    match base64::engine::general_purpose::STANDARD.decode(text) {
        Ok(b) => Ok(b),
        Err(e) => Err(e.to_string()),
    }
}

/// `String::from_utf8_lossy`: the text of the bytes where they are UTF-8. What stands for bytes
/// that are not is left to the standard library.
#[verifier::external_body]
fn decode_lossy(bytes: &[u8]) -> (r: String)
    ensures
        r@ == lossy_text(bytes@),
        valid_utf8(bytes@) ==> r@ == decode_utf8(bytes@),
{
    String::from_utf8_lossy(bytes).into_owned()
}

/// The Base64 text of `bytes`. Reading it back gives `bytes` again.
pub fn base64_encode(bytes: &[u8]) -> (r: String)
    ensures
        r@ == base64_text(bytes@),
        base64_bytes(r@) == decoded(bytes@),
        r@.len() == 0 <==> bytes@.len() == 0,
{
    encode_standard(bytes)
}

/// The bytes that `text` stands for.
pub fn base64_decode(text: &str) -> (r: Result<Vec<u8>, String>)
    ensures
        decode_view(r) == base64_bytes(text@),
        text@.len() == 0 ==> decode_view(r) == decoded(Seq::empty()),
{
    decode_standard(text)
}

/// The text of `bytes`, with a substitute for what is not UTF-8.
pub fn utf8_lossy(bytes: &[u8]) -> (r: String)
    ensures
        r@ == lossy_text(bytes@),
        valid_utf8(bytes@) ==> r@ == decode_utf8(bytes@),
{
    decode_lossy(bytes)
}

} // verus!

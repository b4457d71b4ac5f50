//! Body finalization: accumulated raw bytes are stored as a structured
//! (JSON) document when they parse as one, otherwise re-encoded as a base64
//! string with the transfer-encoding marker set.

use vstd::prelude::*;
use vstd::string::StringExecFns;

verus! {

/// A message body as a record stores it.
#[derive(Clone, Debug, PartialEq, Eq)]
pub enum BodyValue {
    /// No body (or an empty one): serialized as a null document.
    Unset,
    /// A body that parsed as a structured document, kept as its bytes.
    Json(Vec<u8>),
    /// A body that did not parse, re-encoded as a base64 string.
    Base64(String),
}

/// Whether a byte sequence parses as a structured (JSON) document.
pub uninterp spec fn parses_as_json(b: Seq<u8>) -> bool;

/// What standard base64 encoding yields for a byte sequence.
pub uninterp spec fn base64_of(b: Seq<u8>) -> Seq<char>;

/// Relies on serde_json::from_slice::<Value>: returns Ok exactly when the
/// bytes are one valid JSON document; the outcome depends on the bytes alone.
#[verifier::external_body]
fn json_parses(b: &Vec<u8>) -> (r: bool)
    ensures
        r == parses_as_json(b@),
{
    serde_json::from_slice::<serde_json::Value>(b).is_ok()
}

/// Relies on base64's standard engine: encodes with padding, four output
/// characters for every started group of three input bytes; panics only
/// when that length overflows usize, which the precondition rules out.
#[verifier::external_body]
fn base64_encode(b: &Vec<u8>) -> (r: String)
    requires
        b@.len() <= 3 * (usize::MAX as int / 4),
    ensures
        r@ == base64_of(b@),
        r@.len() == 4 * ((b@.len() + 2) / 3),
{
    base64::Engine::encode(&base64::engine::general_purpose::STANDARD, b)
}

/// How a finalized body and its transfer-encoding marker relate to the
/// accumulated bytes: parsed bytes are kept as they are with no marker,
/// anything else becomes base64 with the marker set.
pub open spec fn body_matches(body: BodyValue, te: Option<Seq<char>>, b: Seq<u8>) -> bool {
    if parses_as_json(b) {
        body matches BodyValue::Json(j) && j@ == b && te is None
    } else {
        body matches BodyValue::Base64(s) && s@ == base64_of(b) && te == Some("base64"@)
    }
}

/// The view of an optional string.
pub open spec fn opt_view(o: Option<String>) -> Option<Seq<char>> {
    match o {
        Some(s) => Some(s@),
        None => Option::<Seq<char>>::None,
    }
}

/// Finalizes accumulated body bytes: the parsed document when the bytes are
/// valid JSON, otherwise their base64 encoding with the marker `"base64"`.
pub fn encode_body(b: &Vec<u8>) -> (r: (BodyValue, Option<String>))
    requires
        b@.len() <= 3 * (usize::MAX as int / 4),
    ensures
        body_matches(r.0, opt_view(r.1), b@),
{
    if json_parses(b) {
        let copy = b.clone();
        proof {
            assert(copy@ =~= b@);
        }
        (BodyValue::Json(copy), None)
    } else {
        let s = base64_encode(b);
        (BodyValue::Base64(s), Some(String::from_str("base64")))
    }
}

} // verus!

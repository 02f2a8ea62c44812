//! Showing a token and signing it anew: the header and the payload of a
//! token as readable text, and a token signed with a recovered key.

use crate::session::ErrorType;
use crate::token::{base64url_decoding, decode_segment, header_of, parse, payload_of, well_formed};
use jsonwebtoken::{Algorithm, EncodingKey, Header};
use serde_json::Value;
use vstd::prelude::*;
use vstd::string::StringSliceAdditionalSpecFns;

verus! {

/// The header and the payload of a token, as text to show.
#[derive(Debug, Clone, PartialEq, Eq)]
pub struct DecodedToken {
    pub header: String,
    pub payload: String,
}

/// The keyed-hash algorithms that a token can be signed with.
#[derive(Debug, Clone, Copy, PartialEq, Eq, Structural)]
pub enum SigningAlgorithm {
    HS256,
    HS384,
    HS512,
}

/// The indented JSON text that `serde_json` prints for the JSON value that
/// `data` holds: `None` where `data` is no JSON text or cannot be printed.
pub uninterp spec fn json_pretty_text(data: Seq<u8>) -> Option<Seq<char>>;

/// What `String::from_utf8_lossy` makes of `data`: its text, with the
/// replacement character in place of what is no UTF-8.
pub uninterp spec fn utf8_lossy_text(data: Seq<u8>) -> Seq<char>;

/// What `serde_json` makes of `text` and of the member `key` of the value
/// that it holds: `None` where `text` is no JSON text, `Some(None)` where
/// the value is no object, has no such member, or the member is no string,
/// and else the member's text.
pub uninterp spec fn json_member_text(text: Seq<char>, key: Seq<char>) -> Option<
    Option<Seq<char>>,
>;

/// Whether `serde_json` reads `text` as a JSON value.
pub uninterp spec fn is_json_text(text: Seq<char>) -> bool;

/// `serde_json::from_slice` into a JSON value, then
/// `serde_json::to_string_pretty` of that value.
#[verifier::external_body]
fn json_pretty(data: &[u8]) -> (text: Option<String>)
    ensures
        match text {
            Some(t) => json_pretty_text(data@) == Some(t@),
            None => json_pretty_text(data@) is None,
        },
{
    let value: Option<Value> = serde_json::from_slice(data).ok();
    value.and_then(|v| serde_json::to_string_pretty(&v).ok())
}

/// `String::from_utf8_lossy`, as an owned string.
#[verifier::external_body]
fn utf8_lossy(data: &[u8]) -> (text: String)
    ensures
        text@ == utf8_lossy_text(data@),
{
    String::from_utf8_lossy(data).into_owned()
}

/// `serde_json::from_str` into a JSON value, then the value's member `key`
/// by `Index`, which gives null where there is none, and `Value::as_str` of
/// it.
#[verifier::external_body]
fn json_member(text: &str, key: &str) -> (member: Option<Option<String>>)
    ensures
        match member {
            Some(Some(m)) => json_member_text(text@, key@) == Some(Some(m@)),
            Some(None) => json_member_text(text@, key@) == Some(None::<Seq<char>>),
            None => json_member_text(text@, key@) is None,
        },
{
    let value: Option<Value> = serde_json::from_str(text).ok();
    value.map(|v| v[key].as_str().map(String::from))
}

/// `serde_json::from_str` into a JSON value: whether it succeeds.
#[verifier::external_body]
fn is_json(text: &str) -> (valid: bool)
    ensures
        valid == is_json_text(text@),
{
    serde_json::from_str::<Value>(text).is_ok()
}

/// `jsonwebtoken::encode` with a header made by `Header::new` for the
/// algorithm, its type set to `typ`, the JSON value of `payload` as the
/// claims, and a key made by `EncodingKey::from_secret`. `None` where the
/// payload is no JSON text or the crate reports an error. The crate signs
/// with the crypto provider of the process, so nothing is promised of the
/// token.
#[verifier::external_body]
fn sign_token(
    algorithm: SigningAlgorithm,
    typ: Option<String>,
    payload: &str,
    secret: &[u8],
) -> Option<String> {
    let mut header = Header::new(
        match algorithm {
            SigningAlgorithm::HS256 => Algorithm::HS256,
            SigningAlgorithm::HS384 => Algorithm::HS384,
            SigningAlgorithm::HS512 => Algorithm::HS512,
        },
    );
    header.typ = typ;
    let claims: Value = serde_json::from_str(payload).ok()?;
    jsonwebtoken::encode(&header, &claims, &EncodingKey::from_secret(secret)).ok()
}

/// The text to show for decoded bytes: indented JSON where they hold JSON,
/// and else their text as far as it is UTF-8.
pub open spec fn display_text(data: Seq<u8>) -> Seq<char> {
    match json_pretty_text(data) {
        Some(text) => text,
        None => utf8_lossy_text(data),
    }
}

/// The algorithm that a header's member `alg` names; HS256 where the header
/// names none.
pub open spec fn algorithm_named(name: Option<Seq<char>>) -> Option<SigningAlgorithm> {
    match name {
        None => Some(SigningAlgorithm::HS256),
        Some(text) => if text == "HS256"@ {
            Some(SigningAlgorithm::HS256)
        } else if text == "HS384"@ {
            Some(SigningAlgorithm::HS384)
        } else if text == "HS512"@ {
            Some(SigningAlgorithm::HS512)
        } else {
            None
        },
    }
}

/// Whether a token can be shown: it is well formed, and its header and
/// payload segments are base64 text.
pub open spec fn decodable(token: Seq<u8>) -> bool {
    &&& well_formed(token)
    &&& base64url_decoding(header_of(token)) is Ok
    &&& base64url_decoding(payload_of(token)) is Ok
}

/// The text to show for decoded bytes.
fn display(data: &[u8]) -> (text: String)
    ensures
        text@ == display_text(data@),
{
    match json_pretty(data) {
        Some(text) => text,
        None => utf8_lossy(data),
    }
}

/// Whether `name` is the text `literal`.
fn is_text(name: &String, literal: &str) -> (same: bool)
    ensures
        same == (name@ == literal@),
{
    let other = literal.to_owned();
    *name == other
}

/// The algorithm that the member `alg` of a header names.
pub fn algorithm_of(name: &Option<String>) -> (algorithm: Option<SigningAlgorithm>)
    ensures
        algorithm == algorithm_named(
            match name {
                Some(text) => Some(text@),
                None => None,
            },
        ),
{
    match name {
        None => Some(SigningAlgorithm::HS256),
        Some(text) => {
            if is_text(text, "HS256") {
                Some(SigningAlgorithm::HS256)
            } else if is_text(text, "HS384") {
                Some(SigningAlgorithm::HS384)
            } else if is_text(text, "HS512") {
                Some(SigningAlgorithm::HS512)
            } else {
                None
            }
        },
    }
}

/// Decodes the header and the payload of a token into text to show.
///
/// Fails with `JwtTokenFormatError` exactly where the token is not made of
/// three segments or its header or payload segment is no base64 text.
pub fn decode_jwt(token: &str) -> (r: Result<DecodedToken, ErrorType>)
    ensures
        match r {
            Ok(shown) => {
                &&& decodable(token.spec_bytes())
                &&& shown.header@ == display_text(
                    base64url_decoding(header_of(token.spec_bytes()))->Ok_0,
                )
                &&& shown.payload@ == display_text(
                    base64url_decoding(payload_of(token.spec_bytes()))->Ok_0,
                )
            },
            Err(reason) => reason == ErrorType::JwtTokenFormatError && !decodable(
                token.spec_bytes(),
            ),
        },
{
    let parts = match parse(token) {
        Ok(parts) => parts,
        Err(_) => {
            return Err(ErrorType::JwtTokenFormatError);
        },
    };
    let header = decode_segment(parts.header);
    let payload = decode_segment(parts.payload);
    match (header, payload) {
        (Ok(header), Ok(payload)) => Ok(
            DecodedToken {
                header: display(header.as_slice()),
                payload: display(payload.as_slice()),
            },
        ),
        _ => Err(ErrorType::JwtTokenFormatError),
    }
}

/// What stands in the way of signing a header and a payload: nothing where
/// both are JSON text and the header names a known algorithm or none.
pub open spec fn signing_obstacle(header: Seq<char>, payload: Seq<char>) -> Option<ErrorType> {
    match (json_member_text(header, "alg"@), json_member_text(header, "typ"@)) {
        (Some(alg), Some(_)) => if !is_json_text(payload) {
            Some(ErrorType::InputJSONFormatError)
        } else if algorithm_named(alg) is None {
            Some(ErrorType::UnknownAlgorithmType)
        } else {
            None
        },
        _ => Some(ErrorType::InputJSONFormatError),
    }
}

/// The outcome of signing once the signer has answered: its token, or
/// `SignJWTFailed` where it gave none.
pub fn signed_or_failed(token: Option<String>) -> (r: Result<String, ErrorType>)
    ensures
        match token {
            Some(t) => r == Ok::<String, ErrorType>(t),
            None => r == Err::<String, ErrorType>(ErrorType::SignJWTFailed),
        },
{
    match token {
        Some(t) => Ok(t),
        None => Err(ErrorType::SignJWTFailed),
    }
}

/// Signs a header and a payload, given as JSON text, with `key`.
///
/// Fails with `InputJSONFormatError` exactly where the header or the payload
/// is no JSON text, and else with `UnknownAlgorithmType` exactly where the
/// header's `alg` is a text other than HS256, HS384 and HS512. Else the
/// signer decides: its token, or `SignJWTFailed`.
pub fn encode_jwt(header: &str, payload: &str, key: &str) -> (r: Result<String, ErrorType>)
    ensures
        match signing_obstacle(header@, payload@) {
            Some(reason) => r == Err::<String, ErrorType>(reason),
            None => r is Ok || r == Err::<String, ErrorType>(ErrorType::SignJWTFailed),
        },
{
    let alg = match json_member(header, "alg") {
        Some(alg) => alg,
        None => {
            return Err(ErrorType::InputJSONFormatError);
        },
    };
    let typ = match json_member(header, "typ") {
        Some(typ) => typ,
        None => {
            return Err(ErrorType::InputJSONFormatError);
        },
    };
    if !is_json(payload) {
        return Err(ErrorType::InputJSONFormatError);
    }
    let algorithm = match algorithm_of(&alg) {
        Some(algorithm) => algorithm,
        None => {
            return Err(ErrorType::UnknownAlgorithmType);
        },
    };
    signed_or_failed(sign_token(algorithm, typ, payload, key.as_bytes()))
}

} // verus!

//! The signature verifier: whether a candidate key signs a token, and the
//! payload that a correctly signed token carries.

use crate::token::{
    base64url_decoding, base64url_encoding, decode_segment, dots_at, encode_segment, header_of,
    lemma_dots_unique, parse_bytes, payload_of, signature_of, signing_input_of, well_formed,
    Segments,
};
use hmac::{Hmac, KeyInit, Mac};
use serde_json::Value;
use sha2::Sha256;
use std::collections::HashMap;
use std::time::{SystemTime, UNIX_EPOCH};
use vstd::prelude::*;
use vstd::slice::slice_subrange;
use vstd::string::StringSliceAdditionalSpecFns;

verus! {

/// The expiry claim of a payload: what its member `exp` says of the time, in
/// seconds since the epoch, from which the token is stale.
#[derive(Debug, Clone, Copy, PartialEq, Eq, Structural)]
pub enum Expiry {
    /// The payload has no member `exp`, or the member is no number.
    Absent,
    /// The member is a whole number from 0 to 2^64-1.
    At(u64),
    /// The member is a number below zero: the token is stale at every time.
    BeforeEpoch,
    /// The member is another number, one with a fraction or beyond 64 bits.
    /// The field is its whole part, and 2^64-1 where that is larger.
    Within(u64),
}

/// The payload of a verified token: the JSON text that the payload segment
/// encodes, and the expiry claim read from it.
#[derive(Debug, Clone)]
pub struct Claims {
    /// The decoded payload: the text of a JSON object.
    pub json: Vec<u8>,
    /// The expiry claim of that object.
    pub exp: Expiry,
}

impl View for Claims {
    type V = (Seq<u8>, Expiry);

    open spec fn view(&self) -> (Seq<u8>, Expiry) {
        (self.json@, self.exp)
    }
}

/// The view of an optional payload.
pub open spec fn claims_view(claims: Option<Claims>) -> Option<(Seq<u8>, Expiry)> {
    match claims {
        Some(c) => Some(c@),
        None => None,
    }
}

/// The HMAC-SHA256 authentication code of `message` under `key`, as the
/// `hmac` and `sha2` crates compute it.
pub uninterp spec fn hmac_sha256_mac(key: Seq<u8>, message: Seq<u8>) -> Seq<u8>;

/// What `serde_json` makes of `text` read as a JSON object and of its member
/// `key`: `None` where `text` is no JSON object, `Some(None)` where the
/// object has no such member or the member is no integer from 0 to 2^64-1,
/// and else that integer.
pub uninterp spec fn json_object_member_u64(text: Seq<u8>, key: Seq<char>) -> Option<Option<u64>>;

/// What `serde_json` makes of `text` read as a JSON object and of its member
/// `key`: `None` where `text` is no JSON object, `Some(None)` where the
/// object has no such member or the member is no integer from -2^63 to
/// 2^63-1, and else that integer.
pub uninterp spec fn json_object_member_i64(text: Seq<u8>, key: Seq<char>) -> Option<Option<i64>>;

/// What `serde_json` makes of `text` read as a JSON object and of its member
/// `key`: `None` where `text` is no JSON object, `Some(None)` where the
/// object has no such member or the member is no number, and else the
/// largest whole number that is not above the member read as a 64-bit float,
/// or the nearest 128-bit integer where that lies beyond 128 bits.
pub uninterp spec fn json_object_member_whole(text: Seq<u8>, key: Seq<char>) -> Option<
    Option<i128>,
>;

/// `Hmac::<Sha256>::new_from_slice`, `update` and `finalize` of the `hmac`
/// crate: the result is the authentication code of `message` under `key`.
/// The crate takes a key of any length, and SHA-256 gives 32 bytes.
#[verifier::external_body]
fn hmac_sha256(key: &[u8], message: &[u8]) -> (mac: Vec<u8>)
    ensures
        mac@ == hmac_sha256_mac(key@, message@),
        mac@.len() == 32,
{
    let mut mac = Hmac::<Sha256>::new_from_slice(key).expect("HMAC takes a key of any length");
    mac.update(message);
    mac.finalize().into_bytes().to_vec()
}

/// `serde_json::from_slice` into a map from strings to JSON values, then
/// `Value::as_u64` on the member `key` of that map.
#[verifier::external_body]
fn json_object_u64(text: &[u8], key: &str) -> (r: Option<Option<u64>>)
    ensures
        r == json_object_member_u64(text@, key@),
{
    let object: Option<HashMap<String, Value>> = serde_json::from_slice(text).ok();
    object.map(|members| members.get(key).and_then(Value::as_u64))
}

/// `serde_json::from_slice` into a map from strings to JSON values, then
/// `Value::as_i64` on the member `key` of that map.
#[verifier::external_body]
fn json_object_i64(text: &[u8], key: &str) -> (r: Option<Option<i64>>)
    ensures
        r == json_object_member_i64(text@, key@),
{
    let object: Option<HashMap<String, Value>> = serde_json::from_slice(text).ok();
    object.map(|members| members.get(key).and_then(Value::as_i64))
}

/// `serde_json::from_slice` into a map from strings to JSON values, then
/// `Value::as_f64` on the member `key` of that map, rounded down and cast to
/// an integer, which keeps the order of the number against every whole
/// number of seconds.
#[verifier::external_body]
fn json_object_whole(text: &[u8], key: &str) -> (r: Option<Option<i128>>)
    ensures
        r == json_object_member_whole(text@, key@),
{
    let object: Option<HashMap<String, Value>> = serde_json::from_slice(text).ok();
    object.map(|members| members.get(key).and_then(Value::as_f64).map(|x| x.floor() as i128))
}

/// `SystemTime::now`, as whole seconds since the Unix epoch; `None` where
/// the clock stands before the epoch. Nothing is promised of a clock.
#[verifier::external_body]
fn unix_time() -> Option<u64> {
    SystemTime::now().duration_since(UNIX_EPOCH).ok().map(|since| since.as_secs())
}

/// The signature that `key` gives a well-formed token: the base64 text of
/// the authentication code of its signing input.
pub open spec fn expected_signature(token: Seq<u8>, key: Seq<u8>) -> Seq<u8> {
    base64url_encoding(hmac_sha256_mac(key, signing_input_of(token)))
}

/// The token is well formed and carries the signature that `key` gives it,
/// byte for byte.
pub open spec fn signed_with(token: Seq<u8>, key: Seq<u8>) -> bool {
    well_formed(token) && signature_of(token) == expected_signature(token, key)
}

/// The claim that the three readings of a member give: the unsigned
/// integer where there is one; else the signed integer, which lies below
/// zero; else the whole part of any other number, told apart by its sign;
/// and no claim where the member is no number.
pub open spec fn expiry_claim(unsigned: Option<u64>, signed: Option<i64>, whole: Option<i128>) -> Expiry {
    match unsigned {
        Some(at) => Expiry::At(at),
        None => match signed {
            Some(at) => if at < 0 {
                Expiry::BeforeEpoch
            } else {
                Expiry::At(at as u64)
            },
            None => match whole {
                Some(part) => if part < 0 {
                    Expiry::BeforeEpoch
                } else if part > u64::MAX {
                    Expiry::Within(u64::MAX)
                } else {
                    Expiry::Within(part as u64)
                },
                None => Expiry::Absent,
            },
        },
    }
}

/// The reading of a member, or none where the text is no JSON object.
pub open spec fn member_of<T>(reading: Option<Option<T>>) -> Option<T> {
    match reading {
        Some(member) => member,
        None => None,
    }
}

/// The expiry claim of a JSON object; `None` where the text is no JSON
/// object.
pub open spec fn expiry_of(json: Seq<u8>) -> Option<Expiry> {
    match json_object_member_u64(json, "exp"@) {
        None => None,
        Some(unsigned) => Some(
            expiry_claim(
                unsigned,
                member_of(json_object_member_i64(json, "exp"@)),
                member_of(json_object_member_whole(json, "exp"@)),
            ),
        ),
    }
}

/// The payload of a token that `key` signs: the decoded payload segment and
/// its expiry claim. `None` where the signature is another, the payload
/// segment is no base64 text, or what it encodes is no JSON object.
pub open spec fn signed_payload(token: Seq<u8>, key: Seq<u8>) -> Option<(Seq<u8>, Expiry)> {
    if !signed_with(token, key) {
        None
    } else {
        match base64url_decoding(payload_of(token)) {
            Err(_) => None,
            Ok(json) => match expiry_of(json) {
                None => None,
                Some(exp) => Some((json, exp)),
            },
        }
    }
}

/// The claim's number lies strictly below `now`.
pub open spec fn expired(exp: Expiry, now: u64) -> bool {
    match exp {
        Expiry::Absent => false,
        Expiry::At(at) => at < now,
        Expiry::BeforeEpoch => true,
        Expiry::Within(part) => part < now,
    }
}

/// What verifying a token with `key` at the time `now` gives: the payload
/// of a token that `key` signs, unless it has expired.
pub open spec fn verified_payload(token: Seq<u8>, key: Seq<u8>, now: u64) -> Option<
    (Seq<u8>, Expiry),
> {
    match signed_payload(token, key) {
        Some(claims) => if expired(claims.1, now) {
            None
        } else {
            Some(claims)
        },
        None => None,
    }
}

/// The key signs the token and the payload is a JSON object: the token
/// verifies at some time, unless its claim lies below zero.
pub open spec fn may_verify(token: Seq<u8>, key: Seq<u8>) -> bool {
    signed_payload(token, key) matches Some(claims) && claims.1 != Expiry::BeforeEpoch
}

/// The key signs the token, the payload is a JSON object, and its claim is
/// stale at no time: the token verifies at every time.
pub open spec fn always_verifies(token: Seq<u8>, key: Seq<u8>) -> bool {
    signed_payload(token, key) matches Some(claims) && !expired(claims.1, u64::MAX)
}

/// A claim that is stale at some time is stale at every later time.
pub proof fn lemma_expired_for_good(exp: Expiry, earlier: u64, later: u64)
    requires
        earlier <= later,
        expired(exp, earlier),
    ensures
        expired(exp, later),
{
}

/// A token verifies exactly when the key signs it, its payload is a JSON
/// object, and no expiry claim lies before `now`; it then gives its
/// payload.
pub proof fn lemma_verified_iff(token: Seq<u8>, key: Seq<u8>, now: u64)
    ensures
        verified_payload(token, key, now) is Some <==> (signed_payload(token, key) matches Some(
            claims,
        ) && !expired(claims.1, now)),
        verified_payload(token, key, now) is Some ==> verified_payload(token, key, now)
            == signed_payload(token, key),
{
}

/// A signature that differs from the expected one, be it in one byte,
/// verifies at no time.
pub proof fn lemma_wrong_signature_rejected(token: Seq<u8>, key: Seq<u8>, now: u64)
    requires
        !well_formed(token) || signature_of(token) != expected_signature(token, key),
    ensures
        verified_payload(token, key, now) is None,
{
}

/// A token whose expiry claim lies strictly before `now` does not verify,
/// whatever its signature.
pub proof fn lemma_expired_rejected(token: Seq<u8>, key: Seq<u8>, now: u64)
    requires
        signed_payload(token, key) matches Some(claims) ==> expired(claims.1, now),
    ensures
        verified_payload(token, key, now) is None,
{
}

/// Whether two byte strings are the same, byte for byte.
pub fn same_bytes(a: &[u8], b: &[u8]) -> (same: bool)
    ensures
        same <==> a@ == b@,
{
    if a.len() != b.len() {
        return false;
    }
    let mut at: usize = 0;
    while at < a.len()
        invariant
            a@.len() == b@.len(),
            at <= a@.len(),
            forall|k: int| 0 <= k < at ==> a@[k] == b@[k],
        decreases a@.len() - at,
    {
        if a[at] != b[at] {
            return false;
        }
        at += 1;
    }
    assert(a@ =~= b@);
    true
}

/// Whether `key` signs the token: whether the token is well formed and its
/// signature segment is the base64 text of the HMAC-SHA256 code of its
/// header segment, a dot and its payload segment under `key`.
pub fn signature_matches(token: &[u8], key: &[u8]) -> (matches: bool)
    ensures
        matches == signed_with(token@, key@),
{
    match parse_bytes(token) {
        Err(_) => false,
        Ok(parts) => mac_matches(token, &parts, key),
    }
}

/// Compares the signature segment with the signature that `key` gives.
fn mac_matches(token: &[u8], parts: &Segments<'_>, key: &[u8]) -> (matches: bool)
    requires
        well_formed(token@),
        parts.header@ == header_of(token@),
        parts.payload@ == payload_of(token@),
        parts.signature@ == signature_of(token@),
    ensures
        matches == signed_with(token@, key@),
{
    let token_len: usize = token.len();
    let header_len: usize = parts.header.len();
    let payload_len: usize = parts.payload.len();
    proof {
        let (first, second) = choose|first: int, second: int| dots_at(token@, first, second);
        lemma_dots_unique(token@, first, second);
        assert(header_len == first);
        assert(payload_len == second - first - 1);
        assert(second < token_len);
    }
    let signed_len: usize = header_len + 1 + payload_len;
    let signing_input = slice_subrange(token, 0, signed_len);
    let mac = hmac_sha256(key, signing_input);
    let expected = encode_segment(mac.as_slice());
    same_bytes(expected.as_slice(), parts.signature)
}

/// The payload of the token if `key` signs it, whatever its expiry claim.
pub fn signed_claims(token: &str, secret_key: &str) -> (r: Option<Claims>)
    ensures
        claims_view(r) == signed_payload(token.spec_bytes(), secret_key.spec_bytes()),
{
    let text = token.as_bytes();
    let key = secret_key.as_bytes();
    let parts = match parse_bytes(text) {
        Ok(parts) => parts,
        Err(_) => {
            return None;
        },
    };
    if !mac_matches(text, &parts, key) {
        return None;
    }
    let json = match decode_segment(parts.payload) {
        Ok(json) => json,
        Err(_) => {
            return None;
        },
    };
    match read_expiry(json.as_slice()) {
        None => None,
        Some(exp) => Some(Claims { json, exp }),
    }
}

/// The claim that the three readings of the member `exp` give.
pub fn claim_of(unsigned: Option<u64>, signed: Option<i64>, whole: Option<i128>) -> (exp: Expiry)
    ensures
        exp == expiry_claim(unsigned, signed, whole),
{
    if let Some(at) = unsigned {
        return Expiry::At(at);
    }
    if let Some(at) = signed {
        return if at < 0 {
            Expiry::BeforeEpoch
        } else {
            Expiry::At(at as u64)
        };
    }
    match whole {
        Some(part) => {
            if part < 0 {
                Expiry::BeforeEpoch
            } else if part > u64::MAX as i128 {
                Expiry::Within(u64::MAX)
            } else {
                Expiry::Within(part as u64)
            }
        },
        None => Expiry::Absent,
    }
}

/// Reads the expiry claim of a JSON object: as an unsigned integer, and
/// where it is none, as a signed integer and as any number.
fn read_expiry(json: &[u8]) -> (r: Option<Expiry>)
    ensures
        r == expiry_of(json@),
{
    match json_object_u64(json, "exp") {
        None => None,
        Some(Some(at)) => Some(claim_of(Some(at), None, None)),
        Some(None) => {
            let signed = match json_object_i64(json, "exp") {
                Some(member) => member,
                None => None,
            };
            let whole = match json_object_whole(json, "exp") {
                Some(member) => member,
                None => None,
            };
            Some(claim_of(None, signed, whole))
        },
    }
}

/// Keeps the payload unless the number of its expiry claim lies strictly
/// below `now`.
pub fn unless_expired(claims: Claims, now: u64) -> (r: Option<Claims>)
    ensures
        r is Some <==> !expired(claims.exp, now),
        r matches Some(kept) ==> kept == claims,
{
    let stale = match claims.exp {
        Expiry::Absent => false,
        Expiry::At(at) => at < now,
        Expiry::BeforeEpoch => true,
        Expiry::Within(part) => part < now,
    };
    if stale {
        None
    } else {
        Some(claims)
    }
}

/// Verifies the token with `secret_key` at the time `now`, in seconds since
/// the epoch.
///
/// Returns the payload exactly when the key signs the token, the payload is
/// a JSON object, and the payload's expiry claim, if it has one, does not
/// lie before `now`.
pub fn verify_at(token: &str, secret_key: &str, now: u64) -> (r: Option<Claims>)
    ensures
        claims_view(r) == verified_payload(token.spec_bytes(), secret_key.spec_bytes(), now),
{
    match signed_claims(token, secret_key) {
        None => None,
        Some(claims) => unless_expired(claims, now),
    }
}

/// Verifies the token with `secret_key` at the present time.
///
/// A token that the key does not sign, or whose payload is no JSON object,
/// gives `None`, and so does one whose expiry claim lies below zero. A
/// signed token whose claim is stale at no time gives its payload. For any
/// other claim the clock decides, as `verify_at` states it for the time that
/// the clock shows; a clock that stands before the epoch counts as the
/// epoch.
pub fn verify_jwt_hs256_token(token: &str, secret_key: &str) -> (r: Option<Claims>)
    ensures
        exists|now: u64|
            claims_view(r) == #[trigger] verified_payload(
                token.spec_bytes(),
                secret_key.spec_bytes(),
                now,
            ),
        !may_verify(token.spec_bytes(), secret_key.spec_bytes()) ==> r is None,
        always_verifies(token.spec_bytes(), secret_key.spec_bytes()) ==> r is Some,
        r is Some ==> claims_view(r) == signed_payload(
            token.spec_bytes(),
            secret_key.spec_bytes(),
        ),
{
    let ghost text = token.spec_bytes();
    let ghost key = secret_key.spec_bytes();
    match signed_claims(token, secret_key) {
        None => {
            assert(claims_view(None) == verified_payload(text, key, 0));
            None
        },
        Some(claims) => {
            let now: u64 = match claims.exp {
                Expiry::Absent => 0,
                Expiry::BeforeEpoch => 0,
                _ => match unix_time() {
                    Some(now) => now,
                    None => 0,
                },
            };
            let kept = unless_expired(claims, now);
            assert(claims_view(kept) == verified_payload(text, key, now));
            kept
        },
    }
}

} // verus!

use jwt_cracker::jwt::{
    algorithm_of, decode_jwt, encode_jwt, signed_or_failed, DecodedToken, SigningAlgorithm,
};
use jwt_cracker::session::ErrorType;
use jwt_cracker::signature_verifier::verify_jwt_hs256_token;
use jwt_cracker::token::{decode_segment, parse};

const KNOWN: &str = "eyJhbGciOiJIUzI1NiIsInR5cCI6IkpXVCJ9.\
                     eyJzdWIiOiIxMjM0NTY3ODkwIiwibmFtZSI6IkpvaG4gRG9lIiwiaWF0IjoxNTE2MjM5MDIyfQ.\
                     SflKxwRJSMeKKF2QT4fwpMeJf36POk6yJV_adQssw5c";

#[test]
fn decode_jwt_shows_indented_json() {
    let shown = decode_jwt(KNOWN).unwrap();
    assert_eq!(shown.header, "{\n  \"alg\": \"HS256\",\n  \"typ\": \"JWT\"\n}");
    let payload: serde_json::Value = serde_json::from_str(&shown.payload).unwrap();
    assert_eq!(payload["sub"].as_str(), Some("1234567890"));
    assert_eq!(payload["name"].as_str(), Some("John Doe"));
    assert_eq!(payload["iat"].as_u64(), Some(1516239022));
    assert!(shown.payload.contains('\n'));
}

#[test]
fn decode_jwt_shows_text_that_is_no_json() {
    // "hello" and the bytes ff fe, which are no UTF-8
    let shown = decode_jwt("aGVsbG8._-4.c2ln").unwrap();
    assert_eq!(
        shown,
        DecodedToken { header: "hello".to_string(), payload: "\u{fffd}\u{fffd}".to_string() }
    );
}

#[test]
fn decode_jwt_does_not_read_the_signature() {
    assert!(decode_jwt("e30.e30.$$$").is_ok());
    assert_eq!(decode_jwt("e30.e30.$$$").unwrap().header, "{}");
}

#[test]
fn decode_jwt_rejects_malformed_tokens() {
    for token in ["", "e30", "e30.e30", "e30.e30.e30.e30", "e30..e30", ".e30.e30", "e30.e30."] {
        assert_eq!(decode_jwt(token), Err(ErrorType::JwtTokenFormatError));
    }
}

#[test]
fn decode_jwt_rejects_segments_that_are_no_base64() {
    assert_eq!(decode_jwt("e3$.e30.sig"), Err(ErrorType::JwtTokenFormatError));
    assert_eq!(decode_jwt("e30.e3.sig"), Err(ErrorType::JwtTokenFormatError));
    assert_eq!(decode_jwt("e30=.e30.sig"), Err(ErrorType::JwtTokenFormatError));
}

#[test]
fn encode_jwt_signs_what_the_verifier_accepts() {
    let header = r#"{"alg":"HS256","typ":"JWT"}"#;
    let payload = r#"{"sub":"1234567890","name":"John Doe","iat":1516239022}"#;
    let token = encode_jwt(header, payload, "your-256-bit-secret").unwrap();
    assert_eq!(parse(&token).unwrap().header, b"eyJ0eXAiOiJKV1QiLCJhbGciOiJIUzI1NiJ9");
    let claims = verify_jwt_hs256_token(&token, "your-256-bit-secret").unwrap();
    let value: serde_json::Value = serde_json::from_slice(&claims.json).unwrap();
    assert_eq!(value["name"].as_str(), Some("John Doe"));
    assert!(verify_jwt_hs256_token(&token, "another secret").is_none());
}

#[test]
fn encode_jwt_defaults_to_hs256() {
    let token = encode_jwt("{}", r#"{"a":1}"#, "k").unwrap();
    let header = decode_segment(parse(&token).unwrap().header).unwrap();
    assert_eq!(header, br#"{"alg":"HS256"}"#.to_vec());
    assert!(verify_jwt_hs256_token(&token, "k").is_some());
    let token = encode_jwt("[1, 2]", r#"{"a":1}"#, "k").unwrap();
    assert!(verify_jwt_hs256_token(&token, "k").is_some());
    let token = encode_jwt(r#"{"alg": 256}"#, r#"{"a":1}"#, "k").unwrap();
    assert!(verify_jwt_hs256_token(&token, "k").is_some());
}

#[test]
fn encode_jwt_takes_type_from_header() {
    let token = encode_jwt(r#"{"alg":"HS256","typ":"at+jwt"}"#, "{}", "k").unwrap();
    let header = decode_segment(parse(&token).unwrap().header).unwrap();
    assert_eq!(header, br#"{"typ":"at+jwt","alg":"HS256"}"#.to_vec());
}

#[test]
fn encode_jwt_other_keyed_hashes() {
    let hs384 = encode_jwt(r#"{"alg":"HS384"}"#, "{}", "k").unwrap();
    let hs512 = encode_jwt(r#"{"alg":"HS512"}"#, "{}", "k").unwrap();
    assert_eq!(decode_segment(parse(&hs384).unwrap().signature).unwrap().len(), 48);
    assert_eq!(decode_segment(parse(&hs512).unwrap().signature).unwrap().len(), 64);
    assert!(verify_jwt_hs256_token(&hs384, "k").is_none());
    assert!(verify_jwt_hs256_token(&hs512, "k").is_none());
}

#[test]
fn encode_jwt_rejects_unknown_algorithm() {
    for alg in ["RS256", "ES256", "none", "hs256", ""] {
        let header = format!(r#"{{"alg":"{}"}}"#, alg);
        assert_eq!(encode_jwt(&header, "{}", "k"), Err(ErrorType::UnknownAlgorithmType));
    }
}

#[test]
fn encode_jwt_rejects_text_that_is_no_json() {
    assert_eq!(encode_jwt("", "{}", "k"), Err(ErrorType::InputJSONFormatError));
    assert_eq!(encode_jwt("{", "{}", "k"), Err(ErrorType::InputJSONFormatError));
    assert_eq!(encode_jwt("{}", "", "k"), Err(ErrorType::InputJSONFormatError));
    assert_eq!(encode_jwt("{}", "{\"a\":}", "k"), Err(ErrorType::InputJSONFormatError));
    assert_eq!(
        encode_jwt(r#"{"alg":"RS256"}"#, "not json", "k"),
        Err(ErrorType::InputJSONFormatError)
    );
}

#[test]
fn algorithm_of_names() {
    assert_eq!(algorithm_of(&None), Some(SigningAlgorithm::HS256));
    assert_eq!(algorithm_of(&Some("HS256".to_string())), Some(SigningAlgorithm::HS256));
    assert_eq!(algorithm_of(&Some("HS384".to_string())), Some(SigningAlgorithm::HS384));
    assert_eq!(algorithm_of(&Some("HS512".to_string())), Some(SigningAlgorithm::HS512));
    assert_eq!(algorithm_of(&Some("HS1".to_string())), None);
}

#[test]
fn signed_or_failed_maps_missing_token() {
    assert_eq!(signed_or_failed(Some("a.b.c".to_string())), Ok("a.b.c".to_string()));
    assert_eq!(signed_or_failed(None), Err(ErrorType::SignJWTFailed));
}

//! Scheme classification, both verification paths, and key-set parsing.

use base64::Engine;
use jsonwebtoken::{encode, EncodingKey, Header};

use auth_sdk::config::TokenValidationConfig;
use auth_sdk::error::AuthError;
use auth_sdk::models::TokenValidationResult;
use auth_sdk::validator::{parse_jwks, TokenValidator, ValidationStep};

const NOW: i64 = 1700000000;
const FUTURE: i64 = 4000000000;

fn b64url(s: &str) -> String {
    base64::engine::general_purpose::URL_SAFE_NO_PAD.encode(s.as_bytes())
}

fn raw_token(header_json: &str, payload_json: &str) -> String {
    format!("{}.{}.c2ln", b64url(header_json), b64url(payload_json))
}

fn hs256_token(payload_json: &str, secret: &str) -> String {
    let claims: serde_json::Value = serde_json::from_str(payload_json).unwrap();
    encode(&Header::default(), &claims, &EncodingKey::from_secret(secret.as_bytes())).unwrap()
}

fn ship_validator(secret: &str) -> TokenValidator {
    TokenValidator::new(TokenValidationConfig::new().with_ship_key(secret.to_string()))
}

#[test]
fn expired_token_is_expired() {
    let token = hs256_token("{\"userId\":\"u1\",\"exp\":1600000000}", "s3cr3t");
    let mut v = ship_validator("s3cr3t");
    let step = v.validate_token(&token, NOW).unwrap();
    assert!(matches!(step, ValidationStep::Done(TokenValidationResult::Expired)));
}

#[test]
fn ship_roundtrip_validates() {
    let payload = format!(
        "{{\"userId\":\"u1\",\"customerId\":\"c1\",\"email\":\"a@b.c\",\"exp\":{}}}",
        FUTURE
    );
    let token = hs256_token(&payload, "s3cr3t");
    let mut v = ship_validator("s3cr3t");
    match v.validate_token(&token, NOW).unwrap() {
        ValidationStep::Done(TokenValidationResult::Valid { claims }) => {
            assert_eq!(claims.user_id.as_deref(), Some("u1"));
            assert_eq!(claims.customer_id.as_deref(), Some("c1"));
            assert_eq!(claims.email.as_deref(), Some("a@b.c"));
            assert_eq!(claims.exp, Some(FUTURE));
            assert_eq!(claims.iss, None);
            assert!(claims.additional_claims.is_empty());
        },
        other => panic!("expected a valid outcome, got {:?}", step_name(&other)),
    }
}

#[test]
fn ship_wrong_secret_is_invalid() {
    let token = hs256_token("{\"userId\":\"u1\",\"exp\":4000000000}", "other-secret");
    let mut v = ship_validator("s3cr3t");
    match v.validate_token(&token, NOW).unwrap() {
        ValidationStep::Done(TokenValidationResult::Invalid { reason }) => {
            assert_eq!(reason, "All key formats failed");
        },
        other => panic!("expected an invalid outcome, got {:?}", step_name(&other)),
    }
}

#[test]
fn expired_forged_token_is_expired() {
    // A forged signature makes no difference: expiry is checked first.
    let token = raw_token("{\"alg\":\"HS256\"}", "{\"userId\":\"u1\",\"exp\":1600000000}");
    let mut v = ship_validator("s3cr3t");
    let step = v.validate_token(&token, NOW).unwrap();
    assert!(matches!(step, ValidationStep::Done(TokenValidationResult::Expired)));
}

#[test]
fn internal_marker_takes_internal_path() {
    // The marker wins over the issuer claim: with no secret configured the
    // call fails with missing configuration instead of resolving the issuer.
    let token = raw_token(
        "{\"alg\":\"HS256\"}",
        "{\"userId\":\"u1\",\"iss\":\"https://idp\",\"exp\":4000000000}",
    );
    let mut v = TokenValidator::new(
        TokenValidationConfig::new()
            .add_jwks_issuer("https://idp".to_string(), "https://idp/jwks".to_string()),
    );
    assert!(matches!(v.validate_token(&token, NOW), Err(AuthError::MissingConfig)));
}


#[test]
fn missing_issuer_is_malformed() {
    let token = raw_token("{\"alg\":\"HS256\"}", "{\"email\":\"a@b.c\",\"exp\":4000000000}");
    let mut v = ship_validator("s3cr3t");
    assert!(matches!(v.validate_token(&token, NOW), Err(AuthError::InvalidTokenFormat)));
}

#[test]
fn bypass_accepts_test_issuer() {
    let token = raw_token(
        "{\"alg\":\"RS256\"}",
        "{\"iss\":\"https://test.example\",\"exp\":4000000000}",
    );
    let mut v = TokenValidator::new(TokenValidationConfig::new().allow_test_tokens());
    match v.validate_token(&token, NOW).unwrap() {
        ValidationStep::Done(TokenValidationResult::Valid { claims }) => {
            assert_eq!(claims.iss.as_deref(), Some("https://test.example"));
        },
        other => panic!("expected the bypass to accept, got {:?}", step_name(&other)),
    }
}

#[test]
fn unknown_issuer_is_reported() {
    // Without the bypass flag, the same issuer resolves against an empty
    // table and is unknown.
    let token = raw_token(
        "{\"alg\":\"RS256\"}",
        "{\"iss\":\"https://test.example\",\"exp\":4000000000}",
    );
    let mut v = TokenValidator::new(TokenValidationConfig::new());
    match v.validate_token(&token, NOW).unwrap() {
        ValidationStep::Done(TokenValidationResult::UnknownIssuer { issuer }) => {
            assert_eq!(issuer, "https://test.example");
        },
        other => panic!("expected an unknown issuer, got {:?}", step_name(&other)),
    }
}

#[test]
fn jwks_cache_miss_requests_fetch() {
    let token = raw_token(
        "{\"alg\":\"RS256\",\"kid\":\"k1\"}",
        "{\"iss\":\"https://idp.example/realm\",\"exp\":4000000000}",
    );
    let mut v = TokenValidator::new(
        TokenValidationConfig::new()
            .add_jwks_issuer("idp.example".to_string(), "https://idp.example/jwks".to_string()),
    );
    match v.validate_token(&token, NOW).unwrap() {
        ValidationStep::NeedsKeyFetch { endpoint, issuer, kid, .. } => {
            assert_eq!(endpoint, "https://idp.example/jwks");
            assert_eq!(issuer, "https://idp.example/realm");
            assert_eq!(kid, "k1");
        },
        other => panic!("expected a fetch request, got {:?}", step_name(&other)),
    }
}

#[test]
fn jwks_token_without_kid_is_malformed() {
    let token = raw_token(
        "{\"alg\":\"RS256\"}",
        "{\"iss\":\"https://idp.example\",\"exp\":4000000000}",
    );
    let mut v = TokenValidator::new(
        TokenValidationConfig::new()
            .add_jwks_issuer("idp.example".to_string(), "https://idp.example/jwks".to_string()),
    );
    assert!(matches!(v.validate_token(&token, NOW), Err(AuthError::InvalidTokenFormat)));
}

#[test]
fn complete_without_vouched_kid_is_malformed() {
    let token = raw_token(
        "{\"alg\":\"RS256\",\"kid\":\"k1\"}",
        "{\"iss\":\"https://idp.example\",\"exp\":4000000000}",
    );
    let mut v = TokenValidator::new(
        TokenValidationConfig::new()
            .add_jwks_issuer("idp.example".to_string(), "https://idp.example/jwks".to_string()),
    );
    let step = v.validate_token(&token, NOW).unwrap();
    match step {
        ValidationStep::NeedsKeyFetch { endpoint, issuer, kid, alg, claims } => {
            let r = v.complete_jwks_validation(
                &token,
                &issuer,
                alg,
                endpoint,
                &kid,
                Vec::new(),
                claims,
            );
            assert!(matches!(r, Err(AuthError::InvalidTokenFormat)));
        },
        other => panic!("expected a fetch request, got {:?}", step_name(&other)),
    }
}

#[test]
fn complete_with_unusable_key_is_invalid() {
    let token = raw_token(
        "{\"alg\":\"RS256\",\"kid\":\"k1\"}",
        "{\"iss\":\"https://idp.example\",\"exp\":4000000000}",
    );
    let mut v = TokenValidator::new(
        TokenValidationConfig::new()
            .add_jwks_issuer("idp.example".to_string(), "https://idp.example/jwks".to_string()),
    );
    match v.validate_token(&token, NOW).unwrap() {
        ValidationStep::NeedsKeyFetch { endpoint, issuer, kid, alg, claims } => {
            let keys = vec![("k1".to_string(), "AQAB".to_string(), "AQAB".to_string())];
            match v.complete_jwks_validation(&token, &issuer, alg, endpoint, &kid, keys, claims) {
                Ok(TokenValidationResult::Invalid { .. }) => {},
                Ok(other) => panic!(
                    "expected an invalid outcome, got {:?}",
                    step_name(&ValidationStep::Done(other))
                ),
                Err(e) => panic!("expected an invalid outcome, got error {:?}", e.message()),
            }
        },
        other => panic!("expected a fetch request, got {:?}", step_name(&other)),
    }
}

#[test]
fn parse_jwks_keeps_only_usable_rsa_keys() {
    let doc = "{\"keys\":[\
        {\"kid\":\"k1\",\"kty\":\"RSA\",\"n\":\"AQAB\",\"e\":\"AQAB\"},\
        {\"kid\":\"k2\",\"kty\":\"EC\",\"x\":\"AA\"},\
        {\"kid\":\"k3\",\"kty\":\"RSA\",\"n\":\"!!!\",\"e\":\"AQAB\"}]}";
    let keys = parse_jwks(&doc.as_bytes().to_vec()).unwrap();
    assert_eq!(keys.len(), 1);
    assert_eq!(keys[0].0, "k1");
}

#[test]
fn parse_jwks_missing_component_errors() {
    let doc = "{\"keys\":[{\"kid\":\"k1\",\"kty\":\"RSA\",\"e\":\"AQAB\"}]}";
    assert!(matches!(
        parse_jwks(&doc.as_bytes().to_vec()),
        Err(AuthError::InvalidTokenFormat)
    ));
}

#[test]
fn parse_jwks_rejects_malformed_documents() {
    assert!(matches!(
        parse_jwks(&b"not json".to_vec()),
        Err(AuthError::JsonError(_))
    ));
    assert!(matches!(
        parse_jwks(&b"{\"nokeys\":1}".to_vec()),
        Err(AuthError::InvalidTokenFormat)
    ));
}

#[test]
fn get_user_from_token_works_before_verification() {
    let token = raw_token(
        "{\"alg\":\"RS256\"}",
        "{\"sub\":\"s1\",\"email\":\"a@b.c\",\"name\":\"Ada\"}",
    );
    let v = TokenValidator::new(TokenValidationConfig::new());
    let u = v.get_user_from_token(&token).unwrap();
    assert_eq!(u.id, "s1");
    assert_eq!(u.email.as_deref(), Some("a@b.c"));
    assert_eq!(u.name.as_deref(), Some("Ada"));
}

#[test]
fn extract_token_from_header_delegates() {
    let v = TokenValidator::new(TokenValidationConfig::new());
    assert_eq!(v.extract_token_from_header("Bearer tok.en.x").unwrap(), "tok.en.x");
    assert!(v.extract_token_from_header("nope").is_err());
}

fn step_name(s: &ValidationStep) -> &'static str {
    match s {
        ValidationStep::Done(TokenValidationResult::Valid { .. }) => "valid",
        ValidationStep::Done(TokenValidationResult::Invalid { .. }) => "invalid",
        ValidationStep::Done(TokenValidationResult::Expired) => "expired",
        ValidationStep::Done(TokenValidationResult::UnknownIssuer { .. }) => "unknown issuer",
        ValidationStep::NeedsKeyFetch { .. } => "needs key fetch",
    }
}


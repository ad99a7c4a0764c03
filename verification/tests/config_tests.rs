//! Configuration, bearer extraction, errors and the web-facing helpers.

use auth_sdk::config::TokenValidationConfig;
use auth_sdk::error::AuthError;
use auth_sdk::web::{
    extract_issuer_from_jwks_url, pdf_response_from_bytes, validate_html_request, Html2PdfRequest,
    HttpError,
};
use auth_sdk::cnfg::{AppConfig, AppEnv};
use auth_sdk::extract_bearer_token;

fn chars(s: &str) -> Vec<char> {
    s.chars().collect()
}

#[test]
fn new_config_is_empty() {
    let c = TokenValidationConfig::new();
    assert_eq!(c.jwks_issuers.len(), 0);
    assert!(c.ship_symmetric_key.is_none());
    assert!(!c.allow_test_tokens);
}

#[test]
fn add_jwks_issuer_appends_in_order() {
    let c = TokenValidationConfig::new()
        .add_jwks_issuer("https://a.example".to_string(), "https://a.example/jwks".to_string())
        .add_jwks_issuer("https://b.example".to_string(), "https://b.example/jwks".to_string());
    assert_eq!(c.jwks_issuers.len(), 2);
    assert_eq!(c.jwks_issuers[0].0, "https://a.example");
    assert_eq!(c.jwks_issuers[1].1, "https://b.example/jwks");
}

#[test]
fn add_jwks_issuer_replaces_existing() {
    let c = TokenValidationConfig::new()
        .add_jwks_issuer("https://a.example".to_string(), "https://old/jwks".to_string())
        .add_jwks_issuer("https://a.example".to_string(), "https://new/jwks".to_string());
    assert_eq!(c.jwks_issuers.len(), 1);
    assert_eq!(c.jwks_issuers[0].1, "https://new/jwks");
}

#[test]
fn resolve_endpoint_first_match_wins() {
    let c = TokenValidationConfig::new()
        .add_jwks_issuer("example".to_string(), "https://one/jwks".to_string())
        .add_jwks_issuer("auth.example".to_string(), "https://two/jwks".to_string());
    let hit = c.resolve_endpoint(&chars("https://auth.example.com/realm")).unwrap();
    assert_eq!(hit.1, "https://one/jwks");
}

#[test]
fn resolve_endpoint_matches_by_substring() {
    let c = TokenValidationConfig::new()
        .add_jwks_issuer("auth.example.com".to_string(), "https://jwks.example".to_string());
    let hit = c.resolve_endpoint(&chars("https://auth.example.com/realms/x"));
    assert!(hit.is_some());
    assert!(c.resolve_endpoint(&chars("https://other.example.org")).is_none());
}

#[test]
fn extract_bearer_token_ok_and_trimmed() {
    let t = extract_bearer_token("Bearer   abc.def.ghi  ").unwrap();
    assert_eq!(t, "abc.def.ghi");
}

#[test]
fn extract_bearer_token_rejects_missing_prefix() {
    assert!(matches!(
        extract_bearer_token("Basic abc"),
        Err(AuthError::InvalidTokenFormat)
    ));
    assert!(matches!(
        extract_bearer_token("bearer abc"),
        Err(AuthError::InvalidTokenFormat)
    ));
}

#[test]
fn extract_bearer_token_rejects_empty() {
    assert!(matches!(
        extract_bearer_token("Bearer    "),
        Err(AuthError::InvalidTokenFormat)
    ));
}

#[test]
fn extract_bearer_token_trims_unicode_whitespace() {
    // A non-breaking space is whitespace: an otherwise empty token is
    // rejected, and one wrapped in exotic whitespace is trimmed.
    assert!(matches!(
        extract_bearer_token("Bearer \u{a0}"),
        Err(AuthError::InvalidTokenFormat)
    ));
    assert!(matches!(
        extract_bearer_token("Bearer \u{b}\u{c}"),
        Err(AuthError::InvalidTokenFormat)
    ));
    let t = extract_bearer_token("Bearer \u{a0}tok.en.x\u{3000}").unwrap();
    assert_eq!(t, "tok.en.x");
}

#[test]
fn error_messages_are_stable() {
    assert_eq!(AuthError::InvalidTokenFormat.message(), "Invalid token format");
    assert_eq!(
        AuthError::InvalidIssuer { issuer: "x".to_string() }.message(),
        "Invalid issuer: x"
    );
    assert_eq!(AuthError::MissingConfig.message(), "Missing configuration for issuer");
    assert_eq!(AuthError::JsonError("boom".to_string()).message(), "JSON parsing error: boom");
}

#[test]
fn http_error_status_and_body() {
    let bad = HttpError::BadRequest("nope".to_string());
    assert_eq!(bad.status_code(), 400);
    assert_eq!(bad.body(), "Bad Request: nope");
    let ise = HttpError::InternalServerError("secret detail".to_string());
    assert_eq!(ise.status_code(), 500);
    assert_eq!(ise.body(), "Internal Server Error");
}

#[test]
fn pdf_response_encodes_base64() {
    let r = pdf_response_from_bytes(&vec![0u8, 0u8, 0u8]);
    assert_eq!(r.pdf_base64, "AAAA");
    let empty = pdf_response_from_bytes(&Vec::new());
    assert_eq!(empty.pdf_base64, "");
}

#[test]
fn validate_html_request_rejects_empty() {
    let bad = Html2PdfRequest { blob: String::new() };
    assert!(matches!(validate_html_request(&bad), Err(HttpError::BadRequest(_))));
    let good = Html2PdfRequest { blob: "<html></html>".to_string() };
    assert!(validate_html_request(&good).is_ok());
}

#[test]
fn issuer_base_of_jwks_url() {
    assert_eq!(
        extract_issuer_from_jwks_url("https://idp.example/realms/x/jwks").as_deref(),
        Some("https://idp.example")
    );
    assert_eq!(extract_issuer_from_jwks_url("not a url"), None);
}

#[test]
fn app_config_default_is_development() {
    let c = AppConfig::default();
    assert_eq!(c.env, AppEnv::Development);
    assert_eq!(c.port, 0);
    assert!(c.ship_key.is_empty());
    assert!(c.jwks_issuers.is_empty());
}

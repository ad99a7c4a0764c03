//! Unauthenticated claims decoding, role extraction and identity projection.

use base64::Engine;

use auth_sdk::error::AuthError;
use auth_sdk::decode::decode_token_unsafe;
use auth_sdk::jsontree::JsonVal;
use auth_sdk::models::{Audience, User};
use auth_sdk::numtext::number_text_trunc;

fn b64url(s: &str) -> String {
    base64::engine::general_purpose::URL_SAFE_NO_PAD.encode(s.as_bytes())
}

fn token_with_payload(payload_json: &str) -> String {
    let header = b64url("{\"alg\":\"HS256\",\"typ\":\"JWT\"}");
    format!("{}.{}.c2ln", header, b64url(payload_json))
}

fn trunc(s: &str) -> Option<i64> {
    number_text_trunc(&s.chars().collect())
}

#[test]
fn decode_rejects_two_segments() {
    assert!(matches!(
        decode_token_unsafe("only.two"),
        Err(AuthError::InvalidTokenFormat)
    ));
    assert!(matches!(
        decode_token_unsafe("a.b.c.d"),
        Err(AuthError::InvalidTokenFormat)
    ));
}

#[test]
fn decode_rejects_bad_base64() {
    assert!(matches!(
        decode_token_unsafe("head.!!!.sig"),
        Err(AuthError::InvalidTokenFormat)
    ));
}

#[test]
fn decode_rejects_non_object_payload() {
    let header = b64url("{\"alg\":\"HS256\"}");
    let t = format!("{}.{}.c2ln", header, b64url("[1,2,3]"));
    assert!(matches!(decode_token_unsafe(&t), Err(AuthError::JsonError(_))));
}

#[test]
fn decode_reads_known_fields() {
    let t = token_with_payload(
        "{\"iss\":\"https://idp\",\"sub\":\"s1\",\"azp\":\"client\",\"exp\":2000000000,\
         \"iat\":1000,\"email\":\"a@b.c\",\"name\":\"Ada\",\"customerId\":\"c9\",\
         \"userId\":\"u7\",\"tokenRequestedFrom\":\"portal\"}",
    );
    let c = decode_token_unsafe(&t).unwrap();
    assert_eq!(c.iss.as_deref(), Some("https://idp"));
    assert_eq!(c.sub.as_deref(), Some("s1"));
    assert_eq!(c.azp.as_deref(), Some("client"));
    assert_eq!(c.exp, Some(2000000000));
    assert_eq!(c.iat, Some(1000));
    assert_eq!(c.email.as_deref(), Some("a@b.c"));
    assert_eq!(c.name.as_deref(), Some("Ada"));
    assert_eq!(c.customer_id.as_deref(), Some("c9"));
    assert_eq!(c.user_id.as_deref(), Some("u7"));
    assert_eq!(c.token_requested_from.as_deref(), Some("portal"));
    assert!(c.additional_claims.is_empty());
}

#[test]
fn decode_truncates_float_timestamps() {
    let c = decode_token_unsafe(&token_with_payload("{\"exp\":1752.75,\"iat\":-3.9}")).unwrap();
    assert_eq!(c.exp, Some(1752));
    assert_eq!(c.iat, Some(-3));
}

#[test]
fn decode_handles_exponent_timestamps() {
    let c = decode_token_unsafe(&token_with_payload("{\"exp\":1.75e3}")).unwrap();
    assert_eq!(c.exp, Some(1750));
}

#[test]
fn decode_non_numeric_timestamp_is_unknown() {
    let c = decode_token_unsafe(&token_with_payload("{\"exp\":\"soon\",\"iat\":true}")).unwrap();
    assert_eq!(c.exp, None);
    assert_eq!(c.iat, None);
}

#[test]
fn decode_keeps_additional_claims() {
    let c = decode_token_unsafe(&token_with_payload(
        "{\"iss\":\"x\",\"tenant\":\"t1\",\"flags\":[1,2]}",
    ))
    .unwrap();
    assert_eq!(c.additional_claims.len(), 2);
    assert!(c.additional_claims.iter().any(|(k, v)| k == "tenant" && *v == JsonVal::Str(
        "t1".to_string()
    )));
    assert!(c.additional_claims.iter().any(|(k, v)| k == "flags" && *v == JsonVal::Arr(vec![
        JsonVal::Num("1".to_string()),
        JsonVal::Num("2".to_string()),
    ])));
}

#[test]
fn decode_audience_scalar_and_array() {
    let c1 = decode_token_unsafe(&token_with_payload("{\"aud\":\"api\"}")).unwrap();
    assert!(matches!(c1.aud, Some(Audience::Single(ref s)) if s == "api"));
    let c2 = decode_token_unsafe(&token_with_payload("{\"aud\":[\"api\",\"web\"]}")).unwrap();
    match c2.aud {
        Some(Audience::Many(v)) => assert_eq!(v, vec!["api".to_string(), "web".to_string()]),
        _ => panic!("expected an audience array"),
    }
}

#[test]
fn roles_prefer_tms_client() {
    let c = decode_token_unsafe(&token_with_payload(
        "{\"resource_access\":{\"other\":{\"roles\":[\"viewer\"]},\
         \"tms\":{\"roles\":[\"admin\",\"editor\"]}}}",
    ))
    .unwrap();
    let u = User::from_claims(&c);
    assert_eq!(u.roles, vec!["admin".to_string(), "editor".to_string()]);
}

#[test]
fn roles_aggregate_without_tms() {
    let c = decode_token_unsafe(&token_with_payload(
        "{\"resource_access\":{\"a\":{\"roles\":[\"r1\"]},\"b\":{\"roles\":[\"r2\"]}}}",
    ))
    .unwrap();
    let u = User::from_claims(&c);
    let mut roles = u.roles.clone();
    roles.sort();
    assert_eq!(roles, vec!["r1".to_string(), "r2".to_string()]);
}

#[test]
fn roles_aggregate_when_tms_empty() {
    let c = decode_token_unsafe(&token_with_payload(
        "{\"resource_access\":{\"tms\":{\"roles\":[]},\"b\":{\"roles\":[\"r2\"]}}}",
    ))
    .unwrap();
    let u = User::from_claims(&c);
    assert_eq!(u.roles, vec!["r2".to_string()]);
}

#[test]
fn identity_prefers_user_id() {
    let c = decode_token_unsafe(&token_with_payload("{\"userId\":\"u1\",\"sub\":\"s1\"}")).unwrap();
    assert_eq!(User::from_claims(&c).id, "u1");
}

#[test]
fn identity_falls_back_to_sub() {
    let c = decode_token_unsafe(&token_with_payload("{\"sub\":\"s1\"}")).unwrap();
    assert_eq!(User::from_claims(&c).id, "s1");
}

#[test]
fn identity_empty_without_ids() {
    let c = decode_token_unsafe(&token_with_payload("{\"email\":\"a@b.c\"}")).unwrap();
    assert_eq!(User::from_claims(&c).id, "");
}

#[test]
fn decode_rejects_wrong_typed_string_claim() {
    assert!(matches!(
        decode_token_unsafe(&token_with_payload("{\"iss\":5}")),
        Err(AuthError::JsonError(_))
    ));
    assert!(matches!(
        decode_token_unsafe(&token_with_payload("{\"userId\":[\"u\"]}")),
        Err(AuthError::JsonError(_))
    ));
}

#[test]
fn decode_treats_null_claim_as_absent() {
    let c = decode_token_unsafe(&token_with_payload("{\"iss\":null,\"sub\":\"s1\"}")).unwrap();
    assert_eq!(c.iss, None);
    assert_eq!(c.sub.as_deref(), Some("s1"));
}

#[test]
fn decode_rejects_wrong_typed_audience() {
    assert!(matches!(
        decode_token_unsafe(&token_with_payload("{\"aud\":5}")),
        Err(AuthError::JsonError(_))
    ));
    assert!(matches!(
        decode_token_unsafe(&token_with_payload("{\"aud\":[\"api\",7]}")),
        Err(AuthError::JsonError(_))
    ));
}

#[test]
fn decode_rejects_wrong_typed_role_map() {
    assert!(matches!(
        decode_token_unsafe(&token_with_payload("{\"resource_access\":\"tms\"}")),
        Err(AuthError::JsonError(_))
    ));
}

#[test]
fn numeric_truncation_cases() {
    assert_eq!(trunc("0"), Some(0));
    assert_eq!(trunc("-12.75"), Some(-12));
    assert_eq!(trunc("12.99"), Some(12));
    assert_eq!(trunc("2.5e-2"), Some(0));
    assert_eq!(trunc("1.75e3"), Some(1750));
    assert_eq!(trunc("1e20"), Some(i64::MAX));
    assert_eq!(trunc("-1e20"), Some(i64::MIN));
    assert_eq!(trunc("abc"), None);
    assert_eq!(trunc(""), None);
    assert_eq!(trunc("1."), None);
    assert_eq!(trunc("1e"), None);
}

//! Trusted surface over `jsonwebtoken`: header decoding and the two
//! signature checks. Expiry inside the library is checked against the real
//! clock, so no verification outcome is promised; callers state what holds
//! of every outcome through `JwtVerifyOutcome`.

use vstd::prelude::*;

verus! {

#[verifier::external_type_specification]
#[verifier::external_body]
pub struct ExAlgorithm(jsonwebtoken::Algorithm);

pub assume_specification[ <jsonwebtoken::Algorithm as Clone>::clone ](
    a: &jsonwebtoken::Algorithm,
) -> (r: jsonwebtoken::Algorithm)
    ensures
        r == *a,
;

/// A token's header: its signing algorithm and key identifier.
pub struct TokenHeader {
    pub alg: jsonwebtoken::Algorithm,
    pub kid: Option<String>,
}

/// The view of an optional string.
pub open spec fn opt_str_view(o: Option<String>) -> Option<Seq<char>> {
    match o {
        Some(s) => Some(s@),
        None => None,
    }
}

/// Whether `jsonwebtoken::decode_header` accepts the token, and the key id
/// its header carries: a function of the token text alone.
pub uninterp spec fn jwt_header_kid_of(t: Seq<char>) -> Option<Option<Seq<char>>>;

/// Relies on jsonwebtoken::decode_header: the token's header exactly when
/// the library reads one, the error's text otherwise.
#[verifier::external_body]
pub(crate) fn decode_header_wrapper(token: &str) -> (r: Result<TokenHeader, String>)
    ensures
        r is Ok <==> jwt_header_kid_of(token@) is Some,
        r is Ok ==> jwt_header_kid_of(token@)->0 == opt_str_view(r->Ok_0.kid),
{
    match jsonwebtoken::decode_header(token) {
        Ok(h) => Ok(TokenHeader { alg: h.alg, kid: h.kid }),
        Err(e) => Err(e.to_string()),
    }
}

/// One signature check's outcome: verified, rejected for expiry alone, or
/// rejected with the library's message.
pub enum JwtVerifyOutcome {
    Verified,
    ExpiredSignature,
    Failed(String),
}

/// Relies on jsonwebtoken::decode with DecodingKey::from_secret: the
/// internal scheme's symmetric check, with standard claim requirements
/// relaxed but expiry still enforced against the real clock — so nothing is
/// promised of the outcome.
#[verifier::external_body]
pub(crate) fn verify_with_secret(token: &str, secret: &str) -> (r: JwtVerifyOutcome) {
    let mut v = jsonwebtoken::Validation::new(jsonwebtoken::Algorithm::HS256);
    v.required_spec_claims.clear();
    v.validate_aud = false;
    let key = jsonwebtoken::DecodingKey::from_secret(secret.as_bytes());
    match jsonwebtoken::decode::<serde_json::Value>(token, &key, &v) {
        Ok(_) => JwtVerifyOutcome::Verified,
        Err(e) => match e.kind() {
            jsonwebtoken::errors::ErrorKind::ExpiredSignature => JwtVerifyOutcome::ExpiredSignature,
            _ => JwtVerifyOutcome::Failed(e.to_string()),
        },
    }
}

/// Relies on jsonwebtoken::decode with DecodingKey::from_rsa_components and
/// the header's declared algorithm, requiring the issuer claim to equal
/// `issuer`; expiry is enforced against the real clock, so nothing is
/// promised of the outcome.
#[verifier::external_body]
pub(crate) fn verify_with_rsa_components(
    token: &str,
    n: &str,
    e: &str,
    alg: jsonwebtoken::Algorithm,
    issuer: &str,
) -> (r: JwtVerifyOutcome) {
    let key = match jsonwebtoken::DecodingKey::from_rsa_components(n, e) {
        Ok(k) => k,
        Err(err) => return JwtVerifyOutcome::Failed(err.to_string()),
    };
    let mut v = jsonwebtoken::Validation::new(alg);
    v.set_issuer(&[issuer]);
    v.validate_aud = false;
    match jsonwebtoken::decode::<serde_json::Value>(token, &key, &v) {
        Ok(_) => JwtVerifyOutcome::Verified,
        Err(e2) => match e2.kind() {
            jsonwebtoken::errors::ErrorKind::ExpiredSignature => JwtVerifyOutcome::ExpiredSignature,
            _ => JwtVerifyOutcome::Failed(e2.to_string()),
        },
    }
}

/// Relies on jsonwebtoken::DecodingKey::from_rsa_components: whether the
/// modulus and exponent decode to a key — a function of the two texts alone.
pub uninterp spec fn rsa_components_ok(n: Seq<char>, e: Seq<char>) -> bool;

/// Relies on jsonwebtoken::DecodingKey::from_rsa_components: whether the
/// published component texts decode to usable key material.
#[verifier::external_body]
pub(crate) fn rsa_components_valid(n: &str, e: &str) -> (r: bool)
    ensures
        r == rsa_components_ok(n@, e@),
{
    jsonwebtoken::DecodingKey::from_rsa_components(n, e).is_ok()
}

} // verus!

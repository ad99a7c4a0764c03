//! Bearer-token validation with multi-scheme verification and a bounded,
//! least-recently-used cache of remotely discovered verification keys.

pub mod cache;
pub mod cnfg;
pub mod config;
pub mod decode;
pub mod error;
pub mod jsontree;
pub mod jsonx;
pub mod jwt;
pub mod laws;
pub mod models;
pub mod numtext;
pub mod strutil;
pub mod validator;
pub mod web;

pub use config::TokenValidationConfig;
pub use error::AuthError;
pub use models::{Claims, TokenValidationResult, User};
pub use validator::{TokenValidator, ValidationStep};
pub use cnfg::{AppConfig, AppEnv};
pub use web::{Html2PdfRequest, Html2PdfResponse, HttpError};

use vstd::prelude::*;

use crate::strutil::{chars_of_str, spec_trim, string_from_chars, subvec, trim_chars};

verus! {

/// The authorization scheme prefix that a bearer header must carry.
pub open spec fn spec_bearer_prefix() -> Seq<char> {
    "Bearer "@
}

/// The bearer-extraction contract: with the `Bearer ` prefix present, the
/// rest is trimmed and must be non-empty; anything else is malformed input.
pub open spec fn spec_bearer_extraction(h: Seq<char>, r: Result<String, AuthError>) -> bool {
    let prefixed = h.len() >= 7 && h.subrange(0, 7) == spec_bearer_prefix();
    let tok = spec_trim(h.skip(7));
    &&& (prefixed && tok.len() > 0) ==> (r is Ok && r->Ok_0@ == tok)
    &&& !(prefixed && tok.len() > 0) ==> r matches Err(AuthError::InvalidTokenFormat)
}

/// Extracts the token from an `Authorization` header: strip the `Bearer `
/// prefix, trim whitespace, reject empty.
pub fn extract_bearer_token(authorization_header: &str) -> (r: Result<String, AuthError>)
    ensures
        spec_bearer_extraction(authorization_header@, r),
{
    proof {
        reveal_strlit("Bearer ");
    }
    let chars = chars_of_str(authorization_header);
    let prefix = chars_of_str("Bearer ");
    if chars.len() < 7 {
        return Err(AuthError::InvalidTokenFormat);
    }
    let mut i: usize = 0;
    while i < 7
        invariant
            i <= 7,
            chars@.len() >= 7,
            prefix@ == spec_bearer_prefix(),
            prefix@.len() == 7,
            chars@ == authorization_header@,
            forall|k: int| 0 <= k < i ==> chars@[k] == prefix@[k],
        decreases 7 - i,
    {
        if chars[i] != prefix[i] {
            proof {
                if authorization_header@.subrange(0, 7) == spec_bearer_prefix() {
                    assert(chars@.subrange(0, 7)[i as int] == spec_bearer_prefix()[i as int]);
                }
            }
            return Err(AuthError::InvalidTokenFormat);
        }
        i = i + 1;
    }
    proof {
        assert(chars@.subrange(0, 7) =~= spec_bearer_prefix());
    }
    let rest = subvec(&chars, 7, chars.len());
    proof {
        assert(rest@ =~= authorization_header@.skip(7));
    }
    let trimmed = trim_chars(&rest);
    if trimmed.is_empty() {
        return Err(AuthError::InvalidTokenFormat);
    }
    Ok(string_from_chars(&trimmed))
}

} // verus!

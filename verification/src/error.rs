//! Error taxonomy of the token-validation subsystem.
//!
//! Malformed input and missing configuration are fatal errors; expiry,
//! unknown issuers and verification failures are outcomes, not errors
//! (see `TokenValidationResult`).

use vstd::prelude::*;
use vstd::string::StringExecFns;

verus! {

/// Fatal failures of a validation call.
#[derive(Debug, Clone)]
pub enum AuthError {
    /// The token text is not three dot-separated segments, its payload is not
    /// base64url (no padding), or a required field is missing.
    InvalidTokenFormat,
    /// The token's expiration time is in the past.
    TokenExpired,
    /// No configured issuer matches the token's issuer claim.
    InvalidIssuer { issuer: String },
    /// The token library rejected the token before verification.
    JwtError(String),
    /// Fetching a key-discovery document failed.
    RequestError(String),
    /// The token payload is not a JSON object.
    JsonError(String),
    /// An internal-scheme token arrived but no shared secret is configured.
    MissingConfig,
    /// The configured shared secret is unusable.
    InvalidSymmetricKey,
}

impl AuthError {
    /// The human-readable description of this error.
    pub open spec fn spec_message(&self) -> Seq<char> {
        match self {
            AuthError::InvalidTokenFormat => "Invalid token format"@,
            AuthError::TokenExpired => "Token has expired"@,
            AuthError::InvalidIssuer { issuer } => "Invalid issuer: "@ + issuer@,
            AuthError::JwtError(m) => "JWT error: "@ + m@,
            AuthError::RequestError(m) => "HTTP request error: "@ + m@,
            AuthError::JsonError(m) => "JSON parsing error: "@ + m@,
            AuthError::MissingConfig => "Missing configuration for issuer"@,
            AuthError::InvalidSymmetricKey => "Invalid symmetric key"@,
        }
    }

    /// Renders the error for logs and HTTP bodies.
    pub fn message(&self) -> (r: String)
        ensures
            r@ == self.spec_message(),
    {
        match self {
            AuthError::InvalidTokenFormat => String::from_str("Invalid token format"),
            AuthError::TokenExpired => String::from_str("Token has expired"),
            AuthError::InvalidIssuer { issuer } => {
                String::from_str("Invalid issuer: ").concat(issuer.as_str())
            },
            AuthError::JwtError(m) => String::from_str("JWT error: ").concat(m.as_str()),
            AuthError::RequestError(m) => {
                String::from_str("HTTP request error: ").concat(m.as_str())
            },
            AuthError::JsonError(m) => String::from_str("JSON parsing error: ").concat(m.as_str()),
            AuthError::MissingConfig => String::from_str("Missing configuration for issuer"),
            AuthError::InvalidSymmetricKey => String::from_str("Invalid symmetric key"),
        }
    }
}

} // verus!

//! The token validator: decodes a token, classifies its scheme, dispatches
//! to the matching verification path, and consults the shared key cache.
//!
//! Fetching a key set is I/O and happens outside this module: a cache miss
//! surfaces as `NeedsKeyFetch`, the caller fetches the endpoint's document,
//! and `complete_jwks_validation` stores it and finishes the check. Two
//! callers may fetch the same endpoint concurrently; each store whole-
//! replaces the entry, so the last writer's mapping is self-consistent and
//! the duplication is accepted rather than serializing fetches under a lock.

use vstd::prelude::*;

use crate::cache::{spec_kid_lookup, spec_promote, spec_store, JwksKeyCache, KeySet};
use crate::config::{spec_resolve_endpoint, TokenValidationConfig};
use crate::decode::{
    b64url_decode_of, decode_token_unsafe, spec_claims_match, spec_claims_ok, spec_payload_text,
    spec_three_segments,
};
use crate::error::AuthError;
use crate::jsontree::{get_member, item_members, obj_lookup, JsonVal};
use crate::jsonx::{json_doc_of, json_parse_doc};
use crate::jwt::{
    decode_header_wrapper, jwt_header_kid_of, opt_str_view, rsa_components_ok,
    rsa_components_valid, verify_with_rsa_components, verify_with_secret, JwtVerifyOutcome,
    TokenHeader,
};
use crate::models::{spec_identity_post, Claims, TokenValidationResult, User};
use crate::strutil::{chars_of_str, contains_sub, has_substring, str_eq};
use vstd::string::StringExecFns;

verus! {

/// What one validation pass produced: a terminal outcome, or the key fetch
/// the caller must perform before `complete_jwks_validation` can finish.
pub enum ValidationStep {
    Done(TokenValidationResult),
    NeedsKeyFetch {
        endpoint: String,
        issuer: String,
        kid: String,
        alg: jsonwebtoken::Algorithm,
        claims: Claims,
    },
}

/// The validator: immutable configuration and the shared key cache.
pub struct TokenValidator {
    pub config: TokenValidationConfig,
    pub cache: JwksKeyCache,
}

/// How an internal-scheme verification outcome maps to a terminal result:
/// success keeps the decoded claims, an expired signature is `Expired`, and
/// any other failure is `Invalid` with a deliberately generic reason.
pub open spec fn internal_outcome_matches(
    v: JwtVerifyOutcome,
    claims: Claims,
    r: TokenValidationResult,
) -> bool {
    match v {
        JwtVerifyOutcome::Verified => r == TokenValidationResult::Valid { claims },
        JwtVerifyOutcome::ExpiredSignature => r == TokenValidationResult::Expired,
        JwtVerifyOutcome::Failed(_) => r matches TokenValidationResult::Invalid { reason }
            && reason@ == "All key formats failed"@,
    }
}

/// Maps the internal scheme's verification outcome to its terminal result.
pub fn internal_outcome(v: JwtVerifyOutcome, claims: Claims) -> (r: TokenValidationResult)
    ensures
        internal_outcome_matches(v, claims, r),
{
    match v {
        JwtVerifyOutcome::Verified => TokenValidationResult::Valid { claims },
        JwtVerifyOutcome::ExpiredSignature => TokenValidationResult::Expired,
        JwtVerifyOutcome::Failed(_) => TokenValidationResult::Invalid {
            reason: String::from_str("All key formats failed"),
        },
    }
}

/// How an external-scheme verification outcome maps to a terminal result:
/// success keeps the decoded claims, an expired signature is `Expired`, and
/// any other failure is `Invalid` carrying the library's message as-is.
pub open spec fn jwks_outcome_matches(
    v: JwtVerifyOutcome,
    claims: Claims,
    r: TokenValidationResult,
) -> bool {
    match v {
        JwtVerifyOutcome::Verified => r == TokenValidationResult::Valid { claims },
        JwtVerifyOutcome::ExpiredSignature => r == TokenValidationResult::Expired,
        JwtVerifyOutcome::Failed(m) => r == TokenValidationResult::Invalid { reason: m },
    }
}

/// Maps the external scheme's verification outcome to its terminal result.
pub fn jwks_outcome(v: JwtVerifyOutcome, claims: Claims) -> (r: TokenValidationResult)
    ensures
        jwks_outcome_matches(v, claims, r),
{
    match v {
        JwtVerifyOutcome::Verified => TokenValidationResult::Valid { claims },
        JwtVerifyOutcome::ExpiredSignature => TokenValidationResult::Expired,
        JwtVerifyOutcome::Failed(m) => TokenValidationResult::Invalid { reason: m },
    }
}

/// The token's shape admits a payload: three segments whose middle one is
/// unpadded base64url.
pub open spec fn spec_decode_ok(t: Seq<char>) -> bool {
    spec_three_segments(t) && b64url_decode_of(spec_payload_text(t)) is Some
}

/// The payload bytes of a token whose shape admits one.
pub open spec fn spec_payload_bytes(t: Seq<char>) -> Seq<u8> {
    b64url_decode_of(spec_payload_text(t))->0
}

/// The members of the token's payload object.
pub open spec fn spec_payload_members(t: Seq<char>) -> Seq<(String, JsonVal)> {
    item_members(json_doc_of(spec_payload_bytes(t))->0)
}

/// The payload is one JSON object that decodes as the claims record.
pub open spec fn spec_payload_claims_ok(t: Seq<char>) -> bool {
    json_doc_of(spec_payload_bytes(t)) is Some && spec_claims_ok(spec_payload_members(t))
}

/// A step that is this terminal outcome.
pub open spec fn done_ok(out: TokenValidationResult) -> Result<ValidationStep, AuthError> {
    Ok(ValidationStep::Done(out))
}

/// The step is a key-fetch request carrying exactly these values.
pub open spec fn needs_fetch_matches(
    r: Result<ValidationStep, AuthError>,
    ep: String,
    issuer: String,
    kid: Option<String>,
    claims: Claims,
) -> bool {
    r matches Ok(
        ValidationStep::NeedsKeyFetch { endpoint: e2, issuer: i2, kid: k2, alg: _, claims: c2 },
    ) && e2 == ep && i2 == issuer && Some(k2) == kid && c2 == claims
}

/// The whole contract of one classification-and-dispatch pass over decoded
/// claims: expiry short-circuits everything; any internal-scheme marker
/// dispatches to the shared-secret path; a missing issuer is malformed; the
/// development bypass accepts issuers containing "test"; otherwise the
/// issuer resolves by first substring match to an endpoint, whose cached key
/// either verifies now or is requested by a fetch step.
pub open spec fn spec_validate_post(
    v_old: TokenValidator,
    v_new: TokenValidator,
    claims: Claims,
    kid: Option<String>,
    now: i64,
    r: Result<ValidationStep, AuthError>,
) -> bool {
    let cfg = v_old.config;
    &&& v_new.config == cfg
    &&& v_new.cache.contents() == v_old.cache.contents()
    &&& v_new.cache.capacity() == v_old.cache.capacity()
    &&& if claims.spec_is_expired(now) {
        &&& r == done_ok(TokenValidationResult::Expired)
        &&& v_new.cache.order() == v_old.cache.order()
    } else if claims.spec_is_internal() {
        &&& v_new.cache.order() == v_old.cache.order()
        &&& match cfg.ship_symmetric_key {
            None => r matches Err(AuthError::MissingConfig),
            Some(_) => r matches Ok(ValidationStep::Done(out)) && exists|v: JwtVerifyOutcome|
                internal_outcome_matches(v, claims, out),
        }
    } else if claims.iss is None {
        &&& v_new.cache.order() == v_old.cache.order()
        &&& r matches Err(AuthError::InvalidTokenFormat)
    } else {
        let issuer = claims.iss->0;
        if cfg.allow_test_tokens && has_substring(issuer@, "test"@) {
            &&& v_new.cache.order() == v_old.cache.order()
            &&& r == done_ok(TokenValidationResult::Valid { claims })
        } else {
            match spec_resolve_endpoint(cfg.jwks_issuers@, issuer@) {
                None => {
                    &&& v_new.cache.order() == v_old.cache.order()
                    &&& r == done_ok(TokenValidationResult::UnknownIssuer { issuer })
                },
                Some(pair) => {
                    if kid is None {
                        &&& v_new.cache.order() == v_old.cache.order()
                        &&& r matches Err(AuthError::InvalidTokenFormat)
                    } else if v_old.cache.contents().dom().contains(pair.1@) {
                        &&& v_new.cache.order() == spec_promote(v_old.cache.order(), pair.1@)
                        &&& match spec_kid_lookup(v_old.cache.contents()[pair.1@], kid->0@) {
                            Some(_) => r matches Ok(ValidationStep::Done(out)) && exists|
                                v: JwtVerifyOutcome,
                            | jwks_outcome_matches(v, claims, out),
                            None => needs_fetch_matches(r, pair.1, issuer, kid, claims),
                        }
                    } else {
                        &&& v_new.cache.order() == v_old.cache.order()
                        &&& needs_fetch_matches(r, pair.1, issuer, kid, claims)
                    }
                },
            }
        }
    }
}

impl TokenValidator {
    /// A validator over the given configuration, with an empty key cache.
    pub fn new(config: TokenValidationConfig) -> (r: Self)
        ensures
            r.config == config,
            r.cache.contents() == crate::cache::empty_contents(),
            r.cache.order() == crate::cache::empty_order(),
            r.cache.capacity() == crate::cache::CACHE_CAPACITY as nat,
    {
        TokenValidator { config, cache: JwksKeyCache::new() }
    }

    /// Extracts the token from an `Authorization` header: strip the
    /// `Bearer ` prefix, trim, reject empty.
    pub fn extract_token_from_header(&self, authorization_header: &str) -> (r: Result<
        String,
        AuthError,
    >)
        ensures
            crate::spec_bearer_extraction(authorization_header@, r),
    {
        crate::extract_bearer_token(authorization_header)
    }

    /// Classifies decoded claims and dispatches to the matching path; see
    /// `spec_validate_post` for the full contract.
    pub fn validate_claims(
        &mut self,
        token: &str,
        header: &TokenHeader,
        claims: Claims,
        now: i64,
    ) -> (r: Result<ValidationStep, AuthError>)
        ensures
            spec_validate_post(*old(self), *final(self), claims, header.kid, now, r),
    {
        let ghost gclaims = claims;
        if claims.is_expired(now) {
            return Ok(ValidationStep::Done(TokenValidationResult::Expired));
        }
        if claims.is_internal() {
            let secret = match &self.config.ship_symmetric_key {
                None => {
                    return Err(AuthError::MissingConfig);
                },
                Some(s) => s.clone(),
            };
            let v = verify_with_secret(token, secret.as_str());
            let ghost gv = v;
            let out = internal_outcome(v, claims);
            proof {
                assert(internal_outcome_matches(gv, gclaims, out));
            }
            return Ok(ValidationStep::Done(out));
        }
        let issuer = match &claims.iss {
            None => {
                return Err(AuthError::InvalidTokenFormat);
            },
            Some(s) => s.clone(),
        };
        let issuer_chars = chars_of_str(issuer.as_str());
        if self.config.allow_test_tokens {
            let needle = chars_of_str("test");
            if contains_sub(&issuer_chars, &needle) {
                return Ok(ValidationStep::Done(TokenValidationResult::Valid { claims }));
            }
        }
        let pair = match self.config.resolve_endpoint(&issuer_chars) {
            None => {
                return Ok(ValidationStep::Done(TokenValidationResult::UnknownIssuer { issuer }));
            },
            Some(p) => p,
        };
        let kid = match &header.kid {
            None => {
                return Err(AuthError::InvalidTokenFormat);
            },
            Some(k) => k.clone(),
        };
        match self.cache.lookup(&pair.1, &kid) {
            Some((n, e)) => {
                let v = verify_with_rsa_components(
                    token,
                    n.as_str(),
                    e.as_str(),
                    header.alg.clone(),
                    issuer.as_str(),
                );
                let ghost gv = v;
                let out = jwks_outcome(v, claims);
                proof {
                    assert(jwks_outcome_matches(gv, gclaims, out));
                }
                Ok(ValidationStep::Done(out))
            },
            None => Ok(
                ValidationStep::NeedsKeyFetch {
                    endpoint: pair.1,
                    issuer,
                    kid,
                    alg: header.alg.clone(),
                    claims,
                },
            ),
        }
    }

    /// Validates a bearer token up to the first network need: decodes the
    /// header and claims (both terminal on failure), then classifies and
    /// dispatches per `spec_validate_post`. `now` is the caller's clock, in
    /// seconds since the epoch.
    pub fn validate_token(&mut self, token: &str, now: i64) -> (r: Result<
        ValidationStep,
        AuthError,
    >)
        ensures
            final(self).config == old(self).config,
            final(self).cache.contents() == old(self).cache.contents(),
            final(self).cache.capacity() == old(self).cache.capacity(),
            jwt_header_kid_of(token@) is None ==> (r matches Err(AuthError::JwtError(_))
                && final(self).cache.order() == old(self).cache.order()),
            (jwt_header_kid_of(token@) is Some && !spec_decode_ok(token@)) ==> (r matches Err(
                AuthError::InvalidTokenFormat,
            ) && final(self).cache.order() == old(self).cache.order()),
            (jwt_header_kid_of(token@) is Some && spec_decode_ok(token@)
                && !spec_payload_claims_ok(token@)) ==> (r matches Err(AuthError::JsonError(_))
                && final(self).cache.order() == old(self).cache.order()),
            (jwt_header_kid_of(token@) is Some && spec_decode_ok(token@) && spec_payload_claims_ok(
                token@,
            )) ==> exists|claims: Claims, kid: Option<String>|
                spec_claims_match(spec_payload_members(token@), claims) && opt_str_view(kid)
                    == jwt_header_kid_of(token@)->0 && spec_validate_post(
                    *old(self),
                    *final(self),
                    claims,
                    kid,
                    now,
                    r,
                ),
    {
        let header = match decode_header_wrapper(token) {
            Ok(h) => h,
            Err(m) => {
                return Err(AuthError::JwtError(m));
            },
        };
        let claims = match decode_token_unsafe(token) {
            Ok(c) => c,
            Err(e) => {
                return Err(e);
            },
        };
        let ghost gclaims = claims;
        let ghost gkid = header.kid;
        let res = self.validate_claims(token, &header, claims, now);
        proof {
            assert(opt_str_view(gkid) == jwt_header_kid_of(token@)->0);
            assert(spec_claims_match(spec_payload_members(token@), gclaims));
            assert(spec_validate_post(*old(self), *self, gclaims, gkid, now, res));
        }
        res
    }

    /// Best-effort identity from an unverified token: decode failures are
    /// terminal exactly as in `decode_token_unsafe`, and every decodable
    /// payload yields an identity; never use the result for authorization
    /// decisions.
    pub fn get_user_from_token(&self, token: &str) -> (r: Result<User, AuthError>)
        ensures
            r matches Err(AuthError::InvalidTokenFormat) <==> (!spec_three_segments(token@)
                || b64url_decode_of(spec_payload_text(token@)) is None),
            (spec_decode_ok(token@) && !spec_payload_claims_ok(token@)) ==> r matches Err(
                AuthError::JsonError(_),
            ),
            r is Ok <==> (spec_decode_ok(token@) && spec_payload_claims_ok(token@)),
            r is Ok ==> exists|c: Claims|
                #[trigger] spec_claims_match(spec_payload_members(token@), c)
                    && spec_identity_post(c, r->Ok_0),
            r is Err ==> (r->Err_0 matches AuthError::InvalidTokenFormat || r->Err_0 matches
                AuthError::JsonError(_)),
    {
        let claims = match decode_token_unsafe(token) {
            Ok(c) => c,
            Err(e) => {
                return Err(e);
            },
        };
        let ghost gclaims = claims;
        let user = User::from_claims(&claims);
        proof {
            assert(spec_claims_match(spec_payload_members(token@), gclaims));
            assert(spec_identity_post(gclaims, user));
            assert(exists|c: Claims|
                spec_claims_match(spec_payload_members(token@), c) && spec_identity_post(c, user));
        }
        Ok(user)
    }

    /// Finishes an external-scheme validation with a freshly fetched key
    /// set: the endpoint's cache entry is whole-replaced (evicting the
    /// least-recently-used endpoint at capacity); a key id the endpoint does
    /// not vouch for is malformed input; otherwise the token is verified
    /// with the published key.
    pub fn complete_jwks_validation(
        &mut self,
        token: &str,
        issuer: &str,
        alg: jsonwebtoken::Algorithm,
        endpoint: String,
        kid: &String,
        keys: KeySet,
        claims: Claims,
    ) -> (r: Result<TokenValidationResult, AuthError>)
        ensures
            final(self).config == old(self).config,
            final(self).cache.capacity() == old(self).cache.capacity(),
            ({
                let (nc, no) = spec_store(
                    old(self).cache.contents(),
                    old(self).cache.order(),
                    old(self).cache.capacity(),
                    endpoint@,
                    keys@,
                );
                final(self).cache.contents() == nc && final(self).cache.order() == no
            }),
            match spec_kid_lookup(keys@, kid@) {
                None => r matches Err(AuthError::InvalidTokenFormat),
                Some(_) => r matches Ok(out) && exists|v: JwtVerifyOutcome| jwks_outcome_matches(
                    v,
                    claims,
                    out,
                ),
            },
    {
        let ghost gclaims = claims;
        let hit = crate::cache::kid_search(&keys, kid);
        self.cache.store(endpoint, keys);
        match hit {
            None => Err(AuthError::InvalidTokenFormat),
            Some((n, e)) => {
                let v = verify_with_rsa_components(token, n.as_str(), e.as_str(), alg, issuer);
                let ghost gv = v;
                let out = jwks_outcome(v, claims);
                proof {
                    assert(jwks_outcome_matches(gv, gclaims, out));
                }
                Ok(out)
            },
        }
    }
}

/// How one entry of a published key set reads: skipped (not an RSA key, or
/// unusable components), kept with its fields, or malformed (an RSA entry
/// without string modulus and exponent).
pub enum KeyParse {
    Skip,
    Add(Seq<char>, Seq<char>, Seq<char>),
    Bad,
}

/// The member named `key` as a string, or empty when absent or not one.
pub open spec fn spec_member_str_or_empty(m: Seq<(String, JsonVal)>, key: Seq<char>) -> Seq<
    char,
> {
    match obj_lookup(m, key) {
        Some(v) => match v {
            JsonVal::Str(s) => s@,
            _ => Seq::empty(),
        },
        None => Seq::empty(),
    }
}

/// How one entry of the `keys` array reads.
pub open spec fn spec_key_entry(item: JsonVal) -> KeyParse {
    let m = item_members(item);
    if spec_member_str_or_empty(m, "kty"@) != "RSA"@ {
        KeyParse::Skip
    } else {
        match (obj_lookup(m, "n"@), obj_lookup(m, "e"@)) {
            (Some(JsonVal::Str(n)), Some(JsonVal::Str(e))) => if rsa_components_ok(n@, e@) {
                KeyParse::Add(spec_member_str_or_empty(m, "kid"@), n@, e@)
            } else {
                KeyParse::Skip
            },
            _ => KeyParse::Bad,
        }
    }
}

/// The key set a `keys` array yields, in order; nothing when some RSA entry
/// is malformed.
pub open spec fn spec_keyset(items: Seq<JsonVal>) -> Option<
    Seq<(Seq<char>, Seq<char>, Seq<char>)>,
>
    decreases items.len(),
{
    if items.len() == 0 {
        Some(Seq::empty())
    } else {
        match spec_keyset(items.drop_last()) {
            None => None,
            Some(ks) => match spec_key_entry(items.last()) {
                KeyParse::Skip => Some(ks),
                KeyParse::Add(kid, n, e) => Some(ks.push((kid, n, e))),
                KeyParse::Bad => None,
            },
        }
    }
}

/// The built key set carries exactly these entries, field by field.
pub open spec fn keyset_matches(
    ks: Seq<(String, String, String)>,
    spec_ks: Seq<(Seq<char>, Seq<char>, Seq<char>)>,
) -> bool {
    ks.len() == spec_ks.len() && forall|i: int|
        0 <= i < ks.len() ==> (#[trigger] ks[i]).0@ == spec_ks[i].0 && ks[i].1@ == spec_ks[i].1
            && ks[i].2@ == spec_ks[i].2
}

/// A malformed prefix settles the whole array.
proof fn lemma_keyset_none(items: Seq<JsonVal>, k: int)
    requires
        0 <= k <= items.len(),
        spec_keyset(items.subrange(0, k)) is None,
    ensures
        spec_keyset(items) is None,
    decreases items.len() - k,
{
    if k < items.len() {
        assert(items.subrange(0, k + 1).drop_last() =~= items.subrange(0, k));
        lemma_keyset_none(items, k + 1);
    } else {
        assert(items.subrange(0, items.len() as int) =~= items);
    }
}

/// The member named `key` as a string, or empty when absent or not one.
fn member_str_or_empty(m: &Vec<(String, JsonVal)>, key: &str) -> (r: String)
    ensures
        r@ == spec_member_str_or_empty(m@, key@),
{
    match get_member(m, key) {
        Some(JsonVal::Str(s)) => s.clone(),
        _ => String::new(),
    }
}

/// Parses a key-discovery document: its `keys` array's RSA entries with
/// usable modulus and exponent become the key set in array order, entries of
/// other types are skipped by design, an RSA entry without string modulus
/// and exponent is malformed input, and so is a document without a `keys`
/// array.
pub fn parse_jwks(bytes: &Vec<u8>) -> (r: Result<KeySet, AuthError>)
    ensures
        (r matches Err(AuthError::JsonError(_))) <==> json_doc_of(bytes@) is None,
        json_doc_of(bytes@) is Some ==> (match obj_lookup(
            item_members(json_doc_of(bytes@)->0),
            "keys"@,
        ) {
            Some(kv) => match kv {
                JsonVal::Arr(items) => (match spec_keyset(items@) {
                    Some(ks) => r is Ok && keyset_matches(r->Ok_0@, ks),
                    None => r matches Err(AuthError::InvalidTokenFormat),
                }),
                _ => r matches Err(AuthError::InvalidTokenFormat),
            },
            None => r matches Err(AuthError::InvalidTokenFormat),
        }),
{
    let doc = match json_parse_doc(bytes) {
        Ok(d) => d,
        Err(m) => {
            return Err(AuthError::JsonError(m));
        },
    };
    let members = match doc {
        JsonVal::Obj(m) => m,
        _ => {
            proof {
                assert(false);
            }
            return Err(AuthError::JsonError(String::new()));
        },
    };
    let keys_v = match get_member(&members, "keys") {
        Some(v) => v,
        None => {
            return Err(AuthError::InvalidTokenFormat);
        },
    };
    let items = match keys_v {
        JsonVal::Arr(items) => items,
        _ => {
            return Err(AuthError::InvalidTokenFormat);
        },
    };
    let no_members: Vec<(String, JsonVal)> = Vec::new();
    let mut out: KeySet = Vec::new();
    let mut i: usize = 0;
    while i < items.len()
        invariant
            i <= items@.len(),
            no_members@.len() == 0,
            json_doc_of(bytes@) is Some,
            members@ == item_members(json_doc_of(bytes@)->0),
            obj_lookup(members@, "keys"@) == Some(JsonVal::Arr(*items)),
            spec_keyset(items@.subrange(0, i as int)) is Some,
            keyset_matches(out@, spec_keyset(items@.subrange(0, i as int))->0),
        decreases items@.len() - i,
    {
        proof {
            let pre = items@.subrange(0, i + 1);
            assert(pre.drop_last() =~= items@.subrange(0, i as int));
            assert(pre.last() == items@[i as int]);
        }
        let im = match &items[i] {
            JsonVal::Obj(m2) => m2,
            _ => &no_members,
        };
        proof {
            assert(im@ =~= item_members(items@[i as int]));
        }
        let kty = member_str_or_empty(im, "kty");
        if str_eq(kty.as_str(), "RSA") {
            let n = match get_member(im, "n") {
                Some(JsonVal::Str(s)) => s.clone(),
                _ => {
                    proof {
                        lemma_keyset_none(items@, i + 1);
                    }
                    return Err(AuthError::InvalidTokenFormat);
                },
            };
            let e = match get_member(im, "e") {
                Some(JsonVal::Str(s)) => s.clone(),
                _ => {
                    proof {
                        lemma_keyset_none(items@, i + 1);
                    }
                    return Err(AuthError::InvalidTokenFormat);
                },
            };
            if rsa_components_valid(n.as_str(), e.as_str()) {
                let kid = member_str_or_empty(im, "kid");
                out.push((kid, n, e));
            }
        }
        i = i + 1;
    }
    proof {
        assert(items@.subrange(0, items@.len() as int) =~= items@);
    }
    Ok(out)
}

} // verus!

//! The subsystem's laws, each proved over the public contracts: expiry
//! precedence, internal-scheme dispatch, missing-issuer rejection, cache
//! idempotence, and the cache bound with least-recently-used eviction.

use vstd::prelude::*;

use crate::cache::{
    spec_kid_lookup, spec_lookup_post, spec_store, JwksKeyCache, KeyEntry,
};
use crate::error::AuthError;
use crate::models::{spec_all_roles, spec_client_roles, spec_extract_roles, Claims};

use crate::jwt::JwtVerifyOutcome;
use crate::models::TokenValidationResult;
use crate::validator::{
    done_ok, internal_outcome_matches, spec_validate_post, TokenValidator, ValidationStep,
};

verus! {

/// Expiry takes precedence: whenever the claims carry an expiration at or
/// before the caller's clock, the validation pass ends in `Expired`,
/// whatever the configuration, the cache, and the token's signature.
pub proof fn lemma_expired_takes_precedence(
    v_old: TokenValidator,
    v_new: TokenValidator,
    claims: Claims,
    kid: Option<String>,
    now: i64,
    r: Result<ValidationStep, AuthError>,
)
    requires
        claims.spec_is_expired(now),
        spec_validate_post(v_old, v_new, claims, kid, now, r),
    ensures
        r == done_ok(TokenValidationResult::Expired),
{
}

/// Any internal-scheme marker dispatches to the internal path, even when an
/// issuer claim is also present: without a configured secret the pass fails
/// with missing configuration, and with one it ends in an internal-scheme
/// outcome — never in issuer resolution or a key fetch.
pub proof fn lemma_internal_marker_dispatch(
    v_old: TokenValidator,
    v_new: TokenValidator,
    claims: Claims,
    kid: Option<String>,
    now: i64,
    r: Result<ValidationStep, AuthError>,
)
    requires
        !claims.spec_is_expired(now),
        claims.spec_is_internal(),
        spec_validate_post(v_old, v_new, claims, kid, now, r),
    ensures
        v_old.config.ship_symmetric_key is None ==> r matches Err(AuthError::MissingConfig),
        v_old.config.ship_symmetric_key is Some ==> (r matches Ok(ValidationStep::Done(out))
            && exists|v: JwtVerifyOutcome| internal_outcome_matches(v, claims, out)),
{
}

/// A token lacking both an internal-scheme marker and an issuer claim is
/// malformed input. (An expired such token is reported `Expired` instead:
/// the expiry short-circuit comes first.)
pub proof fn lemma_missing_issuer_is_malformed(
    v_old: TokenValidator,
    v_new: TokenValidator,
    claims: Claims,
    kid: Option<String>,
    now: i64,
    r: Result<ValidationStep, AuthError>,
)
    requires
        !claims.spec_is_expired(now),
        !claims.spec_is_internal(),
        claims.iss is None,
        spec_validate_post(v_old, v_new, claims, kid, now, r),
    ensures
        r matches Err(AuthError::InvalidTokenFormat),
{
}

/// Resolution is idempotent: two successive lookups of one endpoint and key
/// id with no intervening store return identical key material, and a hit on
/// the first call means the second needs no fetch.
pub proof fn lemma_resolve_idempotent(
    c0: JwksKeyCache,
    c1: JwksKeyCache,
    c2: JwksKeyCache,
    endpoint: String,
    kid: String,
    r1: Option<(String, String)>,
    r2: Option<(String, String)>,
)
    requires
        spec_lookup_post(c0, c1, endpoint, kid, r1),
        r1 is Some,
        spec_lookup_post(c1, c2, endpoint, kid, r2),
    ensures
        r2 == r1,
        c2.contents() == c0.contents(),
{
}

/// The cache state after storing each key under an empty set, oldest first,
/// into an initially empty cache.
pub open spec fn spec_fill(keys: Seq<Seq<char>>, cap: nat) -> (
    Map<Seq<char>, Seq<KeyEntry>>,
    Seq<Seq<char>>,
)
    decreases keys.len(),
{
    if keys.len() == 0 {
        (Map::empty(), Seq::empty())
    } else {
        let (c, o) = spec_fill(keys.drop_last(), cap);
        spec_store(c, o, cap, keys.last(), Seq::empty())
    }
}

/// Filling an empty cache with up to `cap` distinct endpoints keeps them
/// all, most recently stored first.
pub proof fn lemma_fill_within_capacity(keys: Seq<Seq<char>>, cap: nat)
    requires
        keys.no_duplicates(),
        keys.len() <= cap,
    ensures
        spec_fill(keys, cap).1 =~= keys.reverse(),
        forall|k: Seq<char>| #[trigger]
            spec_fill(keys, cap).0.dom().contains(k) <==> keys.contains(k),
    decreases keys.len(),
{
    if keys.len() > 0 {
        let dl = keys.drop_last();
        assert(dl.no_duplicates());
        lemma_fill_within_capacity(dl, cap);
        let (c, o) = spec_fill(dl, cap);
        assert(!dl.contains(keys.last()));
        assert(!c.dom().contains(keys.last()));
        assert(o.len() == dl.reverse().len());
        assert(spec_fill(keys, cap).1 =~= seq![keys.last()] + o);
        assert(seq![keys.last()] + dl.reverse() =~= keys.reverse());
        assert forall|k: Seq<char>| #[trigger]
            spec_fill(keys, cap).0.dom().contains(k) <==> keys.contains(k) by {
            if keys.contains(k) {
                let i = choose|i: int| 0 <= i < keys.len() && keys[i] == k;
                if i < keys.len() - 1 {
                    assert(dl[i] == k);
                    assert(dl.contains(k));
                }
            }
            if spec_fill(keys, cap).0.dom().contains(k) {
                if k != keys.last() {
                    assert(dl.contains(k));
                    let i = choose|i: int| 0 <= i < dl.len() && dl[i] == k;
                    assert(keys[i] == k);
                }
            }
        }
    }
}

/// The cache bound: after storing one more distinct endpoint than the
/// capacity into an initially empty cache, exactly `cap` endpoints are
/// retained and the least recently stored one — the first — is absent.
pub proof fn lemma_cache_bound(keys: Seq<Seq<char>>, cap: nat)
    requires
        keys.no_duplicates(),
        keys.len() == cap + 1,
        cap >= 1,
    ensures
        spec_fill(keys, cap).1.len() == cap,
        !spec_fill(keys, cap).0.dom().contains(keys[0]),
        forall|i: int| 1 <= i < keys.len() ==> spec_fill(keys, cap).0.dom().contains(#[trigger]
        keys[i]),
{
    let dl = keys.drop_last();
    assert(dl.no_duplicates());
    lemma_fill_within_capacity(dl, cap);
    let (c, o) = spec_fill(dl, cap);
    assert(o =~= dl.reverse());
    assert(o.len() == cap);
    assert(o.last() == dl.reverse()[cap - 1]);
    assert(dl.reverse()[cap - 1] == dl[0]);
    assert(!dl.contains(keys.last()));
    assert(!c.dom().contains(keys.last()));
    let (c2, o2) = spec_fill(keys, cap);
    assert(c2 == c.remove(dl[0]).insert(keys.last(), Seq::empty()));
    assert(o2 == seq![keys.last()] + o.drop_last());
    assert(o2.len() == cap);
    assert(keys[0] == dl[0]);
    assert(keys[0] != keys.last());
    assert(!c2.dom().contains(keys[0]));
    assert forall|i: int| 1 <= i < keys.len() implies c2.dom().contains(#[trigger] keys[i]) by {
        if i < keys.len() - 1 {
            assert(dl[i] == keys[i]);
            assert(dl.contains(keys[i]));
            assert(c.dom().contains(keys[i]));
            assert(keys[i] != keys[0]);
        }
    }
}

/// Role extraction prefers the dedicated client: with a non-empty role list
/// under it, only those roles appear; with that client absent or empty,
/// every client's roles are aggregated in map order.
pub proof fn lemma_role_extraction(c: Claims)
    requires
        c.resource_access is Some,
    ensures
        ({
            let ra = c.resource_access->0@;
            let tms = spec_client_roles(ra, "tms"@);
            &&& (tms is Some && tms->0.len() > 0) ==> spec_extract_roles(&c) == tms->0
            &&& (tms is None || tms->0.len() == 0) ==> spec_extract_roles(&c) == spec_all_roles(ra)
        }),
{
}

} // verus!

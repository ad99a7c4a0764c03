//! Validation configuration: trusted issuers and their key-discovery
//! endpoints, the shared secret of the internal token scheme, and the
//! development-only bypass flag.
//!
//! The issuer table is kept in declaration order, one endpoint per issuer
//! name, so endpoint resolution (first substring match) is deterministic.

use vstd::prelude::*;

use crate::strutil::{chars_of_str, contains_sub, has_substring};

verus! {

/// Immutable configuration of a `TokenValidator`.
#[derive(Debug, Clone)]
pub struct TokenValidationConfig {
    /// Trusted issuer names, each with its key-discovery endpoint.
    pub jwks_issuers: Vec<(String, String)>,
    /// Shared secret of the internal token scheme.
    pub ship_symmetric_key: Option<String>,
    /// Accept tokens whose issuer contains "test" without verification.
    pub allow_test_tokens: bool,
}

/// The first configured pair whose issuer name occurs in `issuer`, in
/// declaration order.
pub open spec fn spec_resolve_endpoint(pairs: Seq<(String, String)>, issuer: Seq<char>) -> Option<
    (String, String),
>
    decreases pairs.len(),
{
    if pairs.len() == 0 {
        None
    } else if has_substring(issuer, pairs[0].0@) {
        Some(pairs[0])
    } else {
        spec_resolve_endpoint(pairs.drop_first(), issuer)
    }
}

impl TokenValidationConfig {
    /// One endpoint per issuer name.
    pub open spec fn wf(&self) -> bool {
        forall|i: int, j: int|
            0 <= i < j < self.jwks_issuers@.len() ==> self.jwks_issuers@[i].0@
                != self.jwks_issuers@[j].0@
    }

    /// An empty configuration: no trusted issuers, no shared secret, no
    /// bypass.
    pub fn new() -> (r: Self)
        ensures
            r.jwks_issuers@.len() == 0,
            r.ship_symmetric_key is None,
            !r.allow_test_tokens,
            r.wf(),
    {
        TokenValidationConfig {
            jwks_issuers: Vec::new(),
            ship_symmetric_key: None,
            allow_test_tokens: false,
        }
    }

    /// Registers `jwks_url` as the key-discovery endpoint of `issuer`,
    /// replacing the endpoint of an already-registered issuer of that name.
    pub fn add_jwks_issuer(self, issuer: String, jwks_url: String) -> (r: Self)
        requires
            self.wf(),
        ensures
            r.wf(),
            r.ship_symmetric_key == self.ship_symmetric_key,
            r.allow_test_tokens == self.allow_test_tokens,
            (forall|k: int|
                0 <= k < self.jwks_issuers@.len() ==> self.jwks_issuers@[k].0@ != issuer@)
                ==> r.jwks_issuers@ == self.jwks_issuers@.push((issuer, jwks_url)),
            (exists|k: int|
                0 <= k < self.jwks_issuers@.len() && self.jwks_issuers@[k].0@ == issuer@) ==> (
            exists|k: int|
                0 <= k < self.jwks_issuers@.len() && self.jwks_issuers@[k].0@ == issuer@
                    && r.jwks_issuers@ == self.jwks_issuers@.update(k, (issuer, jwks_url))),
    {
        let mut pairs = self.jwks_issuers;
        let ghost orig = pairs@;
        let mut i: usize = 0;
        while i < pairs.len()
            invariant
                pairs@ == orig,
                orig == self.jwks_issuers@,
                self.wf(),
                i <= orig.len(),
                forall|k: int| 0 <= k < i ==> orig[k].0@ != issuer@,
            decreases pairs.len() - i,
        {
            if pairs[i].0.eq(&issuer) {
                let _ = pairs.remove(i);
                pairs.insert(i, (issuer, jwks_url));
                proof {
                    let k = i as int;
                    assert(orig[k].0@ == issuer@);
                    assert(pairs@ =~= orig.update(k, (issuer, jwks_url)));
                    assert(forall|x: int| 0 <= x < pairs@.len() ==> pairs@[x].0@ == orig[x].0@);
                    assert forall|a: int, b: int|
                        0 <= a < b < pairs@.len() implies pairs@[a].0@ != pairs@[b].0@ by {
                        assert(self.jwks_issuers@[a].0@ != self.jwks_issuers@[b].0@);
                        assert(pairs@[a].0@ == orig[a].0@);
                        assert(pairs@[b].0@ == orig[b].0@);
                    }
                }
                return TokenValidationConfig {
                    jwks_issuers: pairs,
                    ship_symmetric_key: self.ship_symmetric_key,
                    allow_test_tokens: self.allow_test_tokens,
                };
            }
            i = i + 1;
        }
        pairs.push((issuer, jwks_url));
        TokenValidationConfig {
            jwks_issuers: pairs,
            ship_symmetric_key: self.ship_symmetric_key,
            allow_test_tokens: self.allow_test_tokens,
        }
    }

    /// Sets the shared secret of the internal token scheme.
    pub fn with_ship_key(self, key: String) -> (r: Self)
        ensures
            r.jwks_issuers == self.jwks_issuers,
            r.ship_symmetric_key == Some(key),
            r.allow_test_tokens == self.allow_test_tokens,
    {
        TokenValidationConfig {
            jwks_issuers: self.jwks_issuers,
            ship_symmetric_key: Some(key),
            allow_test_tokens: self.allow_test_tokens,
        }
    }

    /// Enables the development-only bypass for issuers containing "test".
    pub fn allow_test_tokens(self) -> (r: Self)
        ensures
            r.jwks_issuers == self.jwks_issuers,
            r.ship_symmetric_key == self.ship_symmetric_key,
            r.allow_test_tokens,
    {
        TokenValidationConfig {
            jwks_issuers: self.jwks_issuers,
            ship_symmetric_key: self.ship_symmetric_key,
            allow_test_tokens: true,
        }
    }

    /// The first configured issuer whose name occurs in `issuer`, with its
    /// endpoint.
    pub fn resolve_endpoint(&self, issuer: &Vec<char>) -> (r: Option<(String, String)>)
        ensures
            r == spec_resolve_endpoint(self.jwks_issuers@, issuer@),
    {
        let pairs = &self.jwks_issuers;
        proof {
            assert(pairs@.subrange(0, pairs@.len() as int) =~= pairs@);
        }
        let mut i: usize = 0;
        while i < pairs.len()
            invariant
                i <= pairs@.len(),
                pairs == &self.jwks_issuers,
                spec_resolve_endpoint(pairs@, issuer@) == spec_resolve_endpoint(
                    pairs@.subrange(i as int, pairs@.len() as int),
                    issuer@,
                ),
            decreases pairs.len() - i,
        {
            let name = chars_of_str(pairs[i].0.as_str());
            proof {
                let rest = pairs@.subrange(i as int, pairs@.len() as int);
                assert(rest[0] == pairs@[i as int]);
                assert(rest.drop_first() =~= pairs@.subrange(i + 1, pairs@.len() as int));
            }
            if contains_sub(issuer, &name) {
                let pair = (pairs[i].0.clone(), pairs[i].1.clone());
                proof {
                    let rest = pairs@.subrange(i as int, pairs@.len() as int);
                    assert(has_substring(issuer@, rest[0].0@));
                    assert(spec_resolve_endpoint(rest, issuer@) == Some(rest[0]));
                    assert(pair == pairs@[i as int]);
                }
                return Some(pair);
            }
            i = i + 1;
        }
        proof {
            assert(pairs@.subrange(pairs@.len() as int, pairs@.len() as int) =~= Seq::<(
                String,
                String,
            )>::empty());
        }
        None
    }
}

impl Default for TokenValidationConfig {
    /// Same as `TokenValidationConfig::new`.
    fn default() -> (r: Self)
        ensures
            r.jwks_issuers@.len() == 0,
            r.ship_symmetric_key is None,
            !r.allow_test_tokens,
            r.wf(),
    {
        TokenValidationConfig::new()
    }
}

} // verus!

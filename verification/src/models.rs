//! Typed projection of a token payload, and the identity derived from it.
//!
//! `Claims` is an open record: the fields the validator reads are typed, and
//! every unrecognized payload field is retained with its value in
//! `additional_claims`, so no information is silently dropped.

use vstd::prelude::*;

use crate::jsontree::JsonVal;
use vstd::string::StringExecFns;

verus! {

/// The audience claim, which issuers encode as a scalar or as an array.
#[derive(Debug)]
pub enum Audience {
    Single(String),
    Many(Vec<String>),
}

/// The role list one client carries inside the provider's role map.
#[derive(Debug)]
pub struct ClientRoles {
    pub client: String,
    pub roles: Vec<String>,
}

/// Claims decoded, unauthenticated, from a token payload.
#[derive(Debug)]
pub struct Claims {
    pub iss: Option<String>,
    pub sub: Option<String>,
    pub aud: Option<Audience>,
    pub azp: Option<String>,
    pub exp: Option<i64>,
    pub iat: Option<i64>,
    pub email: Option<String>,
    pub name: Option<String>,
    /// The provider's role map: each client with its role strings.
    pub resource_access: Option<Vec<ClientRoles>>,
    pub customer_id: Option<String>,
    pub user_id: Option<String>,
    pub token_requested_from: Option<String>,
    /// Unrecognized payload fields, each with its value, so no information
    /// is silently dropped.
    pub additional_claims: Vec<(String, JsonVal)>,
}

impl Claims {
    /// A claims record with every field absent.
    pub fn empty() -> (r: Claims)
        ensures
            r.iss is None,
            r.sub is None,
            r.aud is None,
            r.azp is None,
            r.exp is None,
            r.iat is None,
            r.email is None,
            r.name is None,
            r.resource_access is None,
            r.customer_id is None,
            r.user_id is None,
            r.token_requested_from is None,
            r.additional_claims@.len() == 0,
    {
        Claims {
            iss: None,
            sub: None,
            aud: None,
            azp: None,
            exp: None,
            iat: None,
            email: None,
            name: None,
            resource_access: None,
            customer_id: None,
            user_id: None,
            token_requested_from: None,
            additional_claims: Vec::new(),
        }
    }

    /// Any of the three internal-scheme markers is present.
    pub open spec fn spec_is_internal(&self) -> bool {
        self.token_requested_from is Some || self.user_id is Some || self.customer_id is Some
    }

    /// The expiration time is present and `now` is at or past it.
    pub open spec fn spec_is_expired(&self, now: i64) -> bool {
        match self.exp {
            Some(exp) => now >= exp,
            None => false,
        }
    }

    /// Executable form of `spec_is_internal`.
    pub fn is_internal(&self) -> (r: bool)
        ensures
            r == self.spec_is_internal(),
    {
        self.token_requested_from.is_some() || self.user_id.is_some() || self.customer_id.is_some()
    }

    /// Executable form of `spec_is_expired`.
    pub fn is_expired(&self, now: i64) -> (r: bool)
        ensures
            r == self.spec_is_expired(now),
    {
        match &self.exp {
            Some(exp) => now >= *exp,
            None => false,
        }
    }
}

/// The identity an identity projection owes for given claims: the internal
/// user id when present, else the subject, else the empty string; email and
/// display name copied; roles per `spec_extract_roles`.
pub open spec fn spec_identity_post(c: Claims, u: User) -> bool {
    &&& u.id@ == (match c.user_id {
        Some(uid) => uid@,
        None => match c.sub {
            Some(sub) => sub@,
            None => Seq::<char>::empty(),
        },
    })
    &&& u.email == c.email
    &&& u.name == c.name
    &&& u.roles@ == spec_extract_roles(&c)
}

/// Caller identity derived from claims; never persisted.
#[derive(Debug)]
pub struct User {
    pub id: String,
    pub email: Option<String>,
    pub name: Option<String>,
    pub roles: Vec<String>,
}

/// The terminal state of a validation call.
#[derive(Debug)]
pub enum TokenValidationResult {
    Valid { claims: Claims },
    Invalid { reason: String },
    Expired,
    UnknownIssuer { issuer: String },
}

/// The role list of the first client named `name`, in map order.
pub open spec fn spec_client_roles(ra: Seq<ClientRoles>, name: Seq<char>) -> Option<Seq<String>>
    decreases ra.len(),
{
    if ra.len() == 0 {
        None
    } else if ra[0].client@ == name {
        Some(ra[0].roles@)
    } else {
        spec_client_roles(ra.drop_first(), name)
    }
}

/// All clients' roles concatenated, in map order.
pub open spec fn spec_all_roles(ra: Seq<ClientRoles>) -> Seq<String>
    decreases ra.len(),
{
    if ra.len() == 0 {
        Seq::empty()
    } else {
        spec_all_roles(ra.drop_last()) + ra.last().roles@
    }
}

/// The roles an identity carries: the dedicated client's roles when it has
/// any, otherwise every client's roles aggregated.
pub open spec fn spec_extract_roles(c: &Claims) -> Seq<String> {
    match c.resource_access {
        None => Seq::empty(),
        Some(ra) => {
            let tms = spec_client_roles(ra@, "tms"@);
            match tms {
                Some(roles) => if roles.len() > 0 {
                    roles
                } else {
                    spec_all_roles(ra@)
                },
                None => spec_all_roles(ra@),
            }
        },
    }
}

/// Extracts the identity's roles from the provider's role map: the "tms"
/// client's roles when that client is present with a non-empty list,
/// otherwise the roles of all clients aggregated in map order.
pub fn extract_roles_from_claims(claims: &Claims) -> (r: Vec<String>)
    ensures
        r@ == spec_extract_roles(claims),
{
    let mut r: Vec<String> = Vec::new();
    let ra = match &claims.resource_access {
        None => {
            return r;
        },
        Some(ra) => ra,
    };
    let tms_name = String::from_str("tms");
    proof {
        assert(ra@.subrange(0, ra@.len() as int) =~= ra@);
    }
    let mut i: usize = 0;
    let mut tms_found = false;
    while i < ra.len() && !tms_found
        invariant
            i <= ra@.len(),
            tms_name@ == "tms"@,
            !tms_found ==> spec_client_roles(ra@, "tms"@) == spec_client_roles(
                ra@.subrange(i as int, ra@.len() as int),
                "tms"@,
            ),
            !tms_found ==> r@.len() == 0,
            tms_found ==> spec_client_roles(ra@, "tms"@) == Some(r@),
        decreases ra@.len() - i, (if tms_found { 0int } else { 1int }),
    {
        proof {
            let rest = ra@.subrange(i as int, ra@.len() as int);
            assert(rest[0] == ra@[i as int]);
            assert(rest.drop_first() =~= ra@.subrange(i + 1, ra@.len() as int));
        }
        if ra[i].client.eq(&tms_name) {
            let mut j: usize = 0;
            while j < ra[i].roles.len()
                invariant
                    i < ra@.len(),
                    j <= ra@[i as int].roles@.len(),
                    r@ =~= ra@[i as int].roles@.subrange(0, j as int),
                decreases ra@[i as int].roles@.len() - j,
            {
                r.push(ra[i].roles[j].clone());
                proof {
                    assert(r@ =~= ra@[i as int].roles@.subrange(0, j + 1));
                }
                j = j + 1;
            }
            proof {
                assert(r@ =~= ra@[i as int].roles@);
            }
            tms_found = true;
        } else {
            i = i + 1;
        }
    }
    proof {
        if !tms_found {
            if i == ra@.len() {
                assert(ra@.subrange(ra@.len() as int, ra@.len() as int) =~= Seq::<
                    ClientRoles,
                >::empty());
                assert(spec_client_roles(ra@, "tms"@) is None);
            }
        }
    }
    if !r.is_empty() {
        return r;
    }
    // The dedicated client is absent or carries no roles: aggregate every
    // client's roles in map order.
    let mut out: Vec<String> = Vec::new();
    let mut i: usize = 0;
    while i < ra.len()
        invariant
            i <= ra@.len(),
            out@ == spec_all_roles(ra@.subrange(0, i as int)),
        decreases ra.len() - i,
    {
        let mut j: usize = 0;
        while j < ra[i].roles.len()
            invariant
                i < ra@.len(),
                j <= ra@[i as int].roles@.len(),
                out@ =~= spec_all_roles(ra@.subrange(0, i as int)) + ra@[i as int].roles@.subrange(
                    0,
                    j as int,
                ),
            decreases ra@[i as int].roles@.len() - j,
        {
            out.push(ra[i].roles[j].clone());
            proof {
                assert(ra@[i as int].roles@.subrange(0, j + 1) =~= ra@[i as int].roles@.subrange(
                    0,
                    j as int,
                ).push(ra@[i as int].roles@[j as int]));
            }
            j = j + 1;
        }
        proof {
            let pre = ra@.subrange(0, i + 1);
            assert(pre.drop_last() =~= ra@.subrange(0, i as int));
            assert(pre.last() == ra@[i as int]);
            assert(ra@[i as int].roles@.subrange(0, j as int) =~= ra@[i as int].roles@);
            assert(out@ =~= spec_all_roles(pre));
        }
        i = i + 1;
    }
    proof {
        assert(ra@.subrange(0, ra@.len() as int) =~= ra@);
        if spec_client_roles(ra@, "tms"@) is Some {
            assert(spec_client_roles(ra@, "tms"@)->0.len() == 0);
        }
    }
    out
}

impl User {
    /// Derives the caller identity: the internal user id when present, else
    /// the subject, else the empty string; email and display name copied;
    /// roles per `extract_roles_from_claims`.
    pub fn from_claims(claims: &Claims) -> (r: User)
        ensures
            spec_identity_post(*claims, r),
    {
        let roles = extract_roles_from_claims(claims);
        let id = match &claims.user_id {
            Some(uid) => uid.clone(),
            None => match &claims.sub {
                Some(sub) => sub.clone(),
                None => String::new(),
            },
        };
        let email = match &claims.email {
            Some(e) => Some(e.clone()),
            None => None,
        };
        let name = match &claims.name {
            Some(n) => Some(n.clone()),
            None => None,
        };
        User { id, email, name, roles }
    }
}

} // verus!

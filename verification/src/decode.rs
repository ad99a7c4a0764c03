//! Unauthenticated claims decoding: a token is three dot-separated segments;
//! the middle one, base64url without padding, holds the claims as one JSON
//! object. The object is read as the library's JSON tree, so the whole
//! projection — which payloads decode, which members are schema mismatches,
//! and exactly what claims come back — is stated over the payload bytes.
//! This decode runs before any signature check and is never a trust boundary
//! on its own.

use vstd::prelude::*;

use base64::Engine;

use crate::error::AuthError;
use crate::jsontree::{get_member, item_members, obj_lookup, JsonVal};
use crate::jsonx::{json_doc_of, json_parse_doc};
use crate::models::{Audience, Claims, ClientRoles};
use crate::numtext::{clamp_i64, number_text_trunc, spec_number_trunc};
use crate::strutil::{chars_of_str, str_eq, string_from_chars, subvec};
use vstd::string::StringExecFns;

verus! {

/// What base64url decoding (no padding) makes of the text: a function of the
/// text alone.
pub uninterp spec fn b64url_decode_of(s: Seq<char>) -> Option<Seq<u8>>;

/// Relies on base64's URL_SAFE_NO_PAD engine: the decoded bytes exactly when
/// the text is unpadded base64url.
#[verifier::external_body]
pub(crate) fn b64url_decode(s: &str) -> (r: Option<Vec<u8>>)
    ensures
        r is Some <==> b64url_decode_of(s@) is Some,
        r is Some ==> r->0@ == b64url_decode_of(s@)->0,
{
    base64::engine::general_purpose::URL_SAFE_NO_PAD.decode(s.as_bytes()).ok()
}

/// The position of the first dot at or after `i`, or the text's end.
pub open spec fn next_dot(s: Seq<char>, i: int) -> int
    decreases s.len() - i,
    when 0 <= i <= s.len()
{
    if i < s.len() && s[i] != '.' {
        next_dot(s, i + 1)
    } else {
        i
    }
}

/// The text is exactly three dot-separated segments.
pub open spec fn spec_three_segments(s: Seq<char>) -> bool {
    let d1 = next_dot(s, 0);
    d1 < s.len() && {
        let d2 = next_dot(s, d1 + 1);
        d2 < s.len() && next_dot(s, d2 + 1) == s.len()
    }
}

/// The middle segment: the base64url text of the payload.
pub open spec fn spec_payload_text(s: Seq<char>) -> Seq<char> {
    let d1 = next_dot(s, 0);
    s.subrange(d1 + 1, next_dot(s, d1 + 1))
}

proof fn lemma_next_dot_bounds(s: Seq<char>, i: int)
    requires
        0 <= i <= s.len(),
    ensures
        i <= next_dot(s, i) <= s.len(),
    decreases s.len() - i,
{
    if i < s.len() && s[i] != '.' {
        lemma_next_dot_bounds(s, i + 1);
    }
}

/// The position of the first dot of `s` at or after `from`.
fn next_dot_exec(s: &Vec<char>, from: usize) -> (r: usize)
    requires
        from <= s@.len(),
    ensures
        r == next_dot(s@, from as int),
        from <= r <= s@.len(),
{
    let mut i: usize = from;
    while i < s.len() && s[i] != '.'
        invariant
            from <= i <= s@.len(),
            s@.len() == s.len(),
            next_dot(s@, from as int) == next_dot(s@, i as int),
        decreases s@.len() - i,
    {
        i = i + 1;
    }
    i
}

/// A payload member the typed record models.
pub open spec fn spec_is_known_key(k: Seq<char>) -> bool {
    ||| k == "iss"@
    ||| k == "sub"@
    ||| k == "aud"@
    ||| k == "azp"@
    ||| k == "exp"@
    ||| k == "iat"@
    ||| k == "email"@
    ||| k == "name"@
    ||| k == "resource_access"@
    ||| k == "customerId"@
    ||| k == "userId"@
    ||| k == "tokenRequestedFrom"@
}

/// A string claim: absent or null is no value, a string is its value, and
/// any other encoding is a schema mismatch (the outer `None`).
pub open spec fn spec_opt_str(m: Seq<(String, JsonVal)>, key: Seq<char>) -> Option<Option<String>> {
    match obj_lookup(m, key) {
        None => Some(None),
        Some(v) => match v {
            JsonVal::Null => Some(None),
            JsonVal::Str(s) => Some(Some(s)),
            _ => None,
        },
    }
}

/// A timestamp claim: a number's text truncated toward zero into the 64-bit
/// range; absent, null or non-numeric is unknown, never an error.
pub open spec fn spec_timestamp_val(m: Seq<(String, JsonVal)>, key: Seq<char>) -> Option<i64> {
    match obj_lookup(m, key) {
        Some(v) => match v {
            JsonVal::Num(t) => match spec_number_trunc(t@) {
                Some(n) => Some(clamp_i64(n)),
                None => None,
            },
            _ => None,
        },
        None => None,
    }
}

/// The strings of an array whose elements are all strings.
pub open spec fn spec_str_items(items: Seq<JsonVal>) -> Option<Seq<String>>
    decreases items.len(),
{
    if items.len() == 0 {
        Some(Seq::empty())
    } else {
        match spec_str_items(items.drop_last()) {
            None => None,
            Some(pre) => match items.last() {
                JsonVal::Str(s) => Some(pre.push(s)),
                _ => None,
            },
        }
    }
}

/// The audience member admits one of its tolerated encodings: absent, null,
/// a scalar string, or an array of strings.
pub open spec fn spec_aud_ok(m: Seq<(String, JsonVal)>) -> bool {
    match obj_lookup(m, "aud"@) {
        None => true,
        Some(v) => match v {
            JsonVal::Null => true,
            JsonVal::Str(_) => true,
            JsonVal::Arr(items) => spec_str_items(items@) is Some,
            _ => false,
        },
    }
}

/// `a` is the audience the member encodes.
pub open spec fn spec_aud_matches(m: Seq<(String, JsonVal)>, a: Option<Audience>) -> bool {
    match obj_lookup(m, "aud"@) {
        None => a is None,
        Some(v) => match v {
            JsonVal::Null => a is None,
            JsonVal::Str(s) => a == Some(Audience::Single(s)),
            JsonVal::Arr(items) => match spec_str_items(items@) {
                Some(ss) => (a matches Some(Audience::Many(vv)) && vv@ == ss),
                None => false,
            },
            _ => false,
        },
    }
}

/// The string elements of an array, in order, skipping the rest.
pub open spec fn spec_strs_only(items: Seq<JsonVal>) -> Seq<String>
    decreases items.len(),
{
    if items.len() == 0 {
        Seq::empty()
    } else {
        let pre = spec_strs_only(items.drop_last());
        match items.last() {
            JsonVal::Str(s) => pre.push(s),
            _ => pre,
        }
    }
}

/// One client's roles: the string elements of its `roles` array; a client
/// without such an array carries no roles (the extraction rule's own
/// tolerance).
pub open spec fn spec_client_role_list(v: JsonVal) -> Seq<String> {
    match obj_lookup(item_members(v), "roles"@) {
        Some(rv) => match rv {
            JsonVal::Arr(items) => spec_strs_only(items@),
            _ => Seq::empty(),
        },
        None => Seq::empty(),
    }
}

/// The role-map member admits its encoding: absent, null, or an object.
pub open spec fn spec_ra_ok(m: Seq<(String, JsonVal)>) -> bool {
    match obj_lookup(m, "resource_access"@) {
        None => true,
        Some(v) => v is Null || v is Obj,
    }
}

/// `ra` is the role map the member encodes: every client in map order, each
/// with its role strings.
pub open spec fn spec_ra_matches(
    m: Seq<(String, JsonVal)>,
    ra: Option<Vec<ClientRoles>>,
) -> bool {
    match obj_lookup(m, "resource_access"@) {
        None => ra is None,
        Some(v) => match v {
            JsonVal::Null => ra is None,
            JsonVal::Obj(clients) => (ra matches Some(list) && list@.len() == clients@.len()
                && forall|i: int|
                0 <= i < clients@.len() ==> (#[trigger] list@[i]).client == clients@[i].0
                    && list@[i].roles@ == spec_client_role_list(clients@[i].1)),
            _ => false,
        },
    }
}

/// The unrecognized members, in map order, each with its value.
pub open spec fn spec_extras(m: Seq<(String, JsonVal)>) -> Seq<(String, JsonVal)> {
    m.filter(|p: (String, JsonVal)| !spec_is_known_key(p.0@))
}

/// The payload object decodes as the claims record: every known member
/// carries an encoding the record admits.
pub open spec fn spec_claims_ok(m: Seq<(String, JsonVal)>) -> bool {
    &&& spec_opt_str(m, "iss"@) is Some
    &&& spec_opt_str(m, "sub"@) is Some
    &&& spec_opt_str(m, "azp"@) is Some
    &&& spec_opt_str(m, "email"@) is Some
    &&& spec_opt_str(m, "name"@) is Some
    &&& spec_opt_str(m, "customerId"@) is Some
    &&& spec_opt_str(m, "userId"@) is Some
    &&& spec_opt_str(m, "tokenRequestedFrom"@) is Some
    &&& spec_aud_ok(m)
    &&& spec_ra_ok(m)
}

/// `c` is exactly the claims record the payload object encodes.
pub open spec fn spec_claims_match(m: Seq<(String, JsonVal)>, c: Claims) -> bool {
    &&& Some(c.iss) == spec_opt_str(m, "iss"@)
    &&& Some(c.sub) == spec_opt_str(m, "sub"@)
    &&& Some(c.azp) == spec_opt_str(m, "azp"@)
    &&& Some(c.email) == spec_opt_str(m, "email"@)
    &&& Some(c.name) == spec_opt_str(m, "name"@)
    &&& Some(c.customer_id) == spec_opt_str(m, "customerId"@)
    &&& Some(c.user_id) == spec_opt_str(m, "userId"@)
    &&& Some(c.token_requested_from) == spec_opt_str(m, "tokenRequestedFrom"@)
    &&& c.exp == spec_timestamp_val(m, "exp"@)
    &&& c.iat == spec_timestamp_val(m, "iat"@)
    &&& spec_aud_matches(m, c.aud)
    &&& spec_ra_matches(m, c.resource_access)
    &&& c.additional_claims@ == spec_extras(m)
}

/// The schema-mismatch error for one claim.
fn wrong_type_err(key: &str) -> (e: AuthError)
    ensures
        e matches AuthError::JsonError(m) && m@ == "wrong type for claim "@ + key@,
{
    AuthError::JsonError(String::from_str("wrong type for claim ").concat(key))
}

/// The member named `key` read as a string claim.
fn get_str_field(m: &Vec<(String, JsonVal)>, key: &str) -> (r: Result<Option<String>, AuthError>)
    ensures
        spec_opt_str(m@, key@) is Some ==> (r is Ok && Some(r->Ok_0) == spec_opt_str(m@, key@)),
        spec_opt_str(m@, key@) is None ==> (r matches Err(AuthError::JsonError(_))),
{
    match get_member(m, key) {
        None => Ok(None),
        Some(v) => match v {
            JsonVal::Null => Ok(None),
            JsonVal::Str(s) => Ok(Some(s.clone())),
            _ => Err(wrong_type_err(key)),
        },
    }
}

/// The member named `key` read as a timestamp claim.
fn get_timestamp_field(m: &Vec<(String, JsonVal)>, key: &str) -> (r: Option<i64>)
    ensures
        r == spec_timestamp_val(m@, key@),
{
    match get_member(m, key) {
        None => None,
        Some(v) => match v {
            JsonVal::Num(t) => {
                let cs = chars_of_str(t.as_str());
                number_text_trunc(&cs)
            },
            _ => None,
        },
    }
}

/// The audience member, in either tolerated encoding.
fn decode_audience_field(m: &Vec<(String, JsonVal)>) -> (r: Result<Option<Audience>, AuthError>)
    ensures
        spec_aud_ok(m@) ==> (r is Ok && spec_aud_matches(m@, r->Ok_0)),
        !spec_aud_ok(m@) ==> (r matches Err(AuthError::JsonError(_))),
{
    let v = match get_member(m, "aud") {
        None => {
            return Ok(None);
        },
        Some(v) => v,
    };
    match v {
        JsonVal::Null => Ok(None),
        JsonVal::Str(s) => Ok(Some(Audience::Single(s.clone()))),
        JsonVal::Arr(items) => {
            let mut vals: Vec<String> = Vec::new();
            let mut i: usize = 0;
            while i < items.len()
                invariant
                    i <= items@.len(),
                    obj_lookup(m@, "aud"@) == Some(JsonVal::Arr(*items)),
                    spec_str_items(items@.subrange(0, i as int)) == Some(vals@),
                decreases items@.len() - i,
            {
                proof {
                    let pre = items@.subrange(0, i + 1);
                    assert(pre.drop_last() =~= items@.subrange(0, i as int));
                    assert(pre.last() == items@[i as int]);
                }
                match &items[i] {
                    JsonVal::Str(s) => vals.push(s.clone()),
                    _ => {
                        proof {
                            lemma_str_items_none(items@, i + 1);
                        }
                        return Err(wrong_type_err("aud"));
                    },
                }
                i = i + 1;
            }
            proof {
                assert(items@.subrange(0, items@.len() as int) =~= items@);
            }
            Ok(Some(Audience::Many(vals)))
        },
        _ => Err(wrong_type_err("aud")),
    }
}

/// A prefix without the all-strings shape settles the whole array.
proof fn lemma_str_items_none(items: Seq<JsonVal>, k: int)
    requires
        0 <= k <= items.len(),
        spec_str_items(items.subrange(0, k)) is None,
    ensures
        spec_str_items(items) is None,
    decreases items.len() - k,
{
    if k < items.len() {
        assert(items.subrange(0, k + 1).drop_last() =~= items.subrange(0, k));
        lemma_str_items_none(items, k + 1);
    } else {
        assert(items.subrange(0, items.len() as int) =~= items);
    }
}

/// The role-map member: every client of the object with its role strings.
fn decode_resource_access_field(m: &Vec<(String, JsonVal)>) -> (r: Result<
    Option<Vec<ClientRoles>>,
    AuthError,
>)
    ensures
        spec_ra_ok(m@) ==> (r is Ok && spec_ra_matches(m@, r->Ok_0)),
        !spec_ra_ok(m@) ==> (r matches Err(AuthError::JsonError(_))),
{
    let v = match get_member(m, "resource_access") {
        None => {
            return Ok(None);
        },
        Some(v) => v,
    };
    let clients = match v {
        JsonVal::Null => {
            return Ok(None);
        },
        JsonVal::Obj(clients) => clients,
        _ => {
            return Err(wrong_type_err("resource_access"));
        },
    };
    let mut out: Vec<ClientRoles> = Vec::new();
    let mut i: usize = 0;
    while i < clients.len()
        invariant
            i <= clients@.len(),
            out@.len() == i,
            forall|k: int|
                0 <= k < i ==> (#[trigger] out@[k]).client == clients@[k].0 && out@[k].roles@
                    == spec_client_role_list(clients@[k].1),
        decreases clients@.len() - i,
    {
        let mut roles: Vec<String> = Vec::new();
        let inner = match &clients[i].1 {
            JsonVal::Obj(inner) => Some(get_member(inner, "roles")),
            _ => None,
        };
        if let Some(Some(rv)) = inner {
            if let JsonVal::Arr(items) = rv {
                let mut j: usize = 0;
                while j < items.len()
                    invariant
                        j <= items@.len(),
                        roles@ == spec_strs_only(items@.subrange(0, j as int)),
                    decreases items@.len() - j,
                {
                    proof {
                        let pre = items@.subrange(0, j + 1);
                        assert(pre.drop_last() =~= items@.subrange(0, j as int));
                        assert(pre.last() == items@[j as int]);
                    }
                    if let JsonVal::Str(s) = &items[j] {
                        roles.push(s.clone());
                    }
                    j = j + 1;
                }
                proof {
                    assert(items@.subrange(0, items@.len() as int) =~= items@);
                }
            }
        }
        proof {
            assert(roles@ == spec_client_role_list(clients@[i as int].1));
        }
        out.push(ClientRoles { client: clients[i].0.clone(), roles });
        i = i + 1;
    }
    Ok(Some(out))
}

/// Executable test for `spec_is_known_key`.
fn is_known_key(k: &str) -> (r: bool)
    ensures
        r == spec_is_known_key(k@),
{
    str_eq(k, "iss") || str_eq(k, "sub") || str_eq(k, "aud") || str_eq(k, "azp") || str_eq(k, "exp")
        || str_eq(k, "iat") || str_eq(k, "email") || str_eq(k, "name") || str_eq(
        k,
        "resource_access",
    ) || str_eq(k, "customerId") || str_eq(k, "userId") || str_eq(k, "tokenRequestedFrom")
}

/// Builds the typed claims record from the payload object's members: exactly
/// `spec_claims_match` on success, a schema mismatch error otherwise.
fn claims_from_members(members: Vec<(String, JsonVal)>) -> (r: Result<Claims, AuthError>)
    ensures
        r is Ok <==> spec_claims_ok(members@),
        r is Ok ==> spec_claims_match(members@, r->Ok_0),
        r is Err ==> r->Err_0 matches AuthError::JsonError(_),
{
    let mut claims = Claims::empty();
    claims.iss = match get_str_field(&members, "iss") {
        Ok(v) => v,
        Err(e) => {
            return Err(e);
        },
    };
    claims.sub = match get_str_field(&members, "sub") {
        Ok(v) => v,
        Err(e) => {
            return Err(e);
        },
    };
    claims.azp = match get_str_field(&members, "azp") {
        Ok(v) => v,
        Err(e) => {
            return Err(e);
        },
    };
    claims.email = match get_str_field(&members, "email") {
        Ok(v) => v,
        Err(e) => {
            return Err(e);
        },
    };
    claims.name = match get_str_field(&members, "name") {
        Ok(v) => v,
        Err(e) => {
            return Err(e);
        },
    };
    claims.customer_id = match get_str_field(&members, "customerId") {
        Ok(v) => v,
        Err(e) => {
            return Err(e);
        },
    };
    claims.user_id = match get_str_field(&members, "userId") {
        Ok(v) => v,
        Err(e) => {
            return Err(e);
        },
    };
    claims.token_requested_from = match get_str_field(&members, "tokenRequestedFrom") {
        Ok(v) => v,
        Err(e) => {
            return Err(e);
        },
    };
    claims.exp = get_timestamp_field(&members, "exp");
    claims.iat = get_timestamp_field(&members, "iat");
    claims.aud = match decode_audience_field(&members) {
        Ok(a) => a,
        Err(e) => {
            return Err(e);
        },
    };
    claims.resource_access = match decode_resource_access_field(&members) {
        Ok(ra) => ra,
        Err(e) => {
            return Err(e);
        },
    };
    let ghost orig = members@;
    let mut extra: Vec<(String, JsonVal)> = Vec::new();
    let mut rest = members;
    while rest.len() > 0
        invariant
            rest@.len() <= orig.len(),
            rest@ == orig.subrange(orig.len() - rest@.len(), orig.len() as int),
            extra@ == spec_extras(orig.subrange(0, orig.len() - rest@.len())),
        decreases rest@.len(),
    {
        let ghost done = orig.len() - rest@.len();
        let pair = rest.remove(0);
        proof {
            assert(pair == orig[done]);
            assert(rest@ =~= orig.subrange(done + 1, orig.len() as int));
            let pre = orig.subrange(0, done + 1);
            assert(pre.drop_last() =~= orig.subrange(0, done));
            assert(pre.last() == orig[done]);
            reveal(Seq::filter);
        }
        if !is_known_key(pair.0.as_str()) {
            extra.push(pair);
        }
    }
    proof {
        assert(orig.subrange(0, orig.len() as int) =~= orig);
    }
    claims.additional_claims = extra;
    Ok(claims)
}

/// Decodes a token's claims without any signature check.
///
/// The token must be three dot-separated segments whose middle segment is
/// unpadded base64url, else `InvalidTokenFormat`; the payload bytes must be
/// one JSON object whose known members the record admits, else `JsonError`;
/// and the claims returned are exactly the ones the payload encodes — every
/// clause below is a function of the payload segment alone.
pub fn decode_token_unsafe(token: &str) -> (r: Result<Claims, AuthError>)
    ensures
        r matches Err(AuthError::InvalidTokenFormat) <==> (!spec_three_segments(token@)
            || b64url_decode_of(spec_payload_text(token@)) is None),
        (spec_three_segments(token@) && b64url_decode_of(spec_payload_text(token@)) is Some) ==> {
            let doc = json_doc_of(b64url_decode_of(spec_payload_text(token@))->0);
            &&& ((r matches Err(AuthError::JsonError(_))) <==> (doc is None || !spec_claims_ok(
                item_members(doc->0),
            )))
            &&& (r is Ok <==> (doc is Some && spec_claims_ok(item_members(doc->0))))
            &&& (r is Ok ==> spec_claims_match(item_members(doc->0), r->Ok_0))
        },
        r is Err ==> (r->Err_0 matches AuthError::InvalidTokenFormat || r->Err_0 matches
            AuthError::JsonError(_)),
{
    let chars = chars_of_str(token);
    let n = chars.len();
    let d1 = next_dot_exec(&chars, 0);
    if d1 == n {
        return Err(AuthError::InvalidTokenFormat);
    }
    let d2 = next_dot_exec(&chars, d1 + 1);
    if d2 == n {
        return Err(AuthError::InvalidTokenFormat);
    }
    let d3 = next_dot_exec(&chars, d2 + 1);
    if d3 != n {
        return Err(AuthError::InvalidTokenFormat);
    }
    let payload = subvec(&chars, d1 + 1, d2);
    let payload_str = string_from_chars(&payload);
    proof {
        assert(payload_str@ == spec_payload_text(token@));
    }
    let bytes = match b64url_decode(payload_str.as_str()) {
        Some(b) => b,
        None => {
            return Err(AuthError::InvalidTokenFormat);
        },
    };
    let doc = match json_parse_doc(&bytes) {
        Ok(d) => d,
        Err(m) => {
            return Err(AuthError::JsonError(m));
        },
    };
    let members = match doc {
        JsonVal::Obj(members) => members,
        _ => {
            proof {
                assert(false);
            }
            return Err(AuthError::JsonError(String::new()));
        },
    };
    claims_from_members(members)
}

} // verus!

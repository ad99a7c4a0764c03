//! Trusted surface over `serde_json`: parsing payload bytes into the
//! library's own JSON tree, so every read from the document can be stated in
//! contracts over the bytes.

use vstd::prelude::*;

use crate::jsontree::JsonVal;

verus! {

#[verifier::external_type_specification]
#[verifier::external_body]
pub struct ExValue(serde_json::Value);

/// What `serde_json` makes of the bytes: the document tree exactly when the
/// bytes are one JSON object — a function of the bytes alone.
pub uninterp spec fn json_doc_of(bytes: Seq<u8>) -> Option<JsonVal>;

/// Relies on serde_json::from_slice into serde_json::Map: the document tree
/// (an object; members in map order, numbers as their canonical text)
/// exactly when the bytes are one JSON object, the error's text otherwise.
#[verifier::external_body]
pub(crate) fn json_parse_doc(bytes: &Vec<u8>) -> (r: Result<JsonVal, String>)
    ensures
        r is Ok <==> json_doc_of(bytes@) is Some,
        r is Ok ==> r->Ok_0 == json_doc_of(bytes@)->0,
        r is Ok ==> r->Ok_0 is Obj,
{
    match serde_json::from_slice::<serde_json::Map<String, serde_json::Value>>(bytes.as_slice()) {
        Ok(m) => Ok(JsonVal::Obj(m.iter().map(|(k, v)| (k.clone(), value_tree(v))).collect())),
        Err(e) => Err(e.to_string()),
    }
}

/// Relies on serde_json::Value's variants: the same document as the
/// library's tree, converted one variant to one variant, numbers through
/// their display text.
#[verifier::external_body]
fn value_tree(v: &serde_json::Value) -> JsonVal {
    match v {
        serde_json::Value::Null => JsonVal::Null,
        serde_json::Value::Bool(b) => JsonVal::Bool(*b),
        serde_json::Value::Number(n) => JsonVal::Num(n.to_string()),
        serde_json::Value::String(s) => JsonVal::Str(s.clone()),
        serde_json::Value::Array(a) => JsonVal::Arr(a.iter().map(value_tree).collect()),
        serde_json::Value::Object(o) => JsonVal::Obj(
            o.iter().map(|(k, x)| (k.clone(), value_tree(x))).collect(),
        ),
    }
}

} // verus!

//! The library's own JSON tree: the plain form a parsed document takes so
//! that everything read from it can be stated in contracts. Numbers carry
//! their canonical text; objects keep their members in map order.

use vstd::prelude::*;

verus! {

/// One JSON value, as plain data.
#[derive(Debug, PartialEq)]
pub enum JsonVal {
    Null,
    Bool(bool),
    /// A number, as its canonical text.
    Num(String),
    Str(String),
    Arr(Vec<JsonVal>),
    Obj(Vec<(String, JsonVal)>),
}

/// The value of the first member named `key`, if any.
pub open spec fn obj_lookup(m: Seq<(String, JsonVal)>, key: Seq<char>) -> Option<JsonVal>
    decreases m.len(),
{
    if m.len() == 0 {
        None
    } else if m[0].0@ == key {
        Some(m[0].1)
    } else {
        obj_lookup(m.drop_first(), key)
    }
}

/// An object's members; any other value has none.
pub open spec fn item_members(v: JsonVal) -> Seq<(String, JsonVal)> {
    match v {
        JsonVal::Obj(m) => m@,
        _ => Seq::empty(),
    }
}

/// The value of the first member named `key`, if any.
pub fn get_member<'a>(m: &'a Vec<(String, JsonVal)>, key: &str) -> (r: Option<&'a JsonVal>)
    ensures
        match r {
            Some(v) => obj_lookup(m@, key@) == Some(*v),
            None => obj_lookup(m@, key@) is None,
        },
{
    proof {
        assert(m@.subrange(0, m@.len() as int) =~= m@);
    }
    let mut i: usize = 0;
    while i < m.len()
        invariant
            i <= m@.len(),
            obj_lookup(m@, key@) == obj_lookup(m@.subrange(i as int, m@.len() as int), key@),
        decreases m@.len() - i,
    {
        proof {
            let rest = m@.subrange(i as int, m@.len() as int);
            assert(rest[0] == m@[i as int]);
            assert(rest.drop_first() =~= m@.subrange(i + 1, m@.len() as int));
        }
        if crate::strutil::str_eq(m[i].0.as_str(), key) {
            return Some(&m[i].1);
        }
        i = i + 1;
    }
    proof {
        assert(m@.subrange(m@.len() as int, m@.len() as int) =~= Seq::<(String, JsonVal)>::empty());
    }
    None
}

} // verus!

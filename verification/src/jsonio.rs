//! JSON values as the library sees them: a tree of plain values, produced
//! by one trusted parse step and consumed by verified logic.
//!
//! serde_json parses the text; the resulting value is rendered variant by
//! variant into `JsonVal`, and everything after that — member lookup,
//! coercions, schema walks — is verified code over the tree.

use vstd::prelude::*;

use crate::strutil::str_eq;

verus! {

#[verifier::external_type_specification]
#[verifier::external_body]
pub struct ExValue(serde_json::Value);

/// A parsed JSON document as plain values. Object members are listed in
/// the order serde_json's map yields them, keys unique. A number that is
/// neither a u64 nor an i64 is floating point, whose payload stays outside
/// the library; such numbers are never read by the logic here.
pub enum JsonVal {
    Null,
    Bool(bool),
    UInt(u64),
    Int(i64),
    FloatNum,
    Text(String),
    List(Vec<JsonVal>),
    Object(Vec<(String, JsonVal)>),
}

/// What serde_json parses the text into, rendered as the library's JSON
/// tree: `None` exactly when the text is not JSON. Parsing depends on the
/// text alone.
pub uninterp spec fn json_tree_opt(s: Seq<char>) -> Option<JsonVal>;

/// The text parses as JSON.
pub open spec fn json_ok(s: Seq<char>) -> bool {
    json_tree_opt(s) is Some
}

/// Relies on serde_json::Value's accessors: one arm per variant, fields
/// moved one for one; a number is classified by as_u64/as_i64, a float's
/// payload is left behind.
#[verifier::external_body]
fn value_tree(v: &serde_json::Value) -> (r: JsonVal) {
    match v {
        serde_json::Value::Null => JsonVal::Null,
        serde_json::Value::Bool(b) => JsonVal::Bool(*b),
        serde_json::Value::Number(n) => match (n.as_u64(), n.as_i64()) {
            (Some(u), _) => JsonVal::UInt(u),
            (None, Some(i)) => JsonVal::Int(i),
            (None, None) => JsonVal::FloatNum,
        },
        serde_json::Value::String(s) => JsonVal::Text(s.clone()),
        serde_json::Value::Array(a) => JsonVal::List(a.iter().map(value_tree).collect()),
        serde_json::Value::Object(o) => JsonVal::Object(
            o.iter().map(|(k, x)| (k.clone(), value_tree(x))).collect(),
        ),
    }
}

/// Relies on serde_json::from_str::<Value>: parses the text as a JSON
/// document, success and value a function of the text alone; the value is
/// handed over as the library's tree.
#[verifier::external_body]
pub fn parse_json_tree(s: &str) -> (r: Option<JsonVal>)
    ensures
        r == json_tree_opt(s@),
{
    match serde_json::from_str::<serde_json::Value>(s) {
        Ok(v) => Some(value_tree(&v)),
        Err(_) => None,
    }
}

/// The first member of `pairs` named `key`.
pub open spec fn spec_obj_get(pairs: Seq<(String, JsonVal)>, key: Seq<char>) -> Option<JsonVal>
    decreases pairs.len(),
{
    if pairs.len() == 0 {
        None
    } else if pairs[0].0@ == key {
        Some(pairs[0].1)
    } else {
        spec_obj_get(pairs.drop_first(), key)
    }
}

/// The named member of a JSON object; nothing for other values.
pub open spec fn spec_get(t: JsonVal, key: Seq<char>) -> Option<JsonVal> {
    match t {
        JsonVal::Object(pairs) => spec_obj_get(pairs@, key),
        _ => None,
    }
}

proof fn lemma_obj_get_skip(pairs: Seq<(String, JsonVal)>, key: Seq<char>, i: int)
    requires
        0 <= i <= pairs.len(),
        forall|k: int| 0 <= k < i ==> pairs[k].0@ != key,
    ensures
        spec_obj_get(pairs, key) == spec_obj_get(pairs.skip(i), key),
    decreases i,
{
    if i > 0 {
        lemma_obj_get_skip(pairs.drop_first(), key, i - 1);
        assert(pairs.drop_first().skip(i - 1) =~= pairs.skip(i));
    } else {
        assert(pairs.skip(0) =~= pairs);
    }
}

/// Exec member lookup on the tree.
pub fn tree_get<'a>(t: &'a JsonVal, key: &str) -> (r: Option<&'a JsonVal>)
    ensures
        match r {
            Some(v) => spec_get(*t, key@) == Some(*v),
            None => spec_get(*t, key@) is None,
        },
{
    match t {
        JsonVal::Object(pairs) => {
            let mut i: usize = 0;
            while i < pairs.len()
                invariant
                    i <= pairs@.len(),
                    spec_get(*t, key@) == spec_obj_get(pairs@, key@),
                    forall|k: int| 0 <= k < i ==> pairs@[k].0@ != key@,
                decreases pairs@.len() - i,
            {
                if str_eq(pairs[i].0.as_str(), key) {
                    proof {
                        lemma_obj_get_skip(pairs@, key@, i as int);
                        assert(pairs@.skip(i as int).len() > 0);
                        assert(pairs@.skip(i as int)[0] == pairs@[i as int]);
                        assert(spec_obj_get(pairs@.skip(i as int), key@) == Some(
                            pairs@[i as int].1,
                        ));
                        assert(spec_get(*t, key@) == spec_obj_get(pairs@, key@));
                    }
                    let v = &pairs[i].1;
                    assert(*v == pairs@[i as int].1);
                    return Some(v);
                }
                i = i + 1;
            }
            proof {
                lemma_obj_get_skip(pairs@, key@, pairs@.len() as int);
                assert(pairs@.skip(pairs@.len() as int).len() == 0);
                assert(spec_get(*t, key@) == spec_obj_get(pairs@, key@));
            }
            None
        },
        _ => None,
    }
}

/// The text of a JSON string value.
pub open spec fn spec_as_text(t: JsonVal) -> Option<Seq<char>> {
    match t {
        JsonVal::Text(s) => Some(s@),
        _ => None,
    }
}

/// Exec coercion to text.
pub fn tree_text(t: &JsonVal) -> (r: Option<String>)
    ensures
        r is Some <==> spec_as_text(*t) is Some,
        r is Some ==> r->0@ == spec_as_text(*t)->0,
{
    match t {
        JsonVal::Text(s) => Some(s.clone()),
        _ => None,
    }
}

/// The elements of a JSON array value.
pub open spec fn spec_as_list(t: JsonVal) -> Option<Seq<JsonVal>> {
    match t {
        JsonVal::List(items) => Some(items@),
        _ => None,
    }
}

/// Exec coercion to a list of elements.
pub fn tree_list<'a>(t: &'a JsonVal) -> (r: Option<&'a Vec<JsonVal>>)
    ensures
        match r {
            Some(items) => spec_as_list(*t) == Some(items@),
            None => spec_as_list(*t) is None,
        },
{
    match t {
        JsonVal::List(items) => Some(items),
        _ => None,
    }
}

/// The value of a JSON number that is a non-negative integer.
pub open spec fn spec_as_u64(t: JsonVal) -> Option<u64> {
    match t {
        JsonVal::UInt(u) => Some(u),
        _ => None,
    }
}

/// Exec coercion to a non-negative integer.
pub fn tree_u64(t: &JsonVal) -> (r: Option<u64>)
    ensures
        r == spec_as_u64(*t),
{
    match t {
        JsonVal::UInt(u) => Some(*u),
        _ => None,
    }
}

} // verus!

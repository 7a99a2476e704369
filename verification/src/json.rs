//! A self-contained model of a parsed JSON document.
//!
//! The remote API answers with JSON bodies. The decoding rules of this crate
//! are verified over `JsonNode`, a plain tree of the shapes a body can take;
//! `node_of_value` converts a `serde_json` value into that tree.

use vstd::prelude::*;
use crate::text::str_eq;

verus! {

#[verifier::external_type_specification]
#[verifier::external_body]
pub struct ExValue(serde_json::Value);

#[verifier::external_type_specification]
#[verifier::external_body]
pub struct ExNumber(serde_json::Number);

/// A parsed JSON document. Numbers that fit `i64` are held exactly; any
/// other number is kept as its decimal text in the `Num` variant.
pub enum JsonNode {
    Null,
    Bool(bool),
    Int(i64),
    Num(String),
    Text(String),
    List(Vec<JsonNode>),
    Object(Vec<(String, JsonNode)>),
}

/// The mathematical shape of a `JsonNode`: strings become `Seq<char>`,
/// vectors become `Seq`.
pub enum JsonVal {
    Null,
    Bool(bool),
    Int(i64),
    Num(Seq<char>),
    Text(Seq<char>),
    List(Seq<JsonVal>),
    Object(Seq<(Seq<char>, JsonVal)>),
}

impl JsonNode {
    pub open spec fn deep(self) -> JsonVal
        decreases self,
    {
        match self {
            JsonNode::Null => JsonVal::Null,
            JsonNode::Bool(b) => JsonVal::Bool(b),
            JsonNode::Int(i) => JsonVal::Int(i),
            JsonNode::Num(s) => JsonVal::Num(s@),
            JsonNode::Text(s) => JsonVal::Text(s@),
            JsonNode::List(items) => JsonVal::List(deep_list(items@)),
            JsonNode::Object(fields) => JsonVal::Object(deep_fields(fields@)),
        }
    }
}

pub open spec fn deep_list(items: Seq<JsonNode>) -> Seq<JsonVal>
    decreases items,
{
    if items.len() == 0 {
        Seq::empty()
    } else {
        seq![items[0].deep()] + deep_list(items.drop_first())
    }
}

pub open spec fn deep_fields(fields: Seq<(String, JsonNode)>) -> Seq<(Seq<char>, JsonVal)>
    decreases fields,
{
    if fields.len() == 0 {
        Seq::empty()
    } else {
        seq![(fields[0].0@, fields[0].1.deep())] + deep_fields(fields.drop_first())
    }
}

pub proof fn lemma_deep_list_index(items: Seq<JsonNode>)
    ensures
        deep_list(items).len() == items.len(),
        forall|i: int| 0 <= i < items.len() ==> #[trigger] deep_list(items)[i] == items[i].deep(),
    decreases items,
{
    if items.len() > 0 {
        lemma_deep_list_index(items.drop_first());
        assert(forall|i: int|
            0 <= i < items.drop_first().len() ==> items.drop_first()[i] == items[i + 1]);
    }
}

pub proof fn lemma_deep_fields_index(fields: Seq<(String, JsonNode)>)
    ensures
        deep_fields(fields).len() == fields.len(),
        forall|i: int|
            0 <= i < fields.len() ==> #[trigger] deep_fields(fields)[i] == (
                fields[i].0@,
                fields[i].1.deep(),
            ),
    decreases fields,
{
    if fields.len() > 0 {
        lemma_deep_fields_index(fields.drop_first());
        assert(forall|i: int|
            0 <= i < fields.drop_first().len() ==> fields.drop_first()[i] == fields[i + 1]);
    }
}

/// The value under `key` among an object's fields: the first entry wins.
pub open spec fn jlookup(fields: Seq<(Seq<char>, JsonVal)>, key: Seq<char>) -> Option<JsonVal>
    decreases fields.len(),
{
    if fields.len() == 0 {
        None
    } else if fields[0].0 == key {
        Some(fields[0].1)
    } else {
        jlookup(fields.drop_first(), key)
    }
}

/// Finds a field of an object by name.
pub fn jget<'a>(fields: &'a Vec<(String, JsonNode)>, key: &str) -> (r: Option<&'a JsonNode>)
    ensures
        match r {
            Option::Some(n) => jlookup(deep_fields(fields@), key@) == Some(n.deep()),
            Option::None => jlookup(deep_fields(fields@), key@) is None,
        },
{
    let ghost d = deep_fields(fields@);
    let mut i: usize = 0;
    proof {
        lemma_deep_fields_index(fields@);
        assert(d.skip(0) =~= d);
    }
    while i < fields.len()
        invariant
            i <= fields.len(),
            d == deep_fields(fields@),
            d.len() == fields@.len(),
            forall|j: int|
                0 <= j < fields@.len() ==> #[trigger] d[j] == (
                    fields@[j].0@,
                    fields@[j].1.deep(),
                ),
            jlookup(d, key@) == jlookup(d.skip(i as int), key@),
        decreases fields.len() - i,
    {
        proof {
            assert(d.skip(i as int)[0] == d[i as int]);
            assert(d.skip(i as int).drop_first() =~= d.skip(i + 1));
        }
        if str_eq(fields[i].0.as_str(), key) {
            return Some(&fields[i].1);
        }
        i += 1;
    }
    proof {
        assert(d.skip(i as int).len() == 0);
    }
    None
}

/// The shapes a `serde_json` value can take, one level deep.
pub enum ShallowValue {
    Null,
    Bool(bool),
    Num(serde_json::Number),
    Text(String),
    List(Vec<serde_json::Value>),
    Obj(Vec<(String, serde_json::Value)>),
}

/// Relies on `serde_json::from_slice::<serde_json::Value>`: parses bytes
/// as a JSON document.
#[verifier::external_body]
fn parse_value(bytes: &[u8]) -> Option<serde_json::Value> {
    serde_json::from_slice(bytes).ok()
}

/// Relies on `serde_json::Value` being an enum of exactly these six
/// shapes; each arm moves its payload across unchanged.
#[verifier::external_body]
fn shallow_of(v: serde_json::Value) -> ShallowValue {
    match v {
        serde_json::Value::Null => ShallowValue::Null,
        serde_json::Value::Bool(b) => ShallowValue::Bool(b),
        serde_json::Value::Number(n) => ShallowValue::Num(n),
        serde_json::Value::String(s) => ShallowValue::Text(s),
        serde_json::Value::Array(a) => ShallowValue::List(a),
        serde_json::Value::Object(m) => ShallowValue::Obj(m.into_iter().collect()),
    }
}

/// Relies on `serde_json::Number::as_i64`: the number's value when it is
/// an integer that fits in 64 signed bits.
#[verifier::external_body]
fn number_as_i64(n: &serde_json::Number) -> Option<i64> {
    n.as_i64()
}

/// Relies on `serde_json::Number`'s text rendering: the number's decimal
/// text.
#[verifier::external_body]
fn number_to_text(n: &serde_json::Number) -> String {
    n.to_string()
}

/// How deeply nested a document may be before conversion gives up; the
/// parser itself refuses deeper documents.
pub const DEPTH_LIMIT: u32 = 128;

/// Converts a parsed `serde_json` value into the crate's own tree, giving
/// up on documents nested deeper than `depth`.
pub fn node_of_value(v: serde_json::Value, depth: u32) -> Option<JsonNode>
    decreases depth,
{
    if depth == 0 {
        return None;
    }
    match shallow_of(v) {
        ShallowValue::Null => Some(JsonNode::Null),
        ShallowValue::Bool(b) => Some(JsonNode::Bool(b)),
        ShallowValue::Num(n) => match number_as_i64(&n) {
            Some(i) => Some(JsonNode::Int(i)),
            None => Some(JsonNode::Num(number_to_text(&n))),
        },
        ShallowValue::Text(s) => Some(JsonNode::Text(s)),
        ShallowValue::List(items) => {
            let mut items = items;
            let mut out: Vec<JsonNode> = Vec::new();
            while items.len() > 0
                invariant
                    depth >= 1,
                decreases items.len(),
            {
                let item = items.remove(0);
                match node_of_value(item, depth - 1) {
                    Some(node) => out.push(node),
                    None => {
                        return None;
                    },
                }
            }
            Some(JsonNode::List(out))
        },
        ShallowValue::Obj(fields) => {
            let mut fields = fields;
            let mut out: Vec<(String, JsonNode)> = Vec::new();
            while fields.len() > 0
                invariant
                    depth >= 1,
                decreases fields.len(),
            {
                let (key, value) = fields.remove(0);
                match node_of_value(value, depth - 1) {
                    Some(node) => out.push((key, node)),
                    None => {
                        return None;
                    },
                }
            }
            Some(JsonNode::Object(out))
        },
    }
}

/// Parses a response body into the crate's own tree. What comes back is
/// whatever the parser accepted; the decoders downstream take it from
/// there.
pub fn node_of_bytes(bytes: &[u8]) -> Option<JsonNode> {
    match parse_value(bytes) {
        None => None,
        Some(v) => node_of_value(v, DEPTH_LIMIT),
    }
}

} // verus!

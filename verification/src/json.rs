//! JSON documents as plain values, and the field reads made on them: text
//! fields trimmed and never blank, numbers as 64-bit integers, flags.
use serde_json::Value;
use vstd::prelude::*;

use crate::text::{chars_of, opt_view, str_eq, string_of, trim, trim_vec};

verus! {

#[verifier::external_type_specification]
#[verifier::external_body]
pub struct ExJsonDocument(Value);

/// A JSON value as plain values. A number is kept as what it reads as a
/// signed and as an unsigned 64-bit integer; an object as its members in
/// the parser's order.
pub enum JsonValue {
    Null,
    Bool(bool),
    Number { signed: Option<i64>, unsigned: Option<u64> },
    Str(String),
    Array(Vec<JsonValue>),
    Object(Vec<(String, JsonValue)>),
}

/// The document `serde_json` reads from `text`, if it is JSON.
pub uninterp spec fn json_of_text(text: Seq<char>) -> Option<JsonValue>;

/// `serde_json::from_str::<serde_json::Value>` over `raw`: the document as
/// plain values (see `plain_json`), nothing where the text is not JSON. The
/// contract names the document as a function of the text alone.
#[verifier::external_body]
pub(crate) fn parse_json(raw: &str) -> (r: Option<JsonValue>)
    ensures
        r == json_of_text(raw@),
{
    serde_json::from_str::<Value>(raw).ok().map(plain_json)
}

/// A `serde_json::Value` as plain values, variant for variant: a number by
/// `as_i64` and `as_u64`, arrays and objects member for member in the order
/// the value holds them. Nothing is stated of it; `parse_json` names what
/// it gives.
#[verifier::external_body]
fn plain_json(v: Value) -> JsonValue {
    match v {
        Value::Null => JsonValue::Null,
        Value::Bool(b) => JsonValue::Bool(b),
        Value::Number(n) => JsonValue::Number { signed: n.as_i64(), unsigned: n.as_u64() },
        Value::String(s) => JsonValue::Str(s),
        Value::Array(a) => JsonValue::Array(a.into_iter().map(plain_json).collect()),
        Value::Object(m) => JsonValue::Object(m.into_iter().map(|(k, x)| (k, plain_json(x))).collect()),
    }
}

// ---------------------------------------------------------------------------
// Reading members
// ---------------------------------------------------------------------------

/// The value of the first member named `key`.
pub open spec fn pair_value(pairs: Seq<(String, JsonValue)>, key: Seq<char>) -> Option<JsonValue>
    decreases pairs.len(),
{
    if pairs.len() == 0 {
        None
    } else if pairs[0].0@ == key {
        Some(pairs[0].1)
    } else {
        pair_value(pairs.drop_first(), key)
    }
}

/// The member `key` of an object; nothing for other values.
pub open spec fn field(v: JsonValue, key: Seq<char>) -> Option<JsonValue> {
    match v {
        JsonValue::Object(pairs) => pair_value(pairs@, key),
        _ => None,
    }
}

/// The text of member `key`, as it is.
pub open spec fn raw_text_field(v: JsonValue, key: Seq<char>) -> Option<Seq<char>> {
    match field(v, key) {
        Some(JsonValue::Str(s)) => Some(s@),
        _ => None,
    }
}

/// The text of member `key`, trimmed; nothing when it is blank.
pub open spec fn text_field(v: JsonValue, key: Seq<char>) -> Option<Seq<char>> {
    match field(v, key) {
        Some(JsonValue::Str(s)) => if trim(s@).len() > 0 {
            Some(trim(s@))
        } else {
            None
        },
        _ => None,
    }
}

/// Member `key` as a signed 64-bit integer.
pub open spec fn int_field(v: JsonValue, key: Seq<char>) -> Option<i64> {
    match field(v, key) {
        Some(JsonValue::Number { signed, .. }) => signed,
        _ => None,
    }
}

/// Member `key` as an unsigned 64-bit integer.
pub open spec fn unsigned_field(v: JsonValue, key: Seq<char>) -> Option<u64> {
    match field(v, key) {
        Some(JsonValue::Number { unsigned, .. }) => unsigned,
        _ => None,
    }
}

/// Member `key` as a flag.
pub open spec fn bool_field(v: JsonValue, key: Seq<char>) -> Option<bool> {
    match field(v, key) {
        Some(JsonValue::Bool(b)) => Some(b),
        _ => None,
    }
}

/// The elements of an array; nothing for other values.
pub open spec fn json_items(v: JsonValue) -> Seq<JsonValue> {
    match v {
        JsonValue::Array(a) => a@,
        _ => Seq::empty(),
    }
}

/// A member's value lies inside the object.
pub proof fn lemma_pair_value_inside(pairs: Seq<(String, JsonValue)>, key: Seq<char>)
    ensures
        pair_value(pairs, key) matches Some(c) ==> exists|j: int| 0 <= j < pairs.len() && (#[trigger] pairs[j]).1 == c,
    decreases pairs.len(),
{
    if pairs.len() > 0 && pairs[0].0@ != key {
        lemma_pair_value_inside(pairs.drop_first(), key);
        if let Some(c) = pair_value(pairs, key) {
            let j = choose|j: int| 0 <= j < pairs.drop_first().len() && (#[trigger] pairs.drop_first()[j]).1 == c;
            assert(pairs[j + 1] == pairs.drop_first()[j]);
        }
    }
}

/// Member `key` of `v`, if any.
pub fn field_of<'a>(v: &'a JsonValue, key: &str) -> (r: Option<&'a JsonValue>)
    ensures
        match r {
            Some(x) => field(*v, key@) == Some(*x),
            None => field(*v, key@) is None,
        },
{
    match v {
        JsonValue::Object(pairs) => {
            let mut i: usize = 0;
            assert(pairs@.skip(0) =~= pairs@);
            while i < pairs.len()
                invariant
                    *v == JsonValue::Object(*pairs),
                    i <= pairs@.len(),
                    pair_value(pairs@, key@) == pair_value(pairs@.skip(i as int), key@),
                decreases pairs@.len() - i,
            {
                assert(pairs@.skip(i as int).drop_first() =~= pairs@.skip(i + 1));
                assert(pairs@.skip(i as int)[0] == pairs@[i as int]);
                if str_eq(pairs[i].0.as_str(), key) {
                    assert(pair_value(pairs@.skip(i as int), key@) == Some(pairs@[i as int].1));
                    return Some(&pairs[i].1);
                }
                i = i + 1;
            }
            assert(pairs@.skip(i as int).len() == 0);
            None
        },
        _ => None,
    }
}

/// The text of member `key`, as it is.
pub fn raw_text_field_of(v: &JsonValue, key: &str) -> (r: Option<String>)
    ensures
        opt_view(r) == raw_text_field(*v, key@),
{
    match field_of(v, key) {
        Some(JsonValue::Str(s)) => Some(s.clone()),
        _ => None,
    }
}

/// The text of member `key`, trimmed; nothing when it is blank.
pub fn text_field_of(v: &JsonValue, key: &str) -> (r: Option<String>)
    ensures
        opt_view(r) == text_field(*v, key@),
{
    match field_of(v, key) {
        Some(JsonValue::Str(s)) => {
            let t = trim_vec(&chars_of(s.as_str()));
            if t.len() > 0 {
                Some(string_of(&t))
            } else {
                None
            }
        },
        _ => None,
    }
}

/// Member `key` as a signed 64-bit integer.
pub fn int_field_of(v: &JsonValue, key: &str) -> (r: Option<i64>)
    ensures
        r == int_field(*v, key@),
{
    match field_of(v, key) {
        Some(JsonValue::Number { signed, .. }) => *signed,
        _ => None,
    }
}

/// Member `key` as an unsigned 64-bit integer.
pub fn unsigned_field_of(v: &JsonValue, key: &str) -> (r: Option<u64>)
    ensures
        r == unsigned_field(*v, key@),
{
    match field_of(v, key) {
        Some(JsonValue::Number { unsigned, .. }) => *unsigned,
        _ => None,
    }
}

/// Member `key` as a flag.
pub fn bool_field_of(v: &JsonValue, key: &str) -> (r: Option<bool>)
    ensures
        r == bool_field(*v, key@),
{
    match field_of(v, key) {
        Some(JsonValue::Bool(b)) => Some(*b),
        _ => None,
    }
}

/// The elements of an array; nothing for other values.
pub fn items_of(v: &JsonValue) -> (r: Option<&Vec<JsonValue>>)
    ensures
        match r {
            Some(a) => a@ == json_items(*v) && *v == JsonValue::Array(*a),
            None => json_items(*v).len() == 0,
        },
{
    match v {
        JsonValue::Array(a) => Some(a),
        _ => None,
    }
}

} // verus!

//! A JSON value model for API responses, with the `serde_json` calls that
//! read and print it.
//!
//! `JsonValue` is a one-to-one copy of `serde_json::Value`. Objects keep
//! their members in the order that `serde_json::Map` iterates them (sorted by
//! key); keys are distinct. Integers are kept as `serde_json::Number` tells
//! them apart; other numbers are carried through unread. Contracts speak of
//! a value through `json_view`, the same value as data (`JsonView`).

use vstd::prelude::*;
use crate::text::str_eq;
use serde_json::Value as J;

verus! {

#[verifier::external_type_specification]
#[verifier::external_body]
pub struct ExJsonValue(serde_json::Value);

#[verifier::external_type_specification]
#[verifier::external_body]
pub struct ExJsonNumber(serde_json::Number);

#[verifier::external_type_specification]
#[verifier::external_body]
pub struct ExJsonError(serde_json::Error);

/// A JSON number: a non-negative integer, a negative integer, or any other
/// number (carried through unread).
pub enum JsonNumber {
    PosInt(u64),
    NegInt(i64),
    Float(serde_json::Number),
}

/// A JSON value, node for node as `serde_json::Value` holds it.
pub enum JsonValue {
    Null,
    Bool(bool),
    Number(JsonNumber),
    String(String),
    Array(Vec<JsonValue>),
    Object(Vec<JsonMember>),
}

/// One member of a JSON object.
pub struct JsonMember {
    pub key: String,
    pub value: JsonValue,
}

/// A JSON value as data: strings as character sequences and lists as
/// sequences, so that equal values are equal data.
pub enum JsonView {
    Null,
    Bool(bool),
    Number(JsonNumber),
    String(Seq<char>),
    Array(Seq<JsonView>),
    Object(Seq<MemberView>),
}

/// One member of a JSON object, as data.
pub struct MemberView {
    pub key: Seq<char>,
    pub value: JsonView,
}

/// The data that a JSON value holds.
pub open spec fn json_view(v: JsonValue) -> JsonView
    decreases v,
{
    match v {
        JsonValue::Null => JsonView::Null,
        JsonValue::Bool(b) => JsonView::Bool(b),
        JsonValue::Number(n) => JsonView::Number(n),
        JsonValue::String(s) => JsonView::String(s@),
        JsonValue::Array(xs) => JsonView::Array(values_view(xs@)),
        JsonValue::Object(ms) => JsonView::Object(members_view(ms@)),
    }
}

/// The data of a list of JSON values.
pub open spec fn values_view(xs: Seq<JsonValue>) -> Seq<JsonView>
    decreases xs,
{
    if xs.len() == 0 {
        seq![]
    } else {
        values_view(xs.drop_last()).push(json_view(xs.last()))
    }
}

/// The data of a list of object members.
pub open spec fn members_view(ms: Seq<JsonMember>) -> Seq<MemberView>
    decreases ms,
{
    if ms.len() == 0 {
        seq![]
    } else {
        members_view(ms.drop_last()).push(
            MemberView { key: ms.last().key@, value: json_view(ms.last().value) },
        )
    }
}

/// The data of a list of values, value by value.
pub proof fn lemma_values_view(xs: Seq<JsonValue>)
    ensures
        values_view(xs).len() == xs.len(),
        forall|i: int| 0 <= i < xs.len() ==> #[trigger] values_view(xs)[i] == json_view(xs[i]),
    decreases xs.len(),
{
    if xs.len() > 0 {
        lemma_values_view(xs.drop_last());
        assert forall|i: int| 0 <= i < xs.len() implies #[trigger] values_view(xs)[i] == json_view(
            xs[i],
        ) by {
            if i < xs.len() - 1 {
                assert(xs.drop_last()[i] == xs[i]);
            }
        }
    }
}

/// The data of a list of members, member by member.
pub proof fn lemma_members_view(ms: Seq<JsonMember>)
    ensures
        members_view(ms).len() == ms.len(),
        forall|i: int|
            0 <= i < ms.len() ==> #[trigger] members_view(ms)[i] == (MemberView {
                key: ms[i].key@,
                value: json_view(ms[i].value),
            }),
    decreases ms.len(),
{
    if ms.len() > 0 {
        lemma_members_view(ms.drop_last());
        assert forall|i: int| 0 <= i < ms.len() implies #[trigger] members_view(ms)[i] == (MemberView {
            key: ms[i].key@,
            value: json_view(ms[i].value),
        }) by {
            if i < ms.len() - 1 {
                assert(ms.drop_last()[i] == ms[i]);
            }
        }
    }
}

/// What `serde_json::from_str::<serde_json::Value>` makes of a text, as
/// data, or `None` where it reports an error.
pub uninterp spec fn json_parsed(text: Seq<char>) -> Option<JsonView>;

/// The compact JSON text that `serde_json::Value`'s `Display` prints for a
/// value given as data.
pub uninterp spec fn json_display(v: JsonView) -> Seq<char>;

/// Sorts a `serde_json::Number` into the model's three kinds.
#[verifier::external_body]
fn json_number(n: serde_json::Number) -> JsonNumber {
    match (n.as_u64(), n.as_i64()) {
        (Some(u), _) => JsonNumber::PosInt(u),
        (None, Some(i)) => JsonNumber::NegInt(i),
        (None, None) => JsonNumber::Float(n),
    }
}

/// Copies a `serde_json::Value` into the model, node for node.
#[verifier::external_body]
fn json_from_value(v: serde_json::Value) -> JsonValue {
    match v {
        J::Null => JsonValue::Null,
        J::Bool(b) => JsonValue::Bool(b),
        J::Number(n) => JsonValue::Number(json_number(n)),
        J::String(s) => JsonValue::String(s),
        J::Array(xs) => JsonValue::Array(xs.into_iter().map(json_from_value).collect()),
        J::Object(m) => JsonValue::Object(m.into_iter().map(|(key, v)| JsonMember { key, value: json_from_value(v) }).collect()),
    }
}

/// Copies a model value back into a `serde_json::Value`, node for node.
#[verifier::external_body]
fn json_to_value(v: &JsonValue) -> serde_json::Value {
    match v {
        JsonValue::Null => J::Null,
        JsonValue::Bool(b) => J::Bool(*b),
        JsonValue::Number(JsonNumber::PosInt(u)) => J::Number((*u).into()),
        JsonValue::Number(JsonNumber::NegInt(i)) => J::Number((*i).into()),
        JsonValue::Number(JsonNumber::Float(n)) => J::Number(n.clone()),
        JsonValue::String(s) => J::String(s.clone()),
        JsonValue::Array(xs) => J::Array(xs.iter().map(json_to_value).collect()),
        JsonValue::Object(ms) => J::Object(ms.iter().map(|m| (m.key.clone(), json_to_value(&m.value))).collect()),
    }
}

/// `serde_json::from_str` into a `serde_json::Value`: the parsed value, or
/// the parser's error. Both depend on the text alone.
#[verifier::external_body]
pub(crate) fn parse_json(text: &str) -> (r: Result<JsonValue, serde_json::Error>)
    ensures
        match r {
            Ok(v) => json_parsed(text@) == Some(json_view(v)),
            Err(_) => json_parsed(text@) is None,
        },
{
    serde_json::from_str::<serde_json::Value>(text).map(json_from_value)
}

/// `serde_json::Value::to_string`: the compact JSON text of a value.
#[verifier::external_body]
pub(crate) fn json_text(v: &JsonValue) -> (r: String)
    ensures
        r@ == json_display(json_view(*v)),
{
    json_to_value(v).to_string()
}

/// Index of the first member from `i` on with key `key`, or -1.
pub open spec fn member_index_from(ms: Seq<MemberView>, key: Seq<char>, i: int) -> int
    decreases ms.len() - i,
{
    if i < 0 || i >= ms.len() {
        -1
    } else if ms[i].key == key {
        i
    } else {
        member_index_from(ms, key, i + 1)
    }
}

/// `Value::get(key)`: the member `key` of an object; `None` for a missing
/// member or a value that is not an object.
pub open spec fn json_get(v: JsonView, key: Seq<char>) -> Option<JsonView> {
    match v {
        JsonView::Object(ms) => {
            let k = member_index_from(ms, key, 0);
            if k >= 0 {
                Some(ms[k].value)
            } else {
                None
            }
        },
        _ => None,
    }
}

/// `Value::as_str`.
pub open spec fn json_str(v: JsonView) -> Option<Seq<char>> {
    match v {
        JsonView::String(s) => Some(s),
        _ => None,
    }
}

/// `Value::as_u64`: a non-negative integer.
pub open spec fn json_u64(v: JsonView) -> Option<u64> {
    match v {
        JsonView::Number(JsonNumber::PosInt(u)) => Some(u),
        _ => None,
    }
}

/// `Value::as_i64`: an integer that fits in `i64`.
pub open spec fn json_i64(v: JsonView) -> Option<i64> {
    match v {
        JsonView::Number(JsonNumber::PosInt(u)) => if u <= i64::MAX {
            Some(u as i64)
        } else {
            None
        },
        JsonView::Number(JsonNumber::NegInt(i)) => Some(i),
        _ => None,
    }
}

/// `Value::as_bool`.
pub open spec fn json_bool(v: JsonView) -> Option<bool> {
    match v {
        JsonView::Bool(b) => Some(b),
        _ => None,
    }
}

/// `Value::as_array`.
pub open spec fn json_array(v: JsonView) -> Option<Seq<JsonView>> {
    match v {
        JsonView::Array(xs) => Some(xs),
        _ => None,
    }
}

/// The string member `key` of `v`.
pub open spec fn get_str(v: JsonView, key: Seq<char>) -> Option<Seq<char>> {
    match json_get(v, key) {
        Some(x) => json_str(x),
        None => None,
    }
}

/// The non-negative integer member `key` of `v`.
pub open spec fn get_u64(v: JsonView, key: Seq<char>) -> Option<u64> {
    match json_get(v, key) {
        Some(x) => json_u64(x),
        None => None,
    }
}

/// `Value::get`.
pub fn get<'a>(v: &'a JsonValue, key: &str) -> (r: Option<&'a JsonValue>)
    ensures
        match r {
            Some(x) => json_get(json_view(*v), key@) == Some(json_view(*x)),
            None => json_get(json_view(*v), key@) is None,
        },
{
    match v {
        JsonValue::Object(ms) => {
            let ghost mv = members_view(ms@);
            proof {
                lemma_members_view(ms@);
            }
            let mut i: usize = 0;
            while i < ms.len()
                invariant
                    i <= ms@.len(),
                    *v == JsonValue::Object(*ms),
                    mv == members_view(ms@),
                    mv.len() == ms@.len(),
                    forall|j: int|
                        0 <= j < ms@.len() ==> #[trigger] mv[j] == (MemberView {
                            key: ms@[j].key@,
                            value: json_view(ms@[j].value),
                        }),
                    member_index_from(mv, key@, 0) == member_index_from(mv, key@, i as int),
                decreases ms@.len() - i,
            {
                assert(mv[i as int].key == ms@[i as int].key@);
                if str_eq(ms[i].key.as_str(), key) {
                    proof {
                        assert(member_index_from(mv, key@, i as int) == i);
                    }
                    return Some(&ms[i].value);
                }
                i += 1;
            }
            None
        },
        _ => None,
    }
}

/// `Value::as_str`.
pub fn as_str(v: &JsonValue) -> (r: Option<&String>)
    ensures
        match r {
            Some(s) => json_str(json_view(*v)) == Some(s@),
            None => json_str(json_view(*v)) is None,
        },
{
    match v {
        JsonValue::String(s) => Some(s),
        _ => None,
    }
}

/// `Value::as_u64`.
pub fn as_u64(v: &JsonValue) -> (r: Option<u64>)
    ensures
        r == json_u64(json_view(*v)),
{
    match v {
        JsonValue::Number(JsonNumber::PosInt(u)) => Some(*u),
        _ => None,
    }
}

/// `Value::as_i64`.
pub fn as_i64(v: &JsonValue) -> (r: Option<i64>)
    ensures
        r == json_i64(json_view(*v)),
{
    match v {
        JsonValue::Number(JsonNumber::PosInt(u)) => if *u <= 0x7fff_ffff_ffff_ffff {
            Some(*u as i64)
        } else {
            None
        },
        JsonValue::Number(JsonNumber::NegInt(i)) => Some(*i),
        _ => None,
    }
}

/// `Value::as_bool`.
pub fn as_bool(v: &JsonValue) -> (r: Option<bool>)
    ensures
        r == json_bool(json_view(*v)),
{
    match v {
        JsonValue::Bool(b) => Some(*b),
        _ => None,
    }
}

/// `Value::as_array`.
pub fn as_array(v: &JsonValue) -> (r: Option<&Vec<JsonValue>>)
    ensures
        match r {
            Some(xs) => json_array(json_view(*v)) == Some(values_view(xs@)),
            None => json_array(json_view(*v)) is None,
        },
{
    match v {
        JsonValue::Array(xs) => Some(xs),
        _ => None,
    }
}

/// The string member `key` of `v`.
pub fn get_str_exec<'a>(v: &'a JsonValue, key: &str) -> (r: Option<&'a String>)
    ensures
        match r {
            Some(s) => get_str(json_view(*v), key@) == Some(s@),
            None => get_str(json_view(*v), key@) is None,
        },
{
    match get(v, key) {
        Some(x) => as_str(x),
        None => None,
    }
}

/// The non-negative integer member `key` of `v`.
pub fn get_u64_exec(v: &JsonValue, key: &str) -> (r: Option<u64>)
    ensures
        r == get_u64(json_view(*v), key@),
{
    match get(v, key) {
        Some(x) => as_u64(x),
        None => None,
    }
}

} // verus!

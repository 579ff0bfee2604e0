//! The JSON document type that every message is encoded into and decoded from.
//!
//! Documents are `serde_json::Value`s. Verus cannot look inside one, so this
//! module gives each document a mathematical content, [`Json`], and states for
//! every `serde_json` operation the codec relies on how it reads or builds
//! that content. Those statements are taken on trust; everything above them is
//! proved.
use vstd::prelude::*;

use serde_json::Value;

verus! {

/// `serde_json::Value`, a JSON document. Its content is [`json_of`].
#[verifier::external_type_specification]
#[verifier::external_body]
pub struct ExValue(serde_json::Value);

/// `serde_json::Map`, the members of a JSON object. With string keys and
/// document values its content is [`members_of`].
#[verifier::external_type_specification]
#[verifier::external_body]
#[verifier::reject_recursive_types(K)]
#[verifier::reject_recursive_types(V)]
pub struct ExObject<K, V>(serde_json::Map<K, V>);

/// The content of a JSON number.
pub ghost enum Numeric {
    /// A whole number, held exactly.
    Integer(int),
    /// Any other number, told apart by the bit pattern of its double.
    Float(u64),
}

/// The content of a JSON document.
pub ghost enum Json {
    Null,
    Bool(bool),
    Number(Numeric),
    String(Seq<char>),
    Array(Seq<Json>),
    Object(Map<Seq<char>, Json>),
}

/// The content of a document.
pub uninterp spec fn json_of(v: Value) -> Json;

/// The members of a JSON object, by key.
pub uninterp spec fn members_of(m: serde_json::Map<String, Value>) -> Map<Seq<char>, Json>;

/// The contents of a sequence of documents, item by item.
pub open spec fn jsons_of(items: Seq<Value>) -> Seq<Json> {
    Seq::new(items.len(), |i: int| json_of(items[i]))
}

/// The whole number `n` as the content of a document.
pub open spec fn json_integer(n: int) -> Json {
    Json::Number(Numeric::Integer(n))
}

/// `Value::Null`: the null document.
#[verifier::external_body]
pub(crate) fn value_null() -> (r: Value)
    ensures
        json_of(r) == Json::Null,
{
    Value::Null
}

/// `Value::from(i64)`: the number document that holds exactly `n`.
#[verifier::external_body]
pub(crate) fn value_from_i64(n: i64) -> (r: Value)
    ensures
        json_of(r) == json_integer(n as int),
{
    Value::from(n)
}

/// `Value::String`: the string document with the characters of `s`.
#[verifier::external_body]
pub(crate) fn value_from_string(s: String) -> (r: Value)
    ensures
        json_of(r) == Json::String(s@),
{
    Value::String(s)
}

/// `Value::Array`: the array document with the given items, in order.
#[verifier::external_body]
pub(crate) fn value_from_array(items: Vec<Value>) -> (r: Value)
    ensures
        json_of(r) == Json::Array(jsons_of(items@)),
{
    Value::Array(items)
}

/// `Value::Object`: the object document with the given members.
#[verifier::external_body]
pub(crate) fn value_from_object(members: serde_json::Map<String, Value>) -> (r: Value)
    ensures
        json_of(r) == Json::Object(members_of(members)),
{
    Value::Object(members)
}

/// `Value::is_null`: whether the document is null.
#[verifier::external_body]
pub(crate) fn value_is_null(v: &Value) -> (r: bool)
    ensures
        r == (json_of(*v) is Null),
{
    v.is_null()
}

/// `Value::is_number`: whether the document is a number of any kind.
#[verifier::external_body]
pub(crate) fn value_is_number(v: &Value) -> (r: bool)
    ensures
        r == (json_of(*v) is Number),
{
    v.is_number()
}

/// What `Value::as_i64` gives for a document of content `j`: the number
/// itself where it is whole and fits a signed 64-bit integer, nothing
/// otherwise.
pub open spec fn json_as_i64(j: Json) -> Option<i64> {
    match j {
        Json::Number(Numeric::Integer(n)) if i64::MIN <= n <= i64::MAX => Some(n as i64),
        _ => None,
    }
}

/// `Value::as_i64`: a whole number within the signed 64-bit range is
/// returned; every other document, numbers outside that range and numbers
/// held as doubles included, gives `None`.
#[verifier::external_body]
pub(crate) fn value_as_i64(v: &Value) -> (r: Option<i64>)
    ensures
        r == json_as_i64(json_of(*v)),
{
    v.as_i64()
}

/// `Value::as_str`: the characters of a string document, `None` for every
/// other document.
#[verifier::external_body]
pub(crate) fn value_as_str<'a>(v: &'a Value) -> (r: Option<&'a str>)
    ensures
        match json_of(*v) {
            Json::String(s) => r is Some && r->0@ == s,
            _ => r is None,
        },
{
    v.as_str()
}

/// `Value::as_array`: the items of an array document, `None` for every other
/// document.
#[verifier::external_body]
pub(crate) fn value_as_array<'a>(v: &'a Value) -> (r: Option<&'a Vec<Value>>)
    ensures
        match json_of(*v) {
            Json::Array(items) => r is Some && jsons_of(r->0@) == items,
            _ => r is None,
        },
{
    v.as_array()
}

/// `Value::as_object`: the members of an object document, `None` for every
/// other document.
#[verifier::external_body]
pub(crate) fn value_as_object<'a>(v: &'a Value) -> (r: Option<
    &'a serde_json::Map<String, Value>,
>)
    ensures
        match json_of(*v) {
            Json::Object(members) => r is Some && members_of(*r->0) == members,
            _ => r is None,
        },
{
    v.as_object()
}

/// `Value::clone`: a document with the same content.
pub assume_specification[ <Value as Clone>::clone ](v: &Value) -> (r: Value)
    ensures
        json_of(r) == json_of(*v),
;

/// The members of the empty object.
pub open spec fn no_members() -> Map<Seq<char>, Json> {
    Map::empty()
}

/// `Map::new`: an object without members.
#[verifier::external_body]
pub(crate) fn object_new() -> (r: serde_json::Map<String, Value>)
    ensures
        members_of(r) == no_members(),
{
    serde_json::Map::new()
}

/// `Map::insert`: the member `key` now holds `value`, replacing what it held;
/// the other members stay as they were.
#[verifier::external_body]
pub(crate) fn object_insert(
    members: &mut serde_json::Map<String, Value>,
    key: String,
    value: Value,
)
    ensures
        members_of(*final(members)) == members_of(*old(members)).insert(key@, json_of(value)),
{
    members.insert(key, value);
}

/// `Map::get`: the member under `key`, `None` where the object has none.
#[verifier::external_body]
pub(crate) fn object_get<'a>(members: &'a serde_json::Map<String, Value>, key: &str) -> (r: Option<
    &'a Value,
>)
    ensures
        match r {
            Some(found) => members_of(*members).contains_key(key@) && json_of(*found)
                == members_of(*members)[key@],
            None => !members_of(*members).contains_key(key@),
        },
{
    members.get(key)
}

/// `Map::clone`: an object with the same members.
pub assume_specification[ <serde_json::Map<String, Value> as Clone>::clone ](
    members: &serde_json::Map<String, Value>,
) -> (r: serde_json::Map<String, Value>)
    ensures
        members_of(r) == members_of(*members),
;

/// A copy of `items`, document by document.
pub(crate) fn clone_values(items: &Vec<Value>) -> (r: Vec<Value>)
    ensures
        jsons_of(r@) == jsons_of(items@),
{
    let mut copy: Vec<Value> = Vec::new();
    let mut i: usize = 0;
    while i < items.len()
        invariant
            i <= items.len(),
            copy.len() == i,
            forall|k: int| 0 <= k < i ==> json_of(#[trigger] copy[k]) == json_of(items[k]),
        decreases items.len() - i,
    {
        copy.push(items[i].clone());
        i += 1;
    }
    assert(jsons_of(copy@) =~= jsons_of(items@));
    copy
}

} // verus!

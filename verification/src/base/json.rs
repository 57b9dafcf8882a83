//! JSON values.

use vstd::prelude::*;
use crate::base::text::decimal;

verus! {

/// What a JSON value holds.
pub enum JsonTree {
    Null,
    Bool(bool),
    Number { unsigned: Option<u64>, text: Seq<char> },
    Text(Seq<char>),
    List(Seq<JsonTree>),
    Object(Map<Seq<char>, JsonTree>),
}

/// A JSON value of `serde_json`.
#[verifier::external_type_specification]
#[verifier::external_body]
pub struct ExValue(serde_json::Value);

/// What a `serde_json::Value` holds.
pub uninterp spec fn held_json(v: serde_json::Value) -> JsonTree;

/// What a list of values holds.
pub open spec fn held_list(s: Seq<serde_json::Value>) -> Seq<JsonTree> {
    Seq::new(s.len(), |i: int| held_json(s[i]))
}

/// What a text holds, read as JSON.
pub uninterp spec fn parsed_json(text: Seq<char>) -> Option<JsonTree>;

/// `serde_json::from_str` into a `Value`: whether it succeeds, and what the
/// value then holds, is a function of the text alone.
#[verifier::external_body]
pub(crate) fn parse_json(text: &str) -> (r: Option<serde_json::Value>)
    ensures
        match r {
            Some(v) => parsed_json(text@) == Some(held_json(v)),
            None => parsed_json(text@) is None,
        },
{
    serde_json::from_str::<serde_json::Value>(text).ok()
}

/// The text of a JSON value, without white space.
pub uninterp spec fn json_text(t: JsonTree) -> Seq<char>;

/// `to_string` of a `serde_json::Value`: the text is a function of what the
/// value holds.
#[verifier::external_body]
pub(crate) fn render_json(v: &serde_json::Value) -> (r: String)
    ensures
        r@ == json_text(held_json(*v)),
{
    v.to_string()
}

/// `serde_json::Value::String` holds a text.
#[verifier::external_body]
pub(crate) fn json_string(s: &str) -> (v: serde_json::Value)
    ensures
        held_json(v) == JsonTree::Text(s@),
{
    serde_json::Value::String(s.to_owned())
}

/// `serde_json::Value::from` on a `u64` holds that number.
#[verifier::external_body]
pub(crate) fn json_number(n: u64) -> (v: serde_json::Value)
    ensures
        held_json(v) == (JsonTree::Number { unsigned: Some(n), text: decimal(n as nat) }),
{
    serde_json::Value::from(n)
}

/// `serde_json::Value::Array` holds what its items hold, in order.
#[verifier::external_body]
pub(crate) fn json_array(items: Vec<serde_json::Value>) -> (v: serde_json::Value)
    ensures
        held_json(v) == JsonTree::List(held_list(items@)),
{
    serde_json::Value::Array(items)
}

/// `serde_json::Value::Object` with a new `serde_json::Map` holds no entries.
#[verifier::external_body]
pub(crate) fn json_object() -> (v: serde_json::Value)
    ensures
        held_json(v) == JsonTree::Object(Map::<Seq<char>, JsonTree>::empty()),
{
    serde_json::Value::Object(serde_json::Map::new())
}

/// `serde_json::Map::insert` maps a key to a value.
#[verifier::external_body]
pub(crate) fn json_insert(v: &mut serde_json::Value, key: &str, item: serde_json::Value)
    requires
        held_json(*old(v)) is Object,
    ensures
        held_json(*final(v)) == JsonTree::Object(
            held_json(*old(v))->Object_0.insert(key@, held_json(item)),
        ),
{
    if let serde_json::Value::Object(m) = v {
        m.insert(key.to_owned(), item);
    }
}

/// `serde_json::Value::get` with a key gives the entry of an object, and
/// nothing of any other value.
#[verifier::external_body]
pub(crate) fn json_get<'a>(v: &'a serde_json::Value, key: &str) -> (r: Option<&'a serde_json::Value>)
    ensures
        match r {
            Some(x) => tree_get(held_json(*v), key@) == Some(held_json(*x)),
            None => tree_get(held_json(*v), key@) is None,
        },
{
    v.get(key)
}

/// `serde_json::Value::as_str` gives the text of a string, and nothing of any
/// other value.
#[verifier::external_body]
pub(crate) fn json_str<'a>(v: &'a serde_json::Value) -> (r: Option<&'a str>)
    ensures
        match r {
            Some(s) => tree_text(held_json(*v)) == Some(s@),
            None => tree_text(held_json(*v)) is None,
        },
{
    v.as_str()
}

/// `serde_json::Value::as_u64` gives a number that is no fraction and not
/// negative, and nothing of any other value.
#[verifier::external_body]
pub(crate) fn json_u64(v: &serde_json::Value) -> (r: Option<u64>)
    ensures
        r == tree_unsigned(held_json(*v)),
{
    v.as_u64()
}

/// `to_string` of a `serde_json::Number`: the number as it stands in JSON. No
/// other value has one.
#[verifier::external_body]
pub(crate) fn json_number_text(v: &serde_json::Value) -> (r: Option<String>)
    ensures
        match r {
            Some(s) => tree_number(held_json(*v)) == Some(s@),
            None => tree_number(held_json(*v)) is None,
        },
{
    match v {
        serde_json::Value::Number(n) => Some(n.to_string()),
        _ => None,
    }
}

/// `serde_json::Value::as_array` gives the items of an array, and nothing of
/// any other value.
#[verifier::external_body]
pub(crate) fn json_items<'a>(v: &'a serde_json::Value) -> (r: Option<&'a Vec<serde_json::Value>>)
    ensures
        match r {
            Some(items) => tree_items(held_json(*v)) == Some(held_list(items@)),
            None => tree_items(held_json(*v)) is None,
        },
{
    v.as_array()
}

/// The entry of an object.
pub open spec fn tree_get(t: JsonTree, key: Seq<char>) -> Option<JsonTree> {
    match t {
        JsonTree::Object(m) => if m.contains_key(key) {
            Some(m[key])
        } else {
            None
        },
        _ => None,
    }
}

/// The text of a string.
pub open spec fn tree_text(t: JsonTree) -> Option<Seq<char>> {
    match t {
        JsonTree::Text(s) => Some(s),
        _ => None,
    }
}

/// A number that is no fraction and not negative.
pub open spec fn tree_unsigned(t: JsonTree) -> Option<u64> {
    match t {
        JsonTree::Number { unsigned, text } => unsigned,
        _ => None,
    }
}

/// A number as it stands in JSON.
pub open spec fn tree_number(t: JsonTree) -> Option<Seq<char>> {
    match t {
        JsonTree::Number { unsigned, text } => Some(text),
        _ => None,
    }
}

/// The items of an array.
pub open spec fn tree_items(t: JsonTree) -> Option<Seq<JsonTree>> {
    match t {
        JsonTree::List(s) => Some(s),
        _ => None,
    }
}

/// The text of an entry, where it is a string.
pub open spec fn entry_text(t: JsonTree, key: Seq<char>) -> Option<Seq<char>> {
    match tree_get(t, key) {
        Some(x) => tree_text(x),
        None => None,
    }
}

/// An entry that is a number without fraction and sign.
pub open spec fn entry_unsigned(t: JsonTree, key: Seq<char>) -> Option<u64> {
    match tree_get(t, key) {
        Some(x) => tree_unsigned(x),
        None => None,
    }
}

/// The notation of an entry that is a number.
pub open spec fn entry_number(t: JsonTree, key: Seq<char>) -> Option<Seq<char>> {
    match tree_get(t, key) {
        Some(x) => tree_number(x),
        None => None,
    }
}

/// The text of an entry, where it is a string.
pub fn get_text(v: &serde_json::Value, key: &str) -> (r: Option<String>)
    ensures
        match r {
            Some(s) => entry_text(held_json(*v), key@) == Some(s@),
            None => entry_text(held_json(*v), key@) is None,
        },
{
    match json_get(v, key) {
        Some(x) => match json_str(x) {
            Some(s) => Some(s.to_owned()),
            None => None,
        },
        None => None,
    }
}

/// An entry that is a number without fraction and sign.
pub fn get_unsigned(v: &serde_json::Value, key: &str) -> (r: Option<u64>)
    ensures
        r == entry_unsigned(held_json(*v), key@),
{
    match json_get(v, key) {
        Some(x) => json_u64(x),
        None => None,
    }
}

/// The notation of an entry that is a number.
pub fn get_number(v: &serde_json::Value, key: &str) -> (r: Option<String>)
    ensures
        match r {
            Some(s) => entry_number(held_json(*v), key@) == Some(s@),
            None => entry_number(held_json(*v), key@) is None,
        },
{
    match json_get(v, key) {
        Some(x) => json_number_text(x),
        None => None,
    }
}

/// A list of texts.
pub open spec fn text_list(s: Seq<Seq<char>>) -> JsonTree {
    JsonTree::List(Seq::new(s.len(), |i: int| JsonTree::Text(s[i])))
}

/// A request: an operation with its arguments.
pub open spec fn operation(op: Seq<char>, args: JsonTree) -> JsonTree {
    JsonTree::Object(
        Map::<Seq<char>, JsonTree>::empty().insert("op"@, JsonTree::Text(op)).insert(
            "args"@,
            args,
        ),
    )
}

/// A request: an operation with its arguments.
pub fn make_operation(op: &str, args: serde_json::Value) -> (v: serde_json::Value)
    ensures
        held_json(v) == operation(op@, held_json(args)),
{
    let mut v = json_object();
    json_insert(&mut v, "op", json_string(op));
    json_insert(&mut v, "args", args);
    v
}

} // verus!

//! JSON values of `serde_json`, seen through what they hold.

use serde_json::Value;
use vstd::prelude::*;
use vstd::string::*;

verus! {

/// `serde_json`'s JSON value.
#[verifier::external_type_specification]
#[verifier::external_body]
pub struct ExValue(serde_json::Value);

/// What a JSON value holds. Numbers that are not unsigned 64-bit integers are
/// kept as the text that `serde_json` writes for them.
#[verifier::ext_equal]
pub enum JsonTree {
    Null,
    Bool(bool),
    UInt(u64),
    Number(Seq<char>),
    Text(Seq<char>),
    Array(Seq<JsonTree>),
    Object(Map<Seq<char>, JsonTree>),
}

impl JsonTree {
    /// The member of an object under `key`.
    pub open spec fn get(self, key: Seq<char>) -> Option<JsonTree> {
        match self {
            JsonTree::Object(members) => if members.contains_key(key) {
                Some(members[key])
            } else {
                None
            },
            _ => None,
        }
    }

    /// The item of an array at `index`.
    pub open spec fn at(self, index: int) -> Option<JsonTree> {
        match self {
            JsonTree::Array(items) => if 0 <= index < items.len() {
                Some(items[index])
            } else {
                None
            },
            _ => None,
        }
    }

    /// The characters of a string.
    pub open spec fn text(self) -> Option<Seq<char>> {
        match self {
            JsonTree::Text(chars) => Some(chars),
            _ => None,
        }
    }

    /// The string member of an object under `key`.
    pub open spec fn text_at(self, key: Seq<char>) -> Option<Seq<char>> {
        match self.get(key) {
            Some(member) => member.text(),
            None => None,
        }
    }

    /// The unsigned integer that a number is.
    pub open spec fn uint(self) -> Option<u64> {
        match self {
            JsonTree::UInt(n) => Some(n),
            _ => None,
        }
    }

    /// Nested at most `depth` deep, with unsigned integers as its only numbers.
    pub open spec fn plain(self, depth: nat) -> bool
        decreases depth,
    {
        &&& depth > 0
        &&& match self {
            JsonTree::Number(_) => false,
            JsonTree::Array(items) => forall|i: int|
                0 <= i < items.len() ==> (#[trigger] items[i]).plain((depth - 1) as nat),
            JsonTree::Object(members) => forall|key: Seq<char>| #[trigger]
                members.contains_key(key) ==> members[key].plain((depth - 1) as nat),
            _ => true,
        }
    }
}

/// What `value` holds.
pub uninterp spec fn json_tree(value: Value) -> JsonTree;

/// What the JSON document `text` holds, or why it is none, as
/// `serde_json::from_str` reads it.
pub uninterp spec fn json_parse(text: Seq<char>) -> Result<JsonTree, Seq<char>>;

/// What the JSON document in `bytes` holds, or why it is none, as
/// `serde_json::from_slice` reads it.
pub uninterp spec fn json_parse_bytes(bytes: Seq<u8>) -> Result<JsonTree, Seq<char>>;

/// The compact JSON text of a value, as `serde_json` writes it.
pub uninterp spec fn json_text(tree: JsonTree) -> Seq<char>;

/// The JSON document `text` holds `tree`.
pub open spec fn reads_as(text: Seq<char>, tree: JsonTree) -> bool {
    json_parse(text) == Ok::<JsonTree, Seq<char>>(tree)
}

/// Reads a JSON document with `serde_json::from_str::<Value>`. The value, or
/// the message of the error, is a function of the text alone.
#[verifier::external_body]
pub(crate) fn from_text(text: &str) -> (parsed: Result<Value, String>)
    ensures
        match parsed {
            Ok(value) => json_parse(text@) == Ok::<JsonTree, Seq<char>>(json_tree(value)),
            Err(message) => json_parse(text@) == Err::<JsonTree, Seq<char>>(message@),
        },
{
    match serde_json::from_str::<Value>(text) {
        Ok(value) => Ok(value),
        Err(error) => Err(error.to_string()),
    }
}

/// Reads a JSON document with `serde_json::from_slice::<Value>`. The value, or
/// the message of the error, is a function of the bytes alone.
#[verifier::external_body]
pub(crate) fn from_bytes(bytes: &[u8]) -> (parsed: Result<Value, String>)
    ensures
        match parsed {
            Ok(value) => json_parse_bytes(bytes@) == Ok::<JsonTree, Seq<char>>(json_tree(value)),
            Err(message) => json_parse_bytes(bytes@) == Err::<JsonTree, Seq<char>>(message@),
        },
{
    match serde_json::from_slice::<Value>(bytes) {
        Ok(value) => Ok(value),
        Err(error) => Err(error.to_string()),
    }
}

/// Writes a value with `Value`'s `Display`. The text is a function of what the
/// value holds (`serde_json` keeps members sorted by key), and a value without
/// other numbers than unsigned integers that nests at most 64 deep reads back
/// from it (`serde_json` reads 127 levels).
#[verifier::external_body]
pub(crate) fn to_text(value: &Value) -> (text: String)
    ensures
        text@ == json_text(json_tree(*value)),
        json_tree(*value).plain(64) ==> reads_as(text@, json_tree(*value)),
{
    value.to_string()
}

/// Looks a member up with `Value::get`: the member of an object under `key`,
/// and nothing for any other value.
#[verifier::external_body]
pub(crate) fn get<'a>(value: &'a Value, key: &str) -> (member: Option<&'a Value>)
    ensures
        match member {
            Some(member) => json_tree(*value).get(key@) == Some(json_tree(*member)),
            None => json_tree(*value).get(key@) is None,
        },
{
    value.get(key)
}

/// Looks an item up with `Value::get`: the item of an array at `index`, and
/// nothing for any other value.
#[verifier::external_body]
pub(crate) fn get_at<'a>(value: &'a Value, index: usize) -> (item: Option<&'a Value>)
    ensures
        match item {
            Some(item) => json_tree(*value).at(index as int) == Some(json_tree(*item)),
            None => json_tree(*value).at(index as int) is None,
        },
{
    value.get(index)
}

/// Reads a string with `Value::as_str`: its characters, and nothing for any
/// other value.
#[verifier::external_body]
pub(crate) fn as_text<'a>(value: &'a Value) -> (text: Option<&'a str>)
    ensures
        match text {
            Some(text) => json_tree(*value).text() == Some(text@),
            None => json_tree(*value).text() is None,
        },
{
    value.as_str()
}

/// Reads a number with `Value::as_u64`: an unsigned 64-bit integer, and nothing
/// for any other value.
#[verifier::external_body]
pub(crate) fn as_uint(value: &Value) -> (n: Option<u64>)
    ensures
        n == json_tree(*value).uint(),
{
    value.as_u64()
}

/// A string, made with `Value::String`.
#[verifier::external_body]
pub(crate) fn of_text(text: &str) -> (value: Value)
    ensures
        json_tree(value) == JsonTree::Text(text@),
{
    Value::String(text.to_owned())
}

/// An unsigned number, made with `Value::from`.
#[verifier::external_body]
pub(crate) fn of_uint(n: u64) -> (value: Value)
    ensures
        json_tree(value) == JsonTree::UInt(n),
{
    Value::from(n)
}

/// A truth value, made with `Value::Bool`.
#[verifier::external_body]
pub(crate) fn of_bool(b: bool) -> (value: Value)
    ensures
        json_tree(value) == JsonTree::Bool(b),
{
    Value::Bool(b)
}

/// An array of `items`, made with `Value::Array`.
#[verifier::external_body]
pub(crate) fn of_items(items: Vec<Value>) -> (value: Value)
    ensures
        json_tree(value) == JsonTree::Array(items@.map_values(|item: Value| json_tree(item))),
{
    Value::Array(items)
}

/// An object without members, made with `serde_json::Map::new`.
#[verifier::external_body]
pub(crate) fn empty_object() -> (value: Value)
    ensures
        json_tree(value) == JsonTree::Object(Map::empty()),
{
    Value::Object(serde_json::Map::new())
}

/// An object with `member` set under `key` by `serde_json::Map::insert`. A value
/// that is no object stays as it is.
#[verifier::external_body]
pub(crate) fn with(object: Value, key: &str, member: Value) -> (value: Value)
    ensures
        json_tree(value) == match json_tree(object) {
            JsonTree::Object(members) => JsonTree::Object(members.insert(key@, json_tree(member))),
            other => other,
        },
{
    let mut object = object;
    if let Value::Object(members) = &mut object {
        members.insert(key.to_owned(), member);
    }
    object
}

/// The string member of an object under `key`.
pub fn text_at<'a>(value: &'a Value, key: &str) -> (text: Option<&'a str>)
    ensures
        match text {
            Some(text) => json_tree(*value).text_at(key@) == Some(text@),
            None => json_tree(*value).text_at(key@) is None,
        },
{
    match get(value, key) {
        Some(member) => as_text(member),
        None => None,
    }
}

/// A member is found under the key that it was set under, and setting it changes no other
/// one.
pub proof fn members_are_found_by_key(
    members: Map<Seq<char>, JsonTree>,
    key: Seq<char>,
    member: JsonTree,
    other: Seq<char>,
)
    ensures
        JsonTree::Object(members.insert(key, member)).get(key) == Some(member),
        JsonTree::Object(members.insert(key, member)).text_at(key) == member.text(),
        other != key ==> JsonTree::Object(members.insert(key, member)).get(other)
            == JsonTree::Object(members).get(other),
        JsonTree::Object(Map::empty()).get(key) is None,
        !(member is Object) ==> member.get(key) is None && member.text_at(key) is None,
{
}

/// An item is found at its place, a text and a number are what they hold, and nothing
/// else is an array, a text, or a number.
pub proof fn values_are_what_they_hold(
    items: Seq<JsonTree>,
    index: int,
    chars: Seq<char>,
    n: u64,
    value: JsonTree,
)
    ensures
        0 <= index < items.len() ==> JsonTree::Array(items).at(index) == Some(items[index]),
        !(0 <= index < items.len()) ==> JsonTree::Array(items).at(index) is None,
        JsonTree::Text(chars).text() == Some(chars),
        JsonTree::UInt(n).uint() == Some(n),
        !(value is Array) ==> value.at(index) is None,
        !(value is Text) ==> value.text() is None,
        !(value is UInt) ==> value.uint() is None,
{
}

}

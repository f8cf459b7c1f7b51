//! JSON values, as the `serde_json` crate holds, reads and writes them.

use serde_json::Value;
use vstd::prelude::*;

verus! {

/// What a JSON value holds.
pub enum JsonTree {
    Null,
    Bool(bool),
    /// A number, by the text that it is written with.
    Number(Seq<char>),
    String(Seq<char>),
    Array(Seq<JsonTree>),
    /// The members of an object, each name once, in the order in which the object is walked.
    Object(Seq<(Seq<char>, JsonTree)>),
}

impl JsonTree {
    /// The text of a string; nothing for any other value.
    pub open spec fn string(self) -> Option<Seq<char>> {
        match self {
            JsonTree::String(text) => Some(text),
            _ => None,
        }
    }

    /// The truth value of a boolean; nothing for any other value.
    pub open spec fn boolean(self) -> Option<bool> {
        match self {
            JsonTree::Bool(b) => Some(b),
            _ => None,
        }
    }

    /// The value of the member `name` of an object; nothing where there is no such member or
    /// the value is no object.
    pub open spec fn member(self, name: Seq<char>) -> Option<JsonTree> {
        match self {
            JsonTree::Object(members) => find_member(members, name),
            _ => None,
        }
    }
}

/// The value that stands with `name` in a list of members.
pub open spec fn find_member(members: Seq<(Seq<char>, JsonTree)>, name: Seq<char>) -> Option<JsonTree>
    decreases members.len(),
{
    if members.len() == 0 {
        None
    } else if members[0].0 == name {
        Some(members[0].1)
    } else {
        find_member(members.drop_first(), name)
    }
}

/// The JSON value of the `serde_json` crate.
#[verifier::external_type_specification]
#[verifier::external_body]
pub struct ExValue(serde_json::Value);

/// The error of the `serde_json` crate.
#[verifier::external_type_specification]
#[verifier::external_body]
pub struct ExJsonError(serde_json::Error);

/// The contents of a JSON value.
pub uninterp spec fn json_tree(value: serde_json::Value) -> JsonTree;

/// What `serde_json::from_str` reads from a text: the contents of the value, or nothing where the
/// text is no JSON.
pub uninterp spec fn json_parse(text: Seq<char>) -> Option<JsonTree>;

/// The compact JSON text that `serde_json` writes for a value with these contents.
pub uninterp spec fn json_text(tree: JsonTree) -> Seq<char>;

/// `serde_json::Value::as_str`: the text of a `Value::String`, nothing for any other variant.
pub assume_specification[ serde_json::Value::as_str ](value: &serde_json::Value) -> (text: Option<&str>)
    ensures
        text.deep_view() == json_tree(*value).string(),
;

/// `serde_json::Value::as_bool`: the truth value of a `Value::Bool`, nothing for any other variant.
pub assume_specification[ serde_json::Value::as_bool ](value: &serde_json::Value) -> (b: Option<bool>)
    ensures
        b == json_tree(*value).boolean(),
;

/// `serde_json::Value::clone`: a value with the same contents.
pub assume_specification[ <serde_json::Value as Clone>::clone ](value: &serde_json::Value) -> (copy: serde_json::Value)
    ensures
        json_tree(copy) == json_tree(*value),
;

/// `serde_json::Value::get` with a string: the value of that member of an object; nothing where
/// the object has no such member, or the value is no object.
#[verifier::external_body]
pub(crate) fn json_get<'a>(value: &'a Value, name: &str) -> (member: Option<&'a Value>)
    ensures
        member is Some <==> json_tree(*value).member(name@) is Some,
        member matches Some(m) ==> json_tree(*value).member(name@) == Some(json_tree(*m)),
{
    value.get(name)
}

/// `serde_json::from_str` into a `Value`: the value that the text stands for, named `json_parse`,
/// or an error where the text is no JSON.
#[verifier::external_body]
pub(crate) fn json_from_str(text: &str) -> (parsed: Result<Value, serde_json::Error>)
    ensures
        parsed is Ok <==> json_parse(text@) is Some,
        parsed matches Ok(value) ==> json_parse(text@) == Some(json_tree(value)),
{
    serde_json::from_str(text)
}

/// `serde_json::Value::to_string`: the compact JSON text of the value, named `json_text`.
#[verifier::external_body]
pub(crate) fn json_to_string(value: &Value) -> (text: String)
    ensures
        text@ == json_text(json_tree(*value)),
{
    value.to_string()
}

/// `serde_json::Value::String`: the JSON string with this text.
#[verifier::external_body]
pub(crate) fn json_string(text: String) -> (value: Value)
    ensures
        json_tree(value) == JsonTree::String(text@),
{
    Value::String(text)
}

/// The text that a JSON value carries: that of a string as it is, without quotes; the JSON text
/// of any other value.
pub open spec fn raw_text(tree: JsonTree) -> Seq<char> {
    match tree.string() {
        Some(text) => text,
        None => json_text(tree),
    }
}

/// The text that `value` carries: that of a string as it is, without quotes; the JSON text of any
/// other value.
pub fn json_raw_text(value: &Value) -> (text: String)
    ensures
        text@ == raw_text(json_tree(*value)),
{
    match value.as_str() {
        Some(text) => text.to_owned(),
        None => json_to_string(value),
    }
}

/// The contents of a value that may be missing.
pub open spec fn opt_tree(value: Option<Value>) -> Option<JsonTree> {
    match value {
        Some(value) => Some(json_tree(value)),
        None => None,
    }
}

/// What `text` stands for as JSON; nothing where it is no JSON.
pub fn parse_json(text: &str) -> (parsed: Option<Value>)
    ensures
        opt_tree(parsed) == json_parse(text@),
{
    match json_from_str(text) {
        Ok(value) => Some(value),
        Err(_) => None,
    }
}

/// What was parsed from `text`; the text itself as a JSON string where it was no JSON.
pub open spec fn parsed_or_string(parsed: Option<JsonTree>, text: Seq<char>) -> JsonTree {
    match parsed {
        Some(tree) => tree,
        None => JsonTree::String(text),
    }
}

/// What was parsed from `text`; the text itself as a JSON string where it was no JSON.
pub fn value_or_string(parsed: Option<Value>, text: &str) -> (value: Value)
    ensures
        json_tree(value) == parsed_or_string(opt_tree(parsed), text@),
{
    match parsed {
        Some(value) => value,
        None => json_string(text.to_owned()),
    }
}

} // verus!

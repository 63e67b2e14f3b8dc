//! JSON documents, as far as the library reads them.

use serde_json::Value;
use vstd::prelude::*;
use vstd::string::*;

verus! {

#[verifier::external_type_specification]
#[verifier::external_body]
pub struct ExValue(serde_json::Value);

/// A JSON value. Strings, arrays and objects are kept; numbers, booleans and
/// `null` are not told apart.
#[derive(Debug)]
pub enum Json {
    Text(String),
    List(Vec<Json>),
    Record(Vec<(String, Json)>),
    Other,
}

/// The document that `text` holds, or `None` where `text` is not one JSON
/// value. The fields of an object stand in the order in which `serde_json`
/// keeps them, and a key stands once.
pub uninterp spec fn json_document(text: Seq<char>) -> Option<Json>;

/// Turns a `serde_json::Value` into a `Json`, variant by variant.
#[verifier::external_body]
fn json_of_value(value: Value) -> Json {
    match value {
        Value::String(text) => Json::Text(text),
        Value::Array(items) => Json::List(items.into_iter().map(json_of_value).collect()),
        Value::Object(fields) => Json::Record(
            fields.into_iter().map(|(key, item)| (key, json_of_value(item))).collect(),
        ),
        Value::Null => Json::Other,
        Value::Bool(_) => Json::Other,
        Value::Number(_) => Json::Other,
    }
}

/// Parses `text` with `serde_json::from_str` into a `serde_json::Value`. The
/// contract gives the outcome its name, `json_document`; it claims that the
/// outcome depends on `text` alone.
#[verifier::external_body]
pub(crate) fn parse_json(text: &str) -> (doc: Option<Json>)
    ensures
        doc == json_document(text@),
{
    match serde_json::from_str::<Value>(text) {
        Ok(value) => Some(json_of_value(value)),
        Err(_) => None,
    }
}

/// The value of the first field of `fields`, from index `from` on, whose key
/// is `key`.
pub open spec fn field_from(fields: Seq<(String, Json)>, key: Seq<char>, from: int) -> Option<Json>
    decreases fields.len() - from,
{
    if from < 0 || from >= fields.len() {
        None
    } else if fields[from].0@ == key {
        Some(fields[from].1)
    } else {
        field_from(fields, key, from + 1)
    }
}

impl Json {
    /// The value of the field `key`, where `self` is an object that has one.
    pub open spec fn field(self, key: Seq<char>) -> Option<Json> {
        match self {
            Json::Record(fields) => field_from(fields@, key, 0),
            _ => None,
        }
    }

    /// The value of the field `key`, where `self` is an object that has one.
    pub fn get(&self, key: &str) -> (found: Option<&Json>)
        ensures
            match found {
                Some(item) => self.field(key@) == Some(*item),
                None => self.field(key@) is None,
            },
    {
        match self {
            Json::Record(fields) => {
                let wanted = key.to_owned();
                let mut i: usize = 0;
                while i < fields.len()
                    invariant
                        i <= fields.len(),
                        wanted@ == key@,
                        self.field(key@) == field_from(fields@, key@, i as int),
                    decreases fields.len() - i,
                {
                    if fields[i].0 == wanted {
                        return Some(&fields[i].1);
                    }
                    i += 1;
                }
                None
            },
            _ => None,
        }
    }
}

} // verus!

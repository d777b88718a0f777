//! A plain model of JSON documents, filled by `serde_json`, and the
//! lookups that the shell's state files and `npm view` output need.

use vstd::prelude::*;
use crate::text;

verus! {

#[verifier::external_type_specification]
#[verifier::external_body]
pub struct ExJsonValue(serde_json::Value);

/// A JSON value. A number keeps its value only where it is a non-negative
/// integer that fits a `u64` (what `serde_json`'s `as_u64` gives); an
/// object keeps its members in the order in which `serde_json`'s map
/// yields them, one member per key.
pub enum Json {
    Null,
    Bool(bool),
    Number(Option<u64>),
    Str(String),
    Array(Vec<Json>),
    Object(Vec<(String, Json)>),
}

/// The document that `serde_json::from_str::<serde_json::Value>` reads from
/// `text`, converted member by member into `Json`; `None` where it rejects
/// the text.
pub uninterp spec fn json_document(text: Seq<char>) -> Option<Json>;

/// Converts a `serde_json::Value` into `Json`, variant by variant.
#[verifier::external_body]
fn json_from_value(v: serde_json::Value) -> Json {
    match v {
        serde_json::Value::Null => Json::Null,
        serde_json::Value::Bool(b) => Json::Bool(b),
        serde_json::Value::Number(n) => Json::Number(n.as_u64()),
        serde_json::Value::String(s) => Json::Str(s),
        serde_json::Value::Array(a) => Json::Array(a.into_iter().map(json_from_value).collect()),
        serde_json::Value::Object(o) => Json::Object(
            o.into_iter().map(|(k, x)| (k, json_from_value(x))).collect(),
        ),
    }
}

/// Parses `text` with `serde_json::from_str::<serde_json::Value>`. Trusted:
/// the result is the document `json_document(text)`, a function of the
/// text alone; which texts it accepts and what they hold is left to
/// `serde_json`.
#[verifier::external_body]
pub(crate) fn parse_json(text: &str) -> (r: Option<Json>)
    ensures
        r == json_document(text@),
{
    serde_json::from_str::<serde_json::Value>(text).ok().map(json_from_value)
}

/// The value of the first member named `key` among `entries[i..]`.
pub open spec fn lookup_from(entries: Seq<(String, Json)>, key: Seq<char>, i: int) -> Option<Json>
    decreases entries.len() - i,
{
    if i >= entries.len() {
        None
    } else if entries[i].0@ == key {
        Some(entries[i].1)
    } else {
        lookup_from(entries, key, i + 1)
    }
}

/// `value.get(key)`: the member `key` of an object; `None` for anything
/// else.
pub open spec fn member(j: Json, key: Seq<char>) -> Option<Json> {
    match j {
        Json::Object(e) => lookup_from(e@, key, 0),
        _ => None,
    }
}

/// `value.as_str()`.
pub open spec fn str_of(j: Json) -> Option<Seq<char>> {
    match j {
        Json::Str(s) => Some(s@),
        _ => None,
    }
}

/// `value.as_u64()`.
pub open spec fn u64_of(j: Json) -> Option<u64> {
    match j {
        Json::Number(n) => n,
        _ => None,
    }
}

/// `value.get(key).and_then(as_str)`.
pub open spec fn member_str(j: Json, key: Seq<char>) -> Option<Seq<char>> {
    match member(j, key) {
        Some(m) => str_of(m),
        None => None,
    }
}

/// `value.get(key).and_then(as_u64)`.
pub open spec fn member_u64(j: Json, key: Seq<char>) -> Option<u64> {
    match member(j, key) {
        Some(m) => u64_of(m),
        None => None,
    }
}

fn lookup<'a>(entries: &'a Vec<(String, Json)>, key: &str) -> (r: Option<&'a Json>)
    ensures
        match r {
            Some(x) => lookup_from(entries@, key@, 0) == Some(*x),
            None => lookup_from(entries@, key@, 0) is None,
        },
{
    let n = entries.len();
    let mut i: usize = 0;
    while i < n
        invariant
            n == entries@.len(),
            i <= n,
            lookup_from(entries@, key@, 0) == lookup_from(entries@, key@, i as int),
        decreases n - i,
    {
        if text::str_eq(entries[i].0.as_str(), key) {
            return Some(&entries[i].1);
        }
        i = i + 1;
    }
    None
}

impl Json {
    /// `value.get(key)`.
    pub fn get(&self, key: &str) -> (r: Option<&Json>)
        ensures
            match r {
                Some(x) => member(*self, key@) == Some(*x),
                None => member(*self, key@) is None,
            },
    {
        match self {
            Json::Object(e) => lookup(e, key),
            _ => None,
        }
    }

    /// `value.as_str()`, copied.
    pub fn string(&self) -> (r: Option<String>)
        ensures
            match r {
                Some(s) => str_of(*self) == Some(s@),
                None => str_of(*self) is None,
            },
    {
        match self {
            Json::Str(s) => Some(s.clone()),
            _ => None,
        }
    }

    /// `value.as_u64()`.
    pub fn number(&self) -> (r: Option<u64>)
        ensures
            r == u64_of(*self),
    {
        match self {
            Json::Number(n) => *n,
            _ => None,
        }
    }

    /// `value.get(key).and_then(as_str)`, copied.
    pub fn member_string(&self, key: &str) -> (r: Option<String>)
        ensures
            match r {
                Some(s) => member_str(*self, key@) == Some(s@),
                None => member_str(*self, key@) is None,
            },
    {
        match self.get(key) {
            Some(m) => m.string(),
            None => None,
        }
    }

    /// `value.get(key).and_then(as_u64)`.
    pub fn member_number(&self, key: &str) -> (r: Option<u64>)
        ensures
            r == member_u64(*self, key@),
    {
        match self.get(key) {
            Some(m) => m.number(),
            None => None,
        }
    }
}

} // verus!

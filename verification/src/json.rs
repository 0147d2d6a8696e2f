//! JSON documents. `serde_json` parses the text; the document is then held as a
//! `JsonValue` of this library, which the logic reads through the verified accessors below.

use vstd::prelude::*;
use crate::text::str_eq;

verus! {

/// A value parsed by `serde_json` (`serde_json::Value`).
#[verifier::external_type_specification]
#[verifier::external_body]
pub struct ExJsonValue(serde_json::Value);

/// A JSON value. A number is held twice: as its value when it is an integer that fits an
/// `i64` (what `serde_json`'s `as_i64` gives, else `None`), and as the text that
/// `serde_json` writes for it, which keeps every number, fractions and large integers
/// among them. An object holds its members in the order in which `serde_json` iterates
/// them.
#[derive(Debug)]
pub enum JsonValue {
    Null,
    Bool(bool),
    Number(Option<i64>, String),
    String(String),
    Array(Vec<JsonValue>),
    Object(Vec<(String, JsonValue)>),
}

/// What `serde_json::from_str::<serde_json::Value>` gives for `text`, as a `JsonValue`;
/// `None` when the text is not a JSON document.
pub uninterp spec fn json_parse(text: Seq<char>) -> Option<JsonValue>;

/// A `serde_json` value as a `JsonValue`, variant by variant.
#[verifier::external_body]
fn json_tree(value: serde_json::Value) -> JsonValue {
    match value {
        serde_json::Value::Null => JsonValue::Null,
        serde_json::Value::Bool(b) => JsonValue::Bool(b),
        serde_json::Value::Number(n) => JsonValue::Number(n.as_i64(), n.to_string()),
        serde_json::Value::String(s) => JsonValue::String(s),
        serde_json::Value::Array(items) => JsonValue::Array(items.into_iter().map(json_tree).collect()),
        serde_json::Value::Object(map) => JsonValue::Object(map.into_iter().map(|(k, v)| (k, json_tree(v))).collect()),
    }
}

/// `serde_json::from_str::<serde_json::Value>`: the document of `text` (see `json_parse`),
/// `None` when the text is not JSON. What the document holds is named, not stated: the
/// JSON grammar is `serde_json`'s.
#[verifier::external_body]
pub(crate) fn json_from_str(text: &str) -> (r: Option<JsonValue>)
    ensures
        r == json_parse(text@),
{
    match serde_json::from_str::<serde_json::Value>(text) {
        Ok(value) => Some(json_tree(value)),
        Err(_) => None,
    }
}

/// The message that `serde_json`'s error (its `Display`) gives when `text` is not a JSON
/// document; it depends on the text alone (it names what was wrong and where).
pub uninterp spec fn json_error_message(text: Seq<char>) -> Seq<char>;

/// `serde_json::from_str::<serde_json::Value>` with its error written out: the document of
/// `text` (see `json_parse`), or, when the text is not JSON, the error's message.
#[verifier::external_body]
pub(crate) fn json_from_str_or_error(text: &str) -> (r: Result<JsonValue, String>)
    ensures
        match r {
            Ok(v) => json_parse(text@) == Some(v),
            Err(m) => json_parse(text@) is None && m@ == json_error_message(text@),
        },
{
    match serde_json::from_str::<serde_json::Value>(text) {
        Ok(value) => Ok(json_tree(value)),
        Err(error) => Err(error.to_string()),
    }
}

/// The position of the first member named `key`.
pub open spec fn first_key_index(members: Seq<(String, JsonValue)>, key: Seq<char>) -> Option<int>
    decreases members.len(),
{
    if members.len() == 0 {
        None
    } else if members[0].0@ == key {
        Some(0)
    } else {
        match first_key_index(members.drop_first(), key) {
            Some(i) => Some(i + 1),
            None => None,
        }
    }
}

/// The member `key` of an object (`Value::get` with a string key); `None` for a missing
/// key or a value that is not an object.
pub open spec fn json_member(v: JsonValue, key: Seq<char>) -> Option<JsonValue> {
    match v {
        JsonValue::Object(m) => match first_key_index(m@, key) {
            Some(i) => Some(m@[i].1),
            None => None,
        },
        _ => None,
    }
}

/// The text of a string value.
pub open spec fn json_str(v: JsonValue) -> Option<Seq<char>> {
    match v {
        JsonValue::String(s) => Some(s@),
        _ => None,
    }
}

/// The integer of a number that fits an `i64`.
pub open spec fn json_i64(v: JsonValue) -> Option<i64> {
    match v {
        JsonValue::Number(n, _) => n,
        _ => None,
    }
}

/// The values of an object's members, in order; `None` for a value that is not an object.
pub open spec fn json_object_values(v: JsonValue) -> Option<Seq<JsonValue>> {
    match v {
        JsonValue::Object(m) => Some(m@.map_values(|p: (String, JsonValue)| p.1)),
        _ => None,
    }
}

/// The text of the string member `key` of an object.
pub open spec fn json_member_str(v: JsonValue, key: Seq<char>) -> Option<Seq<char>> {
    match json_member(v, key) {
        Some(m) => json_str(m),
        None => None,
    }
}

proof fn lemma_first_key_index(members: Seq<(String, JsonValue)>, key: Seq<char>)
    ensures
        match first_key_index(members, key) {
            Some(i) => 0 <= i < members.len() && members[i].0@ == key && forall|j: int|
                0 <= j < i ==> #[trigger] members[j].0@ != key,
            None => forall|j: int| 0 <= j < members.len() ==> #[trigger] members[j].0@ != key,
        },
    decreases members.len(),
{
    if members.len() > 0 && members[0].0@ != key {
        lemma_first_key_index(members.drop_first(), key);
        assert forall|j: int| 0 < j < members.len() implies #[trigger] members[j].0@ == members.drop_first()[j - 1].0@ by {}
    }
}

/// The position of the first member named `key` (see `first_key_index`).
pub fn member_index(members: &Vec<(String, JsonValue)>, key: &str) -> (r: Option<usize>)
    ensures
        match r {
            Some(i) => (i as int) < members@.len() && first_key_index(members@, key@) == Some(i as int),
            None => first_key_index(members@, key@) is None,
        },
{
    proof {
        lemma_first_key_index(members@, key@);
    }
    let mut i: usize = 0;
    while i < members.len()
        invariant
            i <= members.len(),
            forall|j: int| 0 <= j < i ==> #[trigger] members@[j].0@ != key@,
            match first_key_index(members@, key@) {
                Some(k) => 0 <= k < members@.len() && members@[k].0@ == key@ && forall|j: int|
                    0 <= j < k ==> #[trigger] members@[j].0@ != key@,
                None => forall|j: int| 0 <= j < members@.len() ==> #[trigger] members@[j].0@ != key@,
            },
        decreases members.len() - i,
    {
        if str_eq(members[i].0.as_str(), key) {
            return Some(i);
        }
        i = i + 1;
    }
    None
}

impl JsonValue {
    /// The member `key` of an object (see `json_member`).
    pub fn get(&self, key: &str) -> (r: Option<&JsonValue>)
        ensures
            match json_member(*self, key@) {
                Some(m) => r matches Some(x) && *x == m,
                None => r is None,
            },
    {
        match self {
            JsonValue::Object(m) => match member_index(m, key) {
                Some(i) => Some(&m[i].1),
                None => None,
            },
            _ => None,
        }
    }

    /// The text of a string value (`Value::as_str`).
    pub fn as_str(&self) -> (r: Option<&str>)
        ensures
            match json_str(*self) {
                Some(s) => r matches Some(t) && t@ == s,
                None => r is None,
            },
    {
        match self {
            JsonValue::String(s) => Some(s.as_str()),
            _ => None,
        }
    }

    /// The integer of a number that fits an `i64` (`Value::as_i64`).
    pub fn as_i64(&self) -> (r: Option<i64>)
        ensures
            r == json_i64(*self),
    {
        match self {
            JsonValue::Number(n, _) => *n,
            _ => None,
        }
    }

    /// The members of an object (`Value::as_object`).
    pub fn as_object(&self) -> (r: Option<&Vec<(String, JsonValue)>>)
        ensures
            match *self {
                JsonValue::Object(m) => r matches Some(x) && *x == m,
                _ => r is None,
            },
    {
        match self {
            JsonValue::Object(m) => Some(m),
            _ => None,
        }
    }
}

} // verus!

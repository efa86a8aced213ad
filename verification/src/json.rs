//! Reading fields out of JSON documents, with the meaning `serde_json::Value`
//! gives to indexing and to its `as_*` accessors.

use vstd::prelude::*;
use crate::fmt::{i64_text_value, parse_i64};
use crate::model::JsonValue;
use crate::text::str_eq;

verus! {

/// The value under the first entry named `key`.
pub open spec fn entries_lookup(entries: Seq<(String, JsonValue)>, key: Seq<char>) -> Option<
    JsonValue,
>
    decreases entries.len(),
{
    if entries.len() == 0 {
        None
    } else if entries[0].0@ == key {
        Some(entries[0].1)
    } else {
        entries_lookup(entries.drop_first(), key)
    }
}

/// `Value::get` with a key: the member of an object, if there is one.
pub open spec fn json_get(v: JsonValue, key: Seq<char>) -> Option<JsonValue> {
    match v {
        JsonValue::Object(entries) => entries_lookup(entries@, key),
        _ => None,
    }
}

/// `value[key]`: the member, or null when there is none.
pub open spec fn json_index(v: JsonValue, key: Seq<char>) -> JsonValue {
    match json_get(v, key) {
        Some(x) => x,
        None => JsonValue::Null,
    }
}

/// `value[i]`: the element of an array, or null when there is none.
pub open spec fn json_at(v: JsonValue, i: int) -> JsonValue {
    match v {
        JsonValue::Array(items) => if 0 <= i < items@.len() {
            items@[i]
        } else {
            JsonValue::Null
        },
        _ => JsonValue::Null,
    }
}

/// `Value::as_str`.
pub open spec fn json_str(v: JsonValue) -> Option<Seq<char>> {
    match v {
        JsonValue::Str(s) => Some(s@),
        _ => None,
    }
}

/// `Value::as_i64`: an integer number within range.
pub open spec fn json_i64(v: JsonValue) -> Option<i64> {
    match v {
        JsonValue::Number(text) => i64_text_value(text@),
        _ => None,
    }
}

/// The texts among `items`, in order.
pub open spec fn strings_in(items: Seq<JsonValue>) -> Seq<Seq<char>>
    decreases items.len(),
{
    if items.len() == 0 {
        seq![]
    } else {
        let rest = strings_in(items.drop_last());
        match items.last() {
            JsonValue::Str(s) => rest.push(s@),
            _ => rest,
        }
    }
}

/// The texts of an array, in order; nothing for anything else.
pub open spec fn string_array_of(v: JsonValue) -> Seq<Seq<char>> {
    match v {
        JsonValue::Array(items) => strings_in(items@),
        _ => seq![],
    }
}

impl JsonValue {
    /// `Value::get` with a key.
    pub fn get(&self, key: &str) -> (r: Option<&JsonValue>)
        ensures
            match r {
                Some(x) => json_get(*self, key@) == Some(*x),
                None => json_get(*self, key@) is None,
            },
    {
        match self {
            JsonValue::Object(entries) => {
                let mut i: usize = 0;
                assert(entries@.skip(0) =~= entries@);
                assert(json_get(*self, key@) == entries_lookup(entries@, key@));
                while i < entries.len()
                    invariant
                        i <= entries.len(),
                        json_get(*self, key@) == entries_lookup(entries@, key@),
                        entries_lookup(entries@, key@) == entries_lookup(entries@.skip(i as int), key@),
                    decreases entries.len() - i,
                {
                    assert(entries@.skip(i as int)[0] == entries@[i as int]);
                    if str_eq(entries[i].0.as_str(), key) {
                        return Some(&entries[i].1);
                    }
                    assert(entries@.skip(i as int).drop_first() =~= entries@.skip(i + 1));
                    i = i + 1;
                }
                None
            },
            _ => None,
        }
    }

    /// `value[i]` on an array; `None` where serde gives null for a missing element.
    pub fn at(&self, i: usize) -> (r: Option<&JsonValue>)
        ensures
            match r {
                Some(x) => *self matches JsonValue::Array(items) && i < items@.len() && *x == items@[i as int],
                None => !(*self matches JsonValue::Array(items) && i < items@.len()),
            },
    {
        match self {
            JsonValue::Array(items) => if i < items.len() {
                Some(&items[i])
            } else {
                None
            },
            _ => None,
        }
    }

    /// `Value::as_str`.
    pub fn as_str(&self) -> (r: Option<&str>)
        ensures
            match r {
                Some(s) => json_str(*self) == Some(s@),
                None => json_str(*self) is None,
            },
    {
        match self {
            JsonValue::Str(s) => Some(s.as_str()),
            _ => None,
        }
    }

    /// `Value::as_i64`.
    pub fn as_i64(&self) -> (r: Option<i64>)
        ensures
            r == json_i64(*self),
    {
        match self {
            JsonValue::Number(text) => parse_i64(text.as_str()),
            _ => None,
        }
    }
}

/// The texts of `value[key]` when it is an array; other elements are skipped.
pub fn string_array(value: &JsonValue, key: &str) -> (r: Vec<String>)
    ensures
        crate::order::views(r@) == string_array_of(json_index(*value, key@)),
{
    match value.get(key) {
        Some(JsonValue::Array(items)) => {
            let mut r: Vec<String> = Vec::new();
            let mut i: usize = 0;
            while i < items.len()
                invariant
                    i <= items.len(),
                    crate::order::views(r@) == strings_in(items@.take(i as int)),
                decreases items.len() - i,
            {
                assert(items@.take(i + 1).drop_last() =~= items@.take(i as int));
                assert(items@.take(i + 1).last() == items@[i as int]);
                match &items[i] {
                    JsonValue::Str(s) => {
                        r.push(s.clone());
                        assert(crate::order::views(r@) =~= strings_in(items@.take(i as int)).push(
                            s@,
                        ));
                    },
                    _ => {},
                }
                i = i + 1;
            }
            assert(items@.take(items.len() as int) =~= items@);
            r
        },
        _ => Vec::new(),
    }
}

/// What `serde_json::from_str::<serde_json::Value>` reads from a text: the
/// document, or the text of its error.
pub uninterp spec fn json_document(text: Seq<char>) -> Result<JsonValue, Seq<char>>;

#[verifier::external_type_specification]
#[verifier::external_body]
pub struct ExJsonDocument(serde_json::Value);

/// The library's form of a `serde_json::Value`, variant by variant: numbers
/// by their text, objects by their entries in the map's order. Its callers'
/// contracts name the result; this conversion has none of its own.
#[verifier::external_body]
fn json_from_value(value: serde_json::Value) -> JsonValue {
    match value {
        serde_json::Value::Null => JsonValue::Null,
        serde_json::Value::Bool(b) => JsonValue::Bool(b),
        serde_json::Value::Number(n) => JsonValue::Number(n.to_string()),
        serde_json::Value::String(s) => JsonValue::Str(s),
        serde_json::Value::Array(items) => JsonValue::Array(items.into_iter().map(json_from_value).collect()),
        serde_json::Value::Object(map) => JsonValue::Object(map.into_iter().map(|(k, v)| (k, json_from_value(v))).collect()),
    }
}

/// `serde_json::from_str::<serde_json::Value>`: the document a text holds,
/// or the text of the parser's error. The contract names the result; the
/// JSON grammar is not restated.
#[verifier::external_body]
pub(crate) fn parse_json_document(text: &str) -> (r: Result<JsonValue, String>)
    ensures
        match r {
            Ok(v) => json_document(text@) == Ok::<JsonValue, Seq<char>>(v),
            Err(e) => json_document(text@) == Err::<JsonValue, Seq<char>>(e@),
        },
{
    match serde_json::from_str::<serde_json::Value>(text) {
        Ok(value) => Ok(json_from_value(value)),
        Err(error) => Err(error.to_string()),
    }
}

/// A stored document: the value the text holds, or `default` when it is not
/// JSON.
pub open spec fn json_or_spec(text: Seq<char>, default: JsonValue) -> JsonValue {
    match json_document(text) {
        Ok(v) => v,
        Err(_) => default,
    }
}

/// Reads a stored document, falling back to `default` when the text is not
/// JSON.
pub fn json_or(text: &str, default: JsonValue) -> (r: JsonValue)
    ensures
        r == json_or_spec(text@, default),
{
    match parse_json_document(text) {
        Ok(v) => v,
        Err(_) => default,
    }
}

} // verus!

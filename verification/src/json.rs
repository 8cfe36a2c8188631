//! A plain-data model of JSON documents, holding what the library's logic
//! reads of a parsed document: object fields, strings, booleans, arrays and
//! unsigned integers.
use vstd::prelude::*;
use crate::text::str_eq;

verus! {

/// A JSON number, kept by the integer kind it fits in.
///
/// Numbers that fit neither `u64` nor `i64` are fractional or exponent
/// numbers; the library never reads their value, so none is kept.
#[derive(Debug, Clone, PartialEq)]
pub enum JsonNumber {
    Unsigned(u64),
    Signed(i64),
    Float,
}

/// A parsed JSON value. Objects keep their fields in document order.
#[derive(Debug)]
pub enum JsonValue {
    Null,
    Bool(bool),
    Number(JsonNumber),
    Str(String),
    Array(Vec<JsonValue>),
    Object(Vec<(String, JsonValue)>),
}

/// The value of the first field named `key`, if any.
pub open spec fn fields_lookup(fields: Seq<(String, JsonValue)>, key: Seq<char>) -> Option<JsonValue>
    decreases fields.len(),
{
    if fields.len() == 0 {
        None
    } else if fields[0].0@ == key {
        Some(fields[0].1)
    } else {
        fields_lookup(fields.skip(1), key)
    }
}

impl JsonValue {
    /// The field `key` of an object; `None` for a missing field or a non-object.
    pub open spec fn field(self, key: Seq<char>) -> Option<JsonValue> {
        match self {
            JsonValue::Object(fields) => fields_lookup(fields@, key),
            _ => None,
        }
    }

    /// The characters of a string value.
    pub open spec fn str_value(self) -> Option<Seq<char>> {
        match self {
            JsonValue::Str(s) => Some(s@),
            _ => None,
        }
    }

    /// The value of a boolean.
    pub open spec fn bool_value(self) -> Option<bool> {
        match self {
            JsonValue::Bool(b) => Some(b),
            _ => None,
        }
    }

    /// The value of a number that fits in `u64`.
    pub open spec fn u64_value(self) -> Option<u64> {
        match self {
            JsonValue::Number(JsonNumber::Unsigned(n)) => Some(n),
            _ => None,
        }
    }

    /// The elements of an array.
    pub open spec fn array_value(self) -> Option<Seq<JsonValue>> {
        match self {
            JsonValue::Array(items) => Some(items@),
            _ => None,
        }
    }

    /// Looks up the field `key` of an object.
    pub fn get(&self, key: &str) -> (r: Option<&JsonValue>)
        ensures
            match r {
                Some(v) => self.field(key@) == Some(*v),
                None => self.field(key@) is None,
            },
    {
        match self {
            JsonValue::Object(fields) => {
                let mut i: usize = 0;
                assert(fields@.skip(0) =~= fields@);
                while i < fields.len()
                    invariant
                        i <= fields@.len(),
                        self.field(key@) == fields_lookup(fields@, key@),
                        fields_lookup(fields@, key@) == fields_lookup(fields@.skip(i as int), key@),
                    decreases fields@.len() - i,
                {
                    assert(fields@.skip(i as int)[0] == fields@[i as int]);
                    assert(fields@.skip(i as int).skip(1) =~= fields@.skip(i + 1));
                    if str_eq(fields[i].0.as_str(), key) {
                        assert(fields_lookup(fields@.skip(i as int), key@) == Some(fields@[i as int].1));
                        return Some(&fields[i].1);
                    }
                    i += 1;
                }
                None
            },
            _ => None,
        }
    }

    /// The string inside a string value.
    pub fn as_str(&self) -> (r: Option<&str>)
        ensures
            match r {
                Some(s) => self.str_value() == Some(s@),
                None => self.str_value() is None,
            },
    {
        match self {
            JsonValue::Str(s) => Some(s.as_str()),
            _ => None,
        }
    }

    /// The value of a boolean.
    pub fn as_bool(&self) -> (r: Option<bool>)
        ensures
            r == self.bool_value(),
    {
        match self {
            JsonValue::Bool(b) => Some(*b),
            _ => None,
        }
    }

    /// The value of a number that fits in `u64`.
    pub fn as_u64(&self) -> (r: Option<u64>)
        ensures
            r == self.u64_value(),
    {
        match self {
            JsonValue::Number(JsonNumber::Unsigned(n)) => Some(*n),
            _ => None,
        }
    }

    /// The elements of an array.
    pub fn as_array(&self) -> (r: Option<&Vec<JsonValue>>)
        ensures
            match r {
                Some(items) => self.array_value() == Some(items@),
                None => self.array_value() is None,
            },
    {
        match self {
            JsonValue::Array(items) => Some(items),
            _ => None,
        }
    }
}

// ── Parsing ──────────────────────────────────────────────────────────────────

#[verifier::external_type_specification]
#[verifier::external_body]
pub struct ExJsonDocument(serde_json::Value);

/// The JSON document that the text `line` denotes, in the library's model
/// (`None` when the text is not one well-formed JSON document). Integers
/// that fit `u64` are `Unsigned`, other integers that fit `i64` are
/// `Signed`, all other numbers `Float`; object fields come in the order of
/// the parsed map.
pub uninterp spec fn json_document(line: Seq<char>) -> Option<JsonValue>;

/// One-for-one conversion of a parsed `serde_json::Value` into the
/// library's model. It promises nothing by itself: it serves
/// `parse_json_line`, whose contract covers the parse and this conversion.
#[verifier::external_body]
fn json_value_of(v: serde_json::Value) -> JsonValue {
    match v {
        serde_json::Value::Null => JsonValue::Null,
        serde_json::Value::Bool(b) => JsonValue::Bool(b),
        serde_json::Value::Number(n) => JsonValue::Number(
            n.as_u64().map(JsonNumber::Unsigned).or_else(|| n.as_i64().map(JsonNumber::Signed)).unwrap_or(JsonNumber::Float),
        ),
        serde_json::Value::String(t) => JsonValue::Str(t),
        serde_json::Value::Array(a) => JsonValue::Array(a.into_iter().map(json_value_of).collect()),
        serde_json::Value::Object(o) => JsonValue::Object(o.into_iter().map(|(k, x)| (k, json_value_of(x))).collect()),
    }
}

/// `serde_json::from_str::<serde_json::Value>`, converted into the
/// library's model: claims the result is `json_document(line)`, a function
/// of the line alone (the parse reads nothing else, and its maps are
/// ordered by their keys or by the text).
#[verifier::external_body]
pub(crate) fn parse_json_line(line: &str) -> (r: Option<JsonValue>)
    ensures
        r == json_document(line@),
{
    serde_json::from_str::<serde_json::Value>(line).ok().map(json_value_of)
}

} // verus!

//! JSON as `ip -j` prints it, read by `serde_json` into a value of the library's own: what the
//! route parsers look at (array elements, object fields, strings) is then read by verified
//! code.

use vstd::prelude::*;
use crate::text::{chars_eq, str_chars};

verus! {

/// A JSON value. Numbers are kept as their text; an object's fields are kept in the order
/// `serde_json` hands them out (no key twice).
#[derive(Debug)]
pub enum Json {
    Null,
    Bool(bool),
    Number(String),
    Text(String),
    Array(Vec<Json>),
    Object(Vec<(String, Json)>),
}

#[verifier::external_type_specification]
#[verifier::external_body]
pub struct ExJsonValue(serde_json::Value);

/// What `serde_json::from_str::<serde_json::Value>` makes of a text: the value, or the text
/// of its error.
pub uninterp spec fn json_value_of(text: Seq<char>) -> Result<Json, Seq<char>>;

/// What `serde_json::from_str::<Vec<serde_json::Value>>` makes of a text: the elements of a
/// top-level array, or the text of its error (also for any other top-level value).
pub uninterp spec fn json_array_of(text: Seq<char>) -> Result<Seq<Json>, Seq<char>>;

/// A parse result with the error taken by its text.
pub open spec fn by_text(r: Result<Json, String>) -> Result<Json, Seq<char>> {
    match r {
        Ok(j) => Ok(j),
        Err(m) => Err(m@),
    }
}

/// A parse result with the elements and the error taken by their views.
pub open spec fn elements_by_text(r: Result<Vec<Json>, String>) -> Result<Seq<Json>, Seq<char>> {
    match r {
        Ok(v) => Ok(v@),
        Err(m) => Err(m@),
    }
}

/// A `serde_json::Value` as a `Json`, variant for variant (a number by its `to_string`).
#[verifier::external_body]
fn json_from(v: serde_json::Value) -> Json {
    match v {
        serde_json::Value::Null => Json::Null,
        serde_json::Value::Bool(b) => Json::Bool(b),
        serde_json::Value::Number(n) => Json::Number(n.to_string()),
        serde_json::Value::String(s) => Json::Text(s),
        serde_json::Value::Array(a) => Json::Array(a.into_iter().map(json_from).collect()),
        serde_json::Value::Object(m) => Json::Object(
            m.into_iter().map(|(k, x)| (k, json_from(x))).collect(),
        ),
    }
}

/// `serde_json::from_str::<serde_json::Value>`: the parsed value, or the error's text. The
/// result depends on the text alone (named `json_value_of`).
#[verifier::external_body]
pub(crate) fn parse_json_value(text: &str) -> (r: Result<Json, String>)
    ensures
        json_value_of(text@) == by_text(r),
{
    match serde_json::from_str::<serde_json::Value>(text) {
        Ok(v) => Ok(json_from(v)),
        Err(e) => Err(e.to_string()),
    }
}

/// `serde_json::from_str::<Vec<serde_json::Value>>`: the elements of the top-level array, or
/// the error's text. The result depends on the text alone (named `json_array_of`).
#[verifier::external_body]
pub(crate) fn parse_json_array(text: &str) -> (r: Result<Vec<Json>, String>)
    ensures
        json_array_of(text@) == elements_by_text(r),
{
    match serde_json::from_str::<Vec<serde_json::Value>>(text) {
        Ok(v) => Ok(v.into_iter().map(json_from).collect()),
        Err(e) => Err(e.to_string()),
    }
}

/// The value of the first field named `key`.
pub open spec fn field_in(fields: Seq<(String, Json)>, key: Seq<char>) -> Option<Json>
    decreases fields.len(),
{
    if fields.len() == 0 {
        None
    } else if fields[0].0@ == key {
        Some(fields[0].1)
    } else {
        field_in(fields.drop_first(), key)
    }
}

/// `value.get(key)`: a field of an object; nothing for any other value.
pub open spec fn get_field(j: Json, key: Seq<char>) -> Option<Json> {
    match j {
        Json::Object(f) => field_in(f@, key),
        _ => None,
    }
}

/// `value.get(key).and_then(as_str)`: a field that holds a string.
pub open spec fn text_field(j: Json, key: Seq<char>) -> Option<String> {
    match get_field(j, key) {
        Some(Json::Text(s)) => Some(s),
        _ => None,
    }
}

proof fn lemma_field_skip(fields: Seq<(String, Json)>, key: Seq<char>, i: int)
    requires
        0 <= i < fields.len(),
    ensures
        field_in(fields.skip(i), key) == if fields[i].0@ == key {
            Some(fields[i].1)
        } else {
            field_in(fields.skip(i + 1), key)
        },
{
    assert(fields.skip(i).drop_first() =~= fields.skip(i + 1));
}

/// The field named `key` of an object.
pub fn field<'a>(j: &'a Json, key: &str) -> (r: Option<&'a Json>)
    ensures
        match r {
            Some(x) => get_field(*j, key@) == Some(*x),
            None => get_field(*j, key@) is None,
        },
{
    let fields = match j {
        Json::Object(f) => f,
        _ => return None,
    };
    let k = str_chars(key);
    let mut i: usize = 0;
    assert(fields@.skip(0) =~= fields@);
    while i < fields.len()
        invariant
            i <= fields@.len(),
            k@ == key@,
            *j == Json::Object(*fields),
            field_in(fields@, key@) == field_in(fields@.skip(i as int), key@),
        decreases fields.len() - i,
    {
        proof {
            lemma_field_skip(fields@, key@, i as int);
        }
        let name = str_chars(fields[i].0.as_str());
        if chars_eq(name.as_slice(), k.as_slice()) {
            return Some(&fields[i].1);
        }
        i = i + 1;
    }
    assert(fields@.skip(i as int) =~= Seq::<(String, Json)>::empty());
    None
}

/// A field of an object that holds a string.
pub fn text_of(j: &Json, key: &str) -> (r: Option<String>)
    ensures
        r == text_field(*j, key@),
{
    match field(j, key) {
        Some(Json::Text(s)) => Some(s.clone()),
        _ => None,
    }
}

} // verus!

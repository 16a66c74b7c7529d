//! A plain model of JSON values, and the calls into `serde_json` that parse
//! JSON text into it and print it back.

use vstd::prelude::*;
use crate::server::hex_digit;
use crate::text::chars_of;

verus! {

/// A JSON number: its text as `serde_json` prints it, and its value when it
/// is a non-negative integer that fits in a `u64` (`Number::as_u64`).
#[derive(Debug, Clone)]
pub struct JsonNumber {
    pub text: String,
    pub as_u64: Option<u64>,
}

/// A JSON value. Object members keep the order `serde_json` gives them.
#[derive(Debug)]
pub enum JsonValue {
    Null,
    Bool(bool),
    Number(JsonNumber),
    Str(String),
    Array(Vec<JsonValue>),
    Object(Vec<(String, JsonValue)>),
}

#[verifier::external_type_specification]
#[verifier::external_body]
pub struct ExSerdeJsonValue(serde_json::Value);

/// What `serde_json::from_str::<serde_json::Value>` yields for a text:
/// `None` when the text is not one JSON value.
pub uninterp spec fn json_parse(s: Seq<char>) -> Option<JsonValue>;

/// A JSON value as plain data: strings as character sequences.
pub enum JsonModel {
    Null,
    Bool(bool),
    Number(Seq<char>),
    Str(Seq<char>),
    Array(Seq<JsonModel>),
    Object(Seq<(Seq<char>, JsonModel)>),
}

/// The plain data a `JsonValue` holds.
pub open spec fn json_model(v: JsonValue) -> JsonModel
    decreases v,
{
    match v {
        JsonValue::Null => JsonModel::Null,
        JsonValue::Bool(b) => JsonModel::Bool(b),
        JsonValue::Number(n) => JsonModel::Number(n.text@),
        JsonValue::Str(s) => JsonModel::Str(s@),
        JsonValue::Array(a) => JsonModel::Array(json_models(a@)),
        JsonValue::Object(o) => JsonModel::Object(json_members(o@)),
    }
}

pub open spec fn json_models(s: Seq<JsonValue>) -> Seq<JsonModel>
    decreases s,
{
    if s.len() == 0 {
        Seq::empty()
    } else {
        json_models(s.drop_last()).push(json_model(s.last()))
    }
}

pub open spec fn json_members(s: Seq<(String, JsonValue)>) -> Seq<(Seq<char>, JsonModel)>
    decreases s,
{
    if s.len() == 0 {
        Seq::empty()
    } else {
        json_members(s.drop_last()).push((s.last().0@, json_model(s.last().1)))
    }
}

/// What `serde_json::Value`'s `Display` (compact JSON) prints for a value.
pub uninterp spec fn json_render(v: JsonModel) -> Seq<char>;

/// How `serde_json` writes one character inside a string literal: `"` and
/// `\` behind a backslash; backspace, tab, newline, form feed and carriage
/// return as `\b \t \n \f \r`; every other character below U+0020 as
/// `\u00XX` with lowercase hex digits; anything else as it is.
pub open spec fn json_escape_char(c: char) -> Seq<char> {
    if c == '"' {
        seq!['\\', '"']
    } else if c == '\\' {
        seq!['\\', '\\']
    } else if c == '\u{8}' {
        seq!['\\', 'b']
    } else if c == '\t' {
        seq!['\\', 't']
    } else if c == '\n' {
        seq!['\\', 'n']
    } else if c == '\u{c}' {
        seq!['\\', 'f']
    } else if c == '\r' {
        seq!['\\', 'r']
    } else if (c as int) < 0x20 {
        seq!['\\', 'u', '0', '0', hex_digit((c as int) / 16), hex_digit((c as int) % 16)]
    } else {
        seq![c]
    }
}

/// Every character of `s` written as `json_escape_char` writes it.
pub open spec fn json_escape(s: Seq<char>) -> Seq<char>
    decreases s.len(),
{
    if s.len() == 0 {
        Seq::empty()
    } else {
        json_escape(s.drop_last()) + json_escape_char(s.last())
    }
}

/// What `serde_json::to_string` prints for a string: the escaped text
/// between double quotes.
pub open spec fn json_quote(s: Seq<char>) -> Seq<char> {
    seq!['"'] + json_escape(s) + seq!['"']
}

/// What `serde_json::from_str::<String>` yields for a text: the string a JSON
/// string literal holds, or `None` when the text is not one.
pub uninterp spec fn json_string_value(s: Seq<char>) -> Option<Seq<char>>;

/// Converts a `serde_json::Value` into the model, variant by variant.
#[verifier::external_body]
fn json_from_serde(v: serde_json::Value) -> JsonValue {
    match v {
        serde_json::Value::Null => JsonValue::Null,
        serde_json::Value::Bool(b) => JsonValue::Bool(b),
        serde_json::Value::Number(n) => JsonValue::Number(JsonNumber { text: n.to_string(), as_u64: n.as_u64() }),
        serde_json::Value::String(s) => JsonValue::Str(s),
        serde_json::Value::Array(a) => JsonValue::Array(a.into_iter().map(json_from_serde).collect()),
        serde_json::Value::Object(o) => JsonValue::Object(o.into_iter().map(|(k, x)| (k, json_from_serde(x))).collect()),
    }
}

/// Converts the model back into a `serde_json::Value`, variant by variant.
#[verifier::external_body]
fn json_to_serde(v: &JsonValue) -> serde_json::Value {
    match v {
        JsonValue::Null => serde_json::Value::Null,
        JsonValue::Bool(b) => serde_json::Value::Bool(*b),
        JsonValue::Number(n) => n.text.parse::<serde_json::Number>().map(serde_json::Value::Number).unwrap_or(serde_json::Value::Null),
        JsonValue::Str(s) => serde_json::Value::String(s.clone()),
        JsonValue::Array(a) => serde_json::Value::Array(a.iter().map(json_to_serde).collect()),
        JsonValue::Object(o) => serde_json::Value::Object(o.iter().map(|(k, x)| (k.clone(), json_to_serde(x))).collect()),
    }
}

/// `serde_json::from_str::<serde_json::Value>`: the value the text holds,
/// or `None` when it is not JSON. The result is a function of the text alone.
#[verifier::external_body]
pub fn parse_json(s: &str) -> (r: Option<JsonValue>)
    ensures
        r == json_parse(s@),
{
    serde_json::from_str::<serde_json::Value>(s).ok().map(json_from_serde)
}

/// `serde_json::Value::to_string`: the compact JSON text of a value.
#[verifier::external_body]
pub fn render_json(v: &JsonValue) -> (r: String)
    ensures
        r@ == json_render(json_model(*v)),
{
    json_to_serde(v).to_string()
}

/// `serde_json::to_string` on a string: its JSON literal, escaped as
/// `json_quote` states (`format_escaped_str` with the `ESCAPE` table); it
/// cannot fail on a `str`.
#[verifier::external_body]
pub fn quote_json(s: &str) -> (r: String)
    ensures
        r@ == json_quote(s@),
{
    serde_json::to_string(s).unwrap_or_default()
}

/// `serde_json::from_str::<String>`: the string a JSON string literal holds.
#[verifier::external_body]
pub fn parse_json_string(s: &str) -> (r: Option<String>)
    ensures
        match r {
            Some(v) => json_string_value(s@) == Some(v@),
            None => json_string_value(s@) is None,
        },
{
    serde_json::from_str::<String>(s).ok()
}

// ── Reading values ──────────────────────────────────────────────────

/// The first member of an object with this key (`Map::get`).
pub open spec fn member(o: Seq<(String, JsonValue)>, key: Seq<char>) -> Option<JsonValue>
    decreases o.len(),
{
    if o.len() == 0 {
        None
    } else if o[0].0@ == key {
        Some(o[0].1)
    } else {
        member(o.drop_first(), key)
    }
}

/// `Value::get(key)` on any value: only objects have members.
pub open spec fn get(v: Option<JsonValue>, key: Seq<char>) -> Option<JsonValue> {
    match v {
        Some(JsonValue::Object(o)) => member(o@, key),
        _ => None,
    }
}

pub open spec fn as_str(v: Option<JsonValue>) -> Option<Seq<char>> {
    match v {
        Some(JsonValue::Str(s)) => Some(s@),
        _ => None,
    }
}

pub open spec fn as_bool(v: Option<JsonValue>) -> Option<bool> {
    match v {
        Some(JsonValue::Bool(b)) => Some(b),
        _ => None,
    }
}

pub open spec fn as_u64(v: Option<JsonValue>) -> Option<u64> {
    match v {
        Some(JsonValue::Number(n)) => n.as_u64,
        _ => None,
    }
}

pub open spec fn as_object(v: Option<JsonValue>) -> Option<Seq<(String, JsonValue)>> {
    match v {
        Some(JsonValue::Object(o)) => Some(o@),
        _ => None,
    }
}

pub open spec fn as_array(v: Option<JsonValue>) -> Option<Seq<JsonValue>> {
    match v {
        Some(JsonValue::Array(a)) => Some(a@),
        _ => None,
    }
}

/// Whether two character sequences are equal.
pub fn chars_equal(a: &[char], b: &[char]) -> (r: bool)
    ensures
        r == (a@ == b@),
{
    if a.len() != b.len() {
        return false;
    }
    let mut i: usize = 0;
    while i < a.len()
        invariant
            a@.len() == b@.len(),
            i <= a@.len(),
            forall|j: int| 0 <= j < i ==> a@[j] == b@[j],
        decreases a@.len() - i,
    {
        if a[i] != b[i] {
            assert(a@[i as int] != b@[i as int]);
            return false;
        }
        i = i + 1;
    }
    assert(a@ =~= b@);
    true
}

/// `Map::get` on the members of an object.
pub fn member_exec<'a>(o: &'a Vec<(String, JsonValue)>, key: &str) -> (r: Option<&'a JsonValue>)
    ensures
        match member(o@, key@) {
            Some(x) => r == Some(&x),
            None => r is None,
        },
{
    let k = chars_of(key);
    let mut i: usize = 0;
    assert(o@.skip(0) =~= o@);
    while i < o.len()
        invariant
            k@ == key@,
            i <= o@.len(),
            member(o@, key@) == member(o@.skip(i as int), key@),
        decreases o@.len() - i,
    {
        let name = chars_of(o[i].0.as_str());
        assert(o@.skip(i as int)[0] == o@[i as int]);
        if chars_equal(name.as_slice(), k.as_slice()) {
            return Some(&o[i].1);
        }
        assert(o@.skip(i as int).drop_first() =~= o@.skip(i + 1));
        i = i + 1;
    }
    assert(o@.skip(i as int) =~= Seq::<(String, JsonValue)>::empty());
    None
}

/// `Value::get(key)`.
pub fn get_exec<'a>(v: Option<&'a JsonValue>, key: &str) -> (r: Option<&'a JsonValue>)
    ensures
        match get(
            match v {
                Some(x) => Some(*x),
                None => None,
            },
            key@,
        ) {
            Some(x) => r == Some(&x),
            None => r is None,
        },
{
    match v {
        Some(JsonValue::Object(o)) => member_exec(o, key),
        _ => None,
    }
}


/// The value behind an optional reference.
pub open spec fn opt_val(v: Option<&JsonValue>) -> Option<JsonValue> {
    match v {
        Some(x) => Some(*x),
        None => None,
    }
}

/// `Value::as_str`.
pub fn as_str_exec<'a>(v: Option<&'a JsonValue>) -> (r: Option<&'a String>)
    ensures
        match as_str(opt_val(v)) {
            Some(s) => r matches Some(x) && x@ == s,
            None => r is None,
        },
{
    match v {
        Some(JsonValue::Str(s)) => Some(s),
        _ => None,
    }
}

/// `Value::as_bool`.
pub fn as_bool_exec(v: Option<&JsonValue>) -> (r: Option<bool>)
    ensures
        r == as_bool(opt_val(v)),
{
    match v {
        Some(JsonValue::Bool(b)) => Some(*b),
        _ => None,
    }
}

/// `Value::as_u64`.
pub fn as_u64_exec(v: Option<&JsonValue>) -> (r: Option<u64>)
    ensures
        r == as_u64(opt_val(v)),
{
    match v {
        Some(JsonValue::Number(n)) => n.as_u64,
        _ => None,
    }
}

/// `Value::as_object`.
pub fn as_object_exec<'a>(v: Option<&'a JsonValue>) -> (r: Option<&'a Vec<(String, JsonValue)>>)
    ensures
        match as_object(opt_val(v)) {
            Some(o) => r matches Some(x) && x@ == o,
            None => r is None,
        },
{
    match v {
        Some(JsonValue::Object(o)) => Some(o),
        _ => None,
    }
}

/// `Value::as_array`.
pub fn as_array_exec<'a>(v: Option<&'a JsonValue>) -> (r: Option<&'a Vec<JsonValue>>)
    ensures
        match as_array(opt_val(v)) {
            Some(a) => r matches Some(x) && x@ == a,
            None => r is None,
        },
{
    match v {
        Some(JsonValue::Array(a)) => Some(a),
        _ => None,
    }
}
} // verus!

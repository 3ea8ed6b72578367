//! The calls into `regex` and `serde_json`. Their contracts are believed,
//! not proved; each says what it claims of the function it calls.

use vstd::prelude::*;
use crate::json::{Json, JsonMap, JsonNumber, JsonValue};

verus! {

/// The error type of `serde_json`, carried through unread.
#[verifier::external_type_specification]
#[verifier::external_body]
pub struct ExSerdeJsonError(serde_json::Error);

/// A decoded JSON value of `serde_json`, carried through unread.
#[verifier::external_type_specification]
#[verifier::external_body]
pub struct ExSerdeJsonValue(serde_json::Value);

/// The characters that mean something in a regular expression.
pub open spec fn is_meta_character(c: char) -> bool {
    c == '\\' || c == '.' || c == '+' || c == '*' || c == '?' || c == '(' || c == ')' || c == '|'
        || c == '[' || c == ']' || c == '{' || c == '}' || c == '^' || c == '$' || c == '#' || c
        == '&' || c == '-' || c == '~'
}

/// `text` with a backslash before each meta character.
pub open spec fn escaped(text: Seq<char>) -> Seq<char>
    decreases text.len(),
{
    if text.len() == 0 {
        Seq::empty()
    } else if is_meta_character(text.last()) {
        escaped(text.drop_last()).push('\\').push(text.last())
    } else {
        escaped(text.drop_last()).push(text.last())
    }
}

/// Calls `regex::escape`. Believed, not proved: the result is the input
/// with a backslash put before each of the eighteen meta characters and
/// every other character kept.
#[verifier::external_body]
pub(crate) fn escape(text: &str) -> (quoted: String)
    ensures
        quoted@ == escaped(text@),
{
    regex::escape(text)
}

/// The lower-case hexadecimal digit `d` (`d < 16`).
pub open spec fn hex_digit(d: int) -> char {
    if d == 0 {
        '0'
    } else if d == 1 {
        '1'
    } else if d == 2 {
        '2'
    } else if d == 3 {
        '3'
    } else if d == 4 {
        '4'
    } else if d == 5 {
        '5'
    } else if d == 6 {
        '6'
    } else if d == 7 {
        '7'
    } else if d == 8 {
        '8'
    } else if d == 9 {
        '9'
    } else if d == 10 {
        'a'
    } else if d == 11 {
        'b'
    } else if d == 12 {
        'c'
    } else if d == 13 {
        'd'
    } else if d == 14 {
        'e'
    } else {
        'f'
    }
}

/// How one character stands inside a JSON string.
pub open spec fn json_char(c: char) -> Seq<char> {
    if c == '"' {
        seq!['\\', '"']
    } else if c == '\\' {
        seq!['\\', '\\']
    } else if c == '\u{8}' {
        seq!['\\', 'b']
    } else if c == '\t' {
        seq!['\\', 't']
    } else if c == '\n' {
        seq!['\\', 'n']
    } else if c == '\u{c}' {
        seq!['\\', 'f']
    } else if c == '\r' {
        seq!['\\', 'r']
    } else if (c as u32) < 0x20 {
        seq!['\\', 'u', '0', '0', hex_digit((c as int) / 16), hex_digit((c as int) % 16)]
    } else {
        seq![c]
    }
}

/// The characters of `text` as they stand inside a JSON string.
pub open spec fn json_chars(text: Seq<char>) -> Seq<char>
    decreases text.len(),
{
    if text.len() == 0 {
        Seq::empty()
    } else {
        json_chars(text.drop_last()) + json_char(text.last())
    }
}

/// `text` as a JSON string: between double quotes, with `"`, `\` and the
/// control characters below U+0020 escaped.
pub open spec fn json_string_text(text: Seq<char>) -> Seq<char> {
    seq!['"'] + json_chars(text) + seq!['"']
}

/// Calls `serde_json::to_string` on a string. Believed, not proved: the
/// call succeeds, and the result is the string between double quotes with
/// `"` and `\` behind a backslash, the control characters below U+0020 as
/// `\b`, `\t`, `\n`, `\f`, `\r` or `\u00` and two lower-case hexadecimal
/// digits, and every other character kept.
#[verifier::external_body]
pub(crate) fn json_string(text: &str) -> (written: Result<String, serde_json::Error>)
    ensures
        written is Ok,
        written->Ok_0@ == json_string_text(text@),
{
    serde_json::to_string(text)
}

/// The value that a JSON text decodes to, or `None` where it is no JSON
/// text. The members of an object come out in the order of the text.
pub uninterp spec fn decoded(text: Seq<char>) -> Option<JsonValue>;

/// What a `serde_json::Value` holds. A number that is a non-negative
/// integer of 64 bits stands as `Unsigned`, every other number as its
/// canonical text; the members of an object stand in the order in which
/// the value keeps them.
pub uninterp spec fn value_of(value: serde_json::Value) -> JsonValue;

/// Calls `serde_json::from_str` for a `serde_json::Value`. Believed, not
/// proved: the same text always decodes to a value that holds the same,
/// which `decoded` names, and the call fails exactly where `decoded` is
/// `None`.
#[verifier::external_body]
pub(crate) fn parse_value(text: &str) -> (parsed: Result<serde_json::Value, serde_json::Error>)
    ensures
        match parsed {
            Ok(value) => decoded(text@) == Some(value_of(value)),
            Err(_) => decoded(text@) is None,
        },
{
    serde_json::from_str::<serde_json::Value>(text)
}

/// Moves what a `serde_json::Value` holds into a `Json`, variant by
/// variant, through `as_u64` and `to_string` of `serde_json::Number` and
/// the iterators of the array and the map. Believed, not proved: the
/// `Json` stands for what the value holds.
#[verifier::external_body]
pub(crate) fn json_of_value(value: &serde_json::Value) -> (json: Json)
    ensures
        json@ == value_of(*value),
{
    match value {
        serde_json::Value::Null => Json::Null,
        serde_json::Value::Bool(b) => Json::Bool(*b),
        serde_json::Value::Number(n) => Json::Number(
            n.as_u64().map_or_else(|| JsonNumber::Other(n.to_string()), JsonNumber::Unsigned),
        ),
        serde_json::Value::String(s) => Json::String(s.clone()),
        serde_json::Value::Array(a) => Json::Array(a.iter().map(json_of_value).collect()),
        serde_json::Value::Object(m) => Json::Object(
            JsonMap { entries: m.iter().map(|(k, v)| (k.clone(), json_of_value(v))).collect() },
        ),
    }
}

} // verus!

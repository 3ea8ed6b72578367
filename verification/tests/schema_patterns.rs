use guidance_rs::guidance::build_regex_from_schema;
use guidance_rs::types::{
    BOOLEAN, DATE, DATE_TIME, INTEGER, NULL, NUMBER, STRING, STRING_INNER, TIME, UUID, WHITESPACE,
};
use regex::Regex;

/// Compiles a schema text with the default whitespace and checks that the
/// pattern is one that the regex engine takes.
fn test_regex(schema: &str) -> String {
    let pattern = build_regex_from_schema(schema, None).unwrap();
    Regex::new(&pattern).expect("the pattern is invalid");
    pattern
}

fn accepts(pattern: &str, document: &str) -> bool {
    Regex::new(&format!("^(?:{})$", pattern)).unwrap().is_match(document)
}

fn property(name: &str, value: &str) -> String {
    format!(r#""{name}"{ws}:{ws}{value}"#, ws = WHITESPACE)
}

fn array_of(item: &str) -> String {
    format!(r"\[{ws}(({item})(,{ws}({item})){{0,}})?{ws}\]", ws = WHITESPACE)
}

#[test]
fn test_object_type_with_name() {
    let pattern = test_regex(r#"{"type": "object", "properties": {"name": {"type": "string"}}}"#);
    let expected = format!(r"\{{{ws}({})?{ws}\}}", property("name", STRING), ws = WHITESPACE);
    assert_eq!(pattern, expected);
    assert!(accepts(&pattern, r#"{"name": "Ada"}"#));
    assert!(accepts(&pattern, "{}"));
    assert!(!accepts(&pattern, r#"{"name": 1}"#));
}

#[test]
fn test_schema1_regex() {
    let pattern = test_regex(
        r#"{"type": "object", "properties": {"name": {"type": "string", "minLength": 2, "maxLength": 5}}}"#,
    );
    let value = format!(r#""{}{{2,5}}""#, STRING_INNER);
    let expected = format!(r"\{{{ws}({})?{ws}\}}", property("name", &value), ws = WHITESPACE);
    assert_eq!(pattern, expected);
    assert!(accepts(&pattern, r#"{"name": "abc"}"#));
    assert!(!accepts(&pattern, r#"{"name": "a"}"#));
    assert!(!accepts(&pattern, r#"{"name": "abcdef"}"#));
}

#[test]
fn test_schema2_regex() {
    let pattern = test_regex(r#"{"type": "object", "properties": {"name": {"type": "string"}}}"#);
    let expected = format!(r"\{{{ws}({})?{ws}\}}", property("name", STRING), ws = WHITESPACE);
    assert_eq!(pattern, expected);
}

#[test]
fn test_schema3_regex() {
    let pattern = test_regex(r#"{"type": "object", "properties": {"flag": {"type": "boolean"}}}"#);
    assert_eq!(pattern, r#"\{[ ]?("flag"[ ]?:[ ]?(true|false))?[ ]?\}"#);
    assert!(accepts(&pattern, "{}"));
    assert!(accepts(&pattern, r#"{"flag": true}"#));
    assert!(accepts(&pattern, r#"{"flag": false}"#));
    assert!(!accepts(&pattern, r#"{"flags": true}"#));
    assert!(!accepts(&pattern, r#"{"flag": null}"#));
}

#[test]
fn test_schema4_regex() {
    let pattern = test_regex(
        r#"{"type": "object", "properties": {"name": {"type": "string"}, "flag": {"type": "boolean"}}}"#,
    );
    let name = property("name", STRING);
    let flag = property("flag", BOOLEAN);
    let ws = WHITESPACE;
    let expected = format!(r"\{{{ws}({name}(,{ws}{flag})?|({name},{ws})?{flag})?{ws}\}}");
    assert_eq!(pattern, expected);
    assert!(accepts(&pattern, "{}"));
    assert!(accepts(&pattern, r#"{"name": "Ada"}"#));
    assert!(accepts(&pattern, r#"{"flag": true}"#));
    assert!(accepts(&pattern, r#"{"name": "Ada", "flag": true}"#));
    assert!(!accepts(&pattern, r#"{"flag": true, "name": "Ada"}"#));
}

#[test]
fn test_array_with_string() {
    let pattern = test_regex(r#"{"type": "array", "items": {"type": "string"}}"#);
    assert_eq!(pattern, array_of(STRING));
    assert!(accepts(&pattern, "[]"));
    assert!(accepts(&pattern, r#"["a", "b"]"#));
    assert!(!accepts(&pattern, "[1]"));
}

#[test]
fn test_array_with_number() {
    let pattern = test_regex(r#"{"type": "array", "items": {"type": "number"}}"#);
    assert_eq!(pattern, array_of(NUMBER));
    assert!(accepts(&pattern, "[1.5, -2e+3]"));
    assert!(!accepts(&pattern, r#"["a"]"#));
}

#[test]
fn test_array_with_integer() {
    let pattern = test_regex(r#"{"type": "array", "items": {"type": "integer"}}"#);
    assert_eq!(pattern, array_of(INTEGER));
    assert!(accepts(&pattern, "[1, 20, -3]"));
    assert!(!accepts(&pattern, "[01]"));
}

#[test]
fn test_array_with_boolean() {
    let pattern = test_regex(r#"{"type": "array", "items": {"type": "boolean"}}"#);
    assert_eq!(pattern, array_of(BOOLEAN));
    assert!(accepts(&pattern, "[true, false]"));
}

#[test]
fn test_array_with_null() {
    let pattern = test_regex(r#"{"type": "array", "items": {"type": "null"}}"#);
    assert_eq!(pattern, array_of(NULL));
    assert!(accepts(&pattern, "[null]"));
    assert!(!accepts(&pattern, "[null,]"));
}

#[test]
fn test_string_type() {
    let pattern = test_regex(r#"{"type": "string", "minLength": 2, "maxLength": 5}"#);
    assert_eq!(pattern, format!(r#""{}{{2,5}}""#, STRING_INNER));
    assert!(accepts(&pattern, r#""ab""#));
    assert!(accepts(&pattern, r#""abcde""#));
    assert!(!accepts(&pattern, r#""a""#));
    assert!(!accepts(&pattern, r#""abcdef""#));
}

#[test]
fn test_string_type_with_length_constraints() {
    let pattern = test_regex(r#"{"type": "string", "minLength": 2, "maxLength": 5}"#);
    assert_eq!(pattern, r#""([^"\\\x00-\x1F\x7F-\x9F]|\\["\\]){2,5}""#);
}

#[test]
fn test_string_type_with_pattern() {
    let pattern = test_regex(r#"{"type": "string", "pattern": "^[a-zA-Z0-9]+$"}"#);
    assert_eq!(pattern, r#"("[a-zA-Z0-9]+")"#);
    assert!(accepts(&pattern, r#""abc123""#));
    assert!(!accepts(&pattern, r#""abc 123""#));
}

#[test]
fn test_string_type_with_date_time_format() {
    let pattern = test_regex(r#"{"type": "string", "format": "date-time"}"#);
    assert_eq!(pattern, DATE_TIME);
    assert!(accepts(&pattern, r#""2024-02-29T23:59:59Z""#));
    assert!(!accepts(&pattern, r#""2024-13-01T00:00:00Z""#));
}

#[test]
fn test_string_type_with_date_format() {
    let pattern = test_regex(r#"{"type": "string", "format": "date"}"#);
    assert_eq!(pattern, DATE);
    assert!(accepts(&pattern, r#""2024-02-29""#));
    assert!(!accepts(&pattern, r#""2024-00-10""#));
}

#[test]
fn test_string_type_with_time_format() {
    let pattern = test_regex(r#"{"type": "string", "format": "time"}"#);
    assert_eq!(pattern, TIME);
    assert!(accepts(&pattern, r#""23:59:59Z""#));
    assert!(!accepts(&pattern, r#""24:00:00""#));
}

#[test]
fn test_string_type_with_uuid_format() {
    let pattern = test_regex(r#"{"type": "string", "format": "uuid"}"#);
    assert_eq!(pattern, UUID);
    assert!(accepts(&pattern, r#""123e4567-e89b-12d3-a456-426614174000""#));
    assert!(!accepts(&pattern, r#""123e4567""#));
}

#[test]
fn test_string_type_with_pattern_and_length_constraints() {
    let pattern = test_regex(
        r#"{"type": "string", "pattern": "^[A-Z]+$", "minLength": 3, "maxLength": 10}"#,
    );
    assert_eq!(pattern, format!(r#""{}{{3,10}}""#, STRING_INNER));
}

#[test]
fn test_string_type_with_format_and_length_constraints() {
    let pattern = test_regex(
        r#"{"type": "string", "format": "date-time", "minLength": 20, "maxLength": 30}"#,
    );
    assert_eq!(pattern, format!(r#""{}{{20,30}}""#, STRING_INNER));
}

#[test]
fn test_number_type() {
    let pattern = test_regex(r#"{"type": "number"}"#);
    assert_eq!(pattern, NUMBER);
    assert!(accepts(&pattern, "-12.5e+3"));
    assert!(!accepts(&pattern, "01"));
}

#[test]
fn test_number_with_int_bounds_type() {
    let pattern = test_regex(r#"{"type": "number", "minDigitsInteger": 12}"#);
    assert_eq!(pattern, r"((-)?(0|[1-9][0-9]{11,}))(\.[0-9]+)?([eE][+-][0-9]+)?");
    assert!(accepts(&pattern, "123456789012"));
    assert!(!accepts(&pattern, "12345678901"));
}

#[test]
fn test_number_with_fraction_bounds() {
    let pattern =
        test_regex(r#"{"type": "number", "minDigitsFraction": 2, "maxDigitsFraction": 4}"#);
    assert_eq!(pattern, r"((-)?(0|[1-9][0-9]*))(\.[0-9]{2,4})?([eE][+-][0-9]+)?");
    assert!(accepts(&pattern, "1.25"));
    assert!(!accepts(&pattern, "1.2"));
    assert!(!accepts(&pattern, "1.23456"));
}

#[test]
fn test_number_with_exponent_bounds() {
    let pattern =
        test_regex(r#"{"type": "number", "minDigitsExponent": 1, "maxDigitsExponent": 3}"#);
    assert_eq!(pattern, r"((-)?(0|[1-9][0-9]*))(\.[0-9]+)?([eE][+-][0-9]{1,3})?");
    assert!(accepts(&pattern, "1e+123"));
    assert!(!accepts(&pattern, "1e+1234"));
}

#[test]
fn test_integer_type() {
    let pattern = test_regex(r#"{"type": "integer"}"#);
    assert_eq!(pattern, INTEGER);
    assert!(accepts(&pattern, "-40"));
    assert!(!accepts(&pattern, "4.0"));
}

#[test]
fn test_integer_with_low_bound() {
    let pattern = test_regex(r#"{"type": "integer", "minDigits": 1}"#);
    assert_eq!(pattern, r"(-)?(0|[1-9][0-9]{0,})");
    assert!(accepts(&pattern, "7"));
    assert!(accepts(&pattern, "1234567"));
}

#[test]
fn test_integer_with_high_bound() {
    let pattern = test_regex(r#"{"type": "integer", "maxDigits": 10}"#);
    assert_eq!(pattern, r"(-)?(0|[1-9][0-9]{0,9})");
    assert!(accepts(&pattern, "1234567890"));
    assert!(!accepts(&pattern, "12345678901"));
}

#[test]
fn test_integer_with_low_and_high_bound() {
    let pattern = test_regex(r#"{"type": "integer", "minDigits": 1, "maxDigits": 10}"#);
    assert_eq!(pattern, r"(-)?(0|[1-9][0-9]{0,9})");
    assert!(accepts(&pattern, "5"));
    assert!(!accepts(&pattern, "12345678901"));
}

#[test]
fn test_boolean_type() {
    let pattern = test_regex(r#"{"type": "boolean"}"#);
    assert_eq!(pattern, "(true|false)");
    assert!(accepts(&pattern, "true"));
    assert!(!accepts(&pattern, "True"));
}

#[test]
fn test_null_type() {
    let pattern = test_regex(r#"{"type": "null"}"#);
    assert_eq!(pattern, "null");
    assert!(accepts(&pattern, "null"));
    assert!(!accepts(&pattern, "nil"));
}

#[test]
fn test_enum() {
    let pattern = test_regex(r#"{"enum": ["red", "green", "blue", 42, true, null]}"#);
    assert_eq!(pattern, r#"("red"|"green"|"blue"|42|true|null)"#);
    for document in [r#""red""#, r#""green""#, r#""blue""#, "42", "true", "null"] {
        assert!(accepts(&pattern, document));
    }
    for document in ["red", r#""yellow""#, "4", "420", "false", r#""42""#] {
        assert!(!accepts(&pattern, document));
    }
}

#[test]
fn test_const() {
    let pattern = test_regex(r#"{"const": "hello world"}"#);
    assert_eq!(pattern, r#"("hello world")"#);
    assert!(accepts(&pattern, r#""hello world""#));
    assert!(!accepts(&pattern, r#""hello""#));
}

#[test]
fn test_prefix_items() {
    let pattern = test_regex(
        r#"{"prefixItems": [{"type": "integer"}, {"type": "string"}, {"type": "boolean"}]}"#,
    );
    let expected = format!(
        r"\[{ws}{},{ws}{},{ws}{}{ws}\]",
        INTEGER,
        STRING,
        BOOLEAN,
        ws = WHITESPACE
    );
    assert_eq!(pattern, expected);
    assert!(accepts(&pattern, r#"[1, "a", true]"#));
    assert!(!accepts(&pattern, r#"[1, "a"]"#));
    assert!(!accepts(&pattern, r#"["a", 1, true]"#));
}

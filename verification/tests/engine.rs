use guidance_rs::error::SchemaError;
use guidance_rs::guidance::{
    build_regex_from_schema, escape_literal, find_keyword, handle_empty_object, to_regex,
    SchemaKeyword,
};
use guidance_rs::handle_types::{
    array_string, get_num_items_pattern, handle_array_type, handle_boolean_type,
    handle_integer_type, handle_null_type, handle_number_type, handle_object_type,
    handle_string_type, object_string, open_array_string, open_object_string, open_union_string,
    quantifier_string, validate_quantifiers,
};
use guidance_rs::json::{Json, JsonMap, JsonNumber};
use guidance_rs::text::{decimal_string, join_strings, str_eq};
use guidance_rs::types::{
    FormatType, JsonType, BOOLEAN, DATE, DATE_TIME, DEFAULT_DEPTH, INTEGER, NULL, NUMBER, STRING,
    TIME, UUID, WHITESPACE,
};
use regex::Regex;

fn accepts(pattern: &str, document: &str) -> bool {
    Regex::new(&format!("^(?:{})$", pattern)).unwrap().is_match(document)
}

fn text(s: &str) -> Json {
    Json::String(s.to_string())
}

fn number(n: u64) -> Json {
    Json::Number(JsonNumber::Unsigned(n))
}

fn map(members: Vec<(&str, Json)>) -> JsonMap {
    let mut map = JsonMap::new();
    for (key, value) in members {
        map.push(key.to_string(), value);
    }
    map
}

fn object(members: Vec<(&str, Json)>) -> Json {
    Json::Object(map(members))
}

fn of_type(name: &str) -> Json {
    object(vec![("type", text(name))])
}

fn compile(schema: &str) -> Result<String, SchemaError> {
    build_regex_from_schema(schema, None)
}

#[test]
fn empty_array_only_when_maximum_is_zero() {
    let pattern = compile(r#"{"type": "array", "minItems": 0, "maxItems": 0}"#).unwrap();
    assert_eq!(pattern, r"\[[ ]?\]");
    assert!(accepts(&pattern, "[]"));
    assert!(accepts(&pattern, "[ ]"));
    assert!(!accepts(&pattern, "[1]"));
}

#[test]
fn empty_object_only_when_maximum_is_zero() {
    let pattern = compile(r#"{"type": "object", "maxProperties": 0}"#).unwrap();
    assert_eq!(pattern, r"\{[ ]?\}");
    assert!(accepts(&pattern, "{}"));
    assert!(!accepts(&pattern, r#"{"a": 1}"#));
}

#[test]
fn ref_is_recognised_and_refused() {
    assert_eq!(compile(r##"{"$ref": "#/definitions/a"}"##), Err(SchemaError::UnsupportedKeyword));
    assert_eq!(
        compile(r##"{"type": "string", "$ref": "#/definitions/a"}"##),
        Err(SchemaError::UnsupportedKeyword)
    );
    let schema = object(vec![("$ref", text("#"))]);
    assert_eq!(to_regex(&schema, None), Err(SchemaError::UnsupportedKeyword));
    assert_eq!(to_regex(&schema, Some(r"\s*")), Err(SchemaError::UnsupportedKeyword));
}

#[test]
fn earlier_keyword_wins() {
    assert_eq!(compile(r##"{"$ref": "#", "enum": [1]}"##).unwrap(), "(1)");
    assert_eq!(compile(r#"{"type": "string", "const": true}"#).unwrap(), "(true)");
    let both = map(vec![("type", text("null")), ("$ref", text("#"))]);
    assert_eq!(find_keyword(&both), Some(SchemaKeyword::Ref));
    let none = map(vec![("title", text("x"))]);
    assert_eq!(find_keyword(&none), None);
    assert_eq!(find_keyword(&JsonMap::new()), Some(SchemaKeyword::EmptyObject));
    assert_eq!(
        find_keyword(&map(vec![("anyOf", Json::Null), ("allOf", Json::Null)])),
        Some(SchemaKeyword::AllOf)
    );
}

#[test]
fn optional_properties_keep_their_declared_order() {
    let pattern = compile(
        r#"{"type": "object", "properties": {"a": {"type": "string"}, "b": {"type": "string"}}}"#,
    )
    .unwrap();
    assert!(accepts(&pattern, "{}"));
    assert!(accepts(&pattern, r#"{"a": "x"}"#));
    assert!(accepts(&pattern, r#"{"b": "y"}"#));
    assert!(accepts(&pattern, r#"{"a": "x", "b": "y"}"#));
    assert!(!accepts(&pattern, r#"{"b": "y", "a": "x"}"#));
}

#[test]
fn properties_follow_the_text_not_the_alphabet() {
    let pattern = compile(
        r#"{"properties": {"zeta": {"type": "null"}, "alpha": {"type": "null"}}, "required": ["zeta", "alpha"]}"#,
    )
    .unwrap();
    assert_eq!(pattern, r#"\{[ ]?"zeta"[ ]?:[ ]?null,[ ]?"alpha"[ ]?:[ ]?null[ ]?\}"#);
    assert!(accepts(&pattern, r#"{"zeta": null, "alpha": null}"#));
    assert!(!accepts(&pattern, r#"{"alpha": null, "zeta": null}"#));
}

#[test]
fn required_properties_with_optional_neighbours() {
    let pattern = compile(
        r#"{"properties": {"a": {"type": "integer"}, "b": {"type": "string"}, "c": {"type": "boolean"}}, "required": ["b"]}"#,
    )
    .unwrap();
    let ws = WHITESPACE;
    let a = format!(r#""a"{ws}:{ws}{INTEGER}"#);
    let b = format!(r#""b"{ws}:{ws}{STRING}"#);
    let c = format!(r#""c"{ws}:{ws}{BOOLEAN}"#);
    assert_eq!(pattern, format!(r"\{{{ws}({a},{ws})?{b}({ws},{c})?{ws}\}}"));
    assert!(accepts(&pattern, r#"{"b": "x"}"#));
    assert!(accepts(&pattern, r#"{"a": 1, "b": "x"}"#));
    assert!(accepts(&pattern, r#"{"a": 1, "b": "x" ,"c": true}"#));
    assert!(accepts(&pattern, r#"{"b": "x","c": false}"#));
    assert!(!accepts(&pattern, r#"{"c": false, "b": "x"}"#));
    assert!(!accepts(&pattern, r#"{"a": 1}"#));
    assert!(!accepts(&pattern, "{}"));
}

#[test]
fn required_names_that_are_no_strings_are_ignored() {
    let schema = object(vec![
        ("properties", object(vec![("a", of_type("null"))])),
        ("required", Json::Array(vec![number(1), Json::Null])),
    ]);
    assert_eq!(to_regex(&schema, None).unwrap(), r#"\{[ ]?("a"[ ]?:[ ]?null)?[ ]?\}"#);
    let schema = object(vec![
        ("properties", object(vec![("a", of_type("null"))])),
        ("required", text("a")),
    ]);
    assert_eq!(to_regex(&schema, None).unwrap(), r#"\{[ ]?("a"[ ]?:[ ]?null)?[ ]?\}"#);
}

#[test]
fn property_names_are_escaped() {
    let pattern = compile(r#"{"properties": {"a.b": {"type": "null"}}, "required": ["a.b"]}"#)
        .unwrap();
    assert_eq!(pattern, r#"\{[ ]?"a\.b"[ ]?:[ ]?null[ ]?\}"#);
    assert!(accepts(&pattern, r#"{"a.b": null}"#));
    assert!(!accepts(&pattern, r#"{"axb": null}"#));
}

#[test]
fn no_properties_at_all() {
    assert_eq!(compile(r#"{"properties": {}}"#).unwrap(), r"\{[ ]?()?[ ]?\}");
    assert_eq!(compile(r#"{"properties": 3}"#), Err(SchemaError::InvalidSchema));
}

#[test]
fn a_failing_property_fails_the_object() {
    assert_eq!(
        compile(r#"{"properties": {"a": {"type": "null"}, "b": {"type": "what"}, "c": 1}}"#),
        Err(SchemaError::UnsupportedType)
    );
    assert_eq!(
        compile(r#"{"properties": {"a": 1, "b": {"type": "what"}}, "required": ["a"]}"#),
        Err(SchemaError::InvalidSchema)
    );
}

#[test]
fn all_of_concatenates() {
    let pattern = compile(r#"{"allOf": [{"type": "null"}, {"type": "boolean"}]}"#).unwrap();
    assert_eq!(pattern, "(null(true|false))");
    assert_eq!(compile(r#"{"allOf": []}"#).unwrap(), "()");
    assert_eq!(compile(r#"{"allOf": {"type": "null"}}"#), Err(SchemaError::InvalidSchema));
}

#[test]
fn any_of_alternates() {
    let pattern = compile(r#"{"anyOf": [{"type": "null"}, {"type": "boolean"}]}"#).unwrap();
    assert_eq!(pattern, "(null|(true|false))");
    assert!(accepts(&pattern, "null"));
    assert!(accepts(&pattern, "false"));
    assert!(!accepts(&pattern, "1"));
    assert_eq!(compile(r#"{"anyOf": 1}"#), Err(SchemaError::InvalidSchema));
    assert_eq!(
        compile(r#"{"anyOf": [{"type": "null"}, 7, {"type": "what"}]}"#),
        Err(SchemaError::InvalidSchema)
    );
}

#[test]
fn one_of_groups_each_branch() {
    let pattern = compile(r#"{"oneOf": [{"type": "null"}, {"type": "integer"}]}"#).unwrap();
    assert_eq!(pattern, format!("((?:null)|(?:{}))", INTEGER));
    assert!(accepts(&pattern, "12"));
    assert_eq!(compile(r#"{"oneOf": "x"}"#), Err(SchemaError::InvalidSchema));
}

#[test]
fn prefix_items_must_be_an_array() {
    assert_eq!(compile(r#"{"prefixItems": {}}"#), Err(SchemaError::InvalidSchema));
    assert_eq!(compile(r#"{"prefixItems": []}"#).unwrap(), r"\[[ ]?[ ]?\]");
}

#[test]
fn literals_are_written_as_json_and_escaped() {
    let schema = object(vec![("const", text("a.b\"c\n"))]);
    let pattern = to_regex(&schema, None).unwrap();
    assert_eq!(pattern, r#"("a\.b\\"c\\n")"#);
    assert!(accepts(&pattern, r#""a.b\"c\n""#));
    assert!(!accepts(&pattern, r#""a.b"c""#));
    assert_eq!(escape_literal(&text("\u{1}\t\u{7f}é")).unwrap(), "\"\\\\u0001\\\\t\u{7f}é\"");
    assert_eq!(escape_literal(&text("back\\slash")).unwrap(), r#""back\\\\slash""#);
    assert_eq!(escape_literal(&text("\u{1f}")).unwrap(), r#""\\u001f""#);
    assert_eq!(escape_literal(&text("\u{0}\u{1a}")).unwrap(), r#""\\u0000\\u001a""#);
    assert_eq!(
        escape_literal(&text("\u{8}\u{c}\n\r\t")).unwrap(),
        r#""\\b\\f\\n\\r\\t""#
    );
    assert_eq!(escape_literal(&text("/ \u{80}\u{9f}")).unwrap(), "\"/ \u{80}\u{9f}\"");
    assert_eq!(
        escape_literal(&text(".+*?()|[]{}^$#&-~")).unwrap(),
        r#""\.\+\*\?\(\)\|\[\]\{\}\^\$\#\&\-\~""#
    );
    assert_eq!(escape_literal(&text("a,b:c;d!e%f=g<h>i'j@k_l`m")).unwrap(), "\"a,b:c;d!e%f=g<h>i'j@k_l`m\"");
    assert_eq!(escape_literal(&text("(x|y)*")).unwrap(), r#""\(x\|y\)\*""#);
    assert_eq!(escape_literal(&Json::Null).unwrap(), "null");
    assert_eq!(escape_literal(&Json::Bool(false)).unwrap(), "false");
    assert_eq!(escape_literal(&number(18446744073709551615)).unwrap(), "18446744073709551615");
    assert_eq!(
        escape_literal(&Json::Number(JsonNumber::Other("-1.5e-7".to_string()))).unwrap(),
        r"\-1\.5e\-7"
    );
}

#[test]
fn numbers_in_literals_keep_their_canonical_text() {
    let pattern = compile(r#"{"enum": [-5, 1.5, 0, 1e2]}"#).unwrap();
    assert_eq!(pattern, r"(\-5|1\.5|0|100\.0)");
    assert!(accepts(&pattern, "-5"));
    assert!(accepts(&pattern, "1.5"));
    assert!(!accepts(&pattern, "5"));
}

#[test]
fn composite_literals_are_refused() {
    assert_eq!(compile(r#"{"enum": [1, [2]]}"#), Err(SchemaError::UnsupportedLiteral));
    assert_eq!(compile(r#"{"enum": [{"a": 1}]}"#), Err(SchemaError::UnsupportedLiteral));
    assert_eq!(compile(r#"{"const": {}}"#), Err(SchemaError::UnsupportedLiteral));
    assert_eq!(compile(r#"{"const": []}"#), Err(SchemaError::UnsupportedLiteral));
    assert_eq!(compile(r#"{"enum": 3}"#), Err(SchemaError::InvalidSchema));
    assert_eq!(escape_literal(&Json::Array(vec![])), Err(SchemaError::UnsupportedLiteral));
}

#[test]
fn what_is_no_object_is_no_schema() {
    assert_eq!(compile("[1]"), Err(SchemaError::InvalidSchema));
    assert_eq!(compile("true"), Err(SchemaError::InvalidSchema));
    assert_eq!(to_regex(&Json::Null, None), Err(SchemaError::InvalidSchema));
    assert_eq!(to_regex(&text("string"), None), Err(SchemaError::InvalidSchema));
    assert_eq!(
        compile(r#"{"type": "array", "items": "string"}"#),
        Err(SchemaError::InvalidSchema)
    );
}

#[test]
fn unknown_structure_is_refused() {
    assert_eq!(compile(r#"{"title": "x"}"#), Err(SchemaError::UnsupportedSchema));
}

#[test]
fn unknown_type_is_refused() {
    assert_eq!(compile(r#"{"type": "float"}"#), Err(SchemaError::UnsupportedType));
    assert_eq!(compile(r#"{"type": 3}"#), Err(SchemaError::UnsupportedType));
    assert_eq!(compile(r#"{"type": ["string", "null"]}"#), Err(SchemaError::UnsupportedType));
}

#[test]
fn unknown_format_is_refused() {
    assert_eq!(
        compile(r#"{"type": "string", "format": "email"}"#),
        Err(SchemaError::UnsupportedFormat)
    );
}

#[test]
fn reversed_bounds_are_refused() {
    assert_eq!(
        compile(r#"{"type": "string", "minLength": 5, "maxLength": 2}"#),
        Err(SchemaError::InvalidBounds)
    );
    assert_eq!(
        handle_string_type(&map(vec![("minLength", number(5)), ("maxLength", number(2))])),
        Err(SchemaError::InvalidBounds)
    );
    assert_eq!(
        compile(r#"{"type": "integer", "minDigits": 3, "maxDigits": 2}"#),
        Err(SchemaError::InvalidBounds)
    );
    assert_eq!(
        compile(r#"{"type": "number", "minDigitsFraction": 3, "maxDigitsFraction": 2}"#),
        Err(SchemaError::InvalidBounds)
    );
    assert_eq!(
        compile(r#"{"type": "number", "minDigitsExponent": 3, "maxDigitsExponent": 2}"#),
        Err(SchemaError::InvalidBounds)
    );
    assert_eq!(
        compile(r#"{"type": "number", "minDigitsInteger": 3, "maxDigitsInteger": 2}"#),
        Err(SchemaError::InvalidBounds)
    );
    assert_eq!(
        compile(r#"{"type": "array", "minItems": 3, "maxItems": 2}"#),
        Err(SchemaError::InvalidBounds)
    );
    assert_eq!(
        compile(r#"{"type": "object", "minProperties": 3, "maxProperties": 0}"#),
        Err(SchemaError::InvalidBounds)
    );
}

#[test]
fn malformed_text_is_refused() {
    assert_eq!(compile("{"), Err(SchemaError::MalformedValue));
    assert_eq!(compile(""), Err(SchemaError::MalformedValue));
    assert_eq!(compile(r#"{"type": "string",}"#), Err(SchemaError::MalformedValue));
}

#[test]
fn every_error_has_a_message() {
    let errors = [
        SchemaError::InvalidSchema,
        SchemaError::UnsupportedSchema,
        SchemaError::UnsupportedKeyword,
        SchemaError::UnsupportedType,
        SchemaError::UnsupportedFormat,
        SchemaError::InvalidBounds,
        SchemaError::UnsupportedLiteral,
        SchemaError::MalformedValue,
    ];
    for (i, a) in errors.iter().enumerate() {
        assert!(!a.message().is_empty());
        for b in errors.iter().skip(i + 1) {
            assert_ne!(a.message(), b.message());
        }
    }
    assert_eq!(
        SchemaError::InvalidBounds.message(),
        "max bound must be greater than or equal to min bound"
    );
}

#[test]
fn string_bounds_may_be_open() {
    let inner = r#"([^"\\\x00-\x1F\x7F-\x9F]|\\["\\])"#;
    assert_eq!(
        compile(r#"{"type": "string", "minLength": 3}"#).unwrap(),
        format!(r#""{inner}{{3,}}""#)
    );
    let pattern = compile(r#"{"type": "string", "maxLength": 3}"#).unwrap();
    assert_eq!(pattern, format!(r#""{inner}{{0,3}}""#));
    assert!(accepts(&pattern, r#""""#));
    assert!(accepts(&pattern, r#""abc""#));
    assert!(!accepts(&pattern, r#""abcd""#));
    assert_eq!(
        compile(r#"{"type": "string", "maxLength": "three"}"#).unwrap(),
        format!(r#""{inner}*""#)
    );
    assert_eq!(
        compile(r#"{"type": "string", "minLength": 2, "maxLength": 2}"#).unwrap(),
        format!(r#""{inner}{{2,2}}""#)
    );
}

#[test]
fn string_patterns_lose_their_anchors_only_in_pairs() {
    let with = |pattern: &str| handle_string_type(&map(vec![("pattern", text(pattern))])).unwrap();
    assert_eq!(with("^a+$"), r#"("a+")"#);
    assert_eq!(with("a+"), r#"("a+")"#);
    assert_eq!(with("^a+"), r#"("^a+")"#);
    assert_eq!(with("a+$"), r#"("a+$")"#);
    assert_eq!(with("^$"), r#"("")"#);
    assert_eq!(with("^"), r#"("^")"#);
    assert_eq!(with(""), r#"("")"#);
    assert_eq!(with("^é$"), r#"("é")"#);
}

#[test]
fn string_keywords_go_by_priority() {
    let both = map(vec![("format", text("uuid")), ("pattern", text("^x$"))]);
    assert_eq!(handle_string_type(&both).unwrap(), r#"("x")"#);
    let odd = map(vec![("pattern", number(3)), ("format", text("date"))]);
    assert_eq!(handle_string_type(&odd).unwrap(), DATE);
    assert_eq!(handle_string_type(&JsonMap::new()).unwrap(), STRING);
    let unknown = map(vec![("format", number(1))]);
    assert_eq!(handle_string_type(&unknown).unwrap(), STRING);
}

#[test]
fn number_parts_are_bounded_apart() {
    let all = map(vec![
        ("minDigitsInteger", number(2)),
        ("maxDigitsInteger", number(4)),
        ("maxDigitsFraction", number(3)),
        ("minDigitsExponent", number(2)),
    ]);
    let pattern = handle_number_type(&all).unwrap();
    assert_eq!(pattern, r"((-)?(0|[1-9][0-9]{1,3}))(\.[0-9]{0,3})?([eE][+-][0-9]{2,})?");
    assert!(accepts(&pattern, "12.5e+10"));
    assert!(!accepts(&pattern, "1"));
    assert!(!accepts(&pattern, "12345"));
    let only_max = map(vec![("maxDigitsInteger", number(1))]);
    let pattern = handle_number_type(&only_max).unwrap();
    assert_eq!(pattern, r"((-)?(0|[1-9][0-9]{0,0}))(\.[0-9]+)?([eE][+-][0-9]+)?");
    assert!(accepts(&pattern, "7"));
    assert!(!accepts(&pattern, "70"));
    assert_eq!(handle_number_type(&JsonMap::new()).unwrap(), NUMBER);
}

#[test]
fn integer_bounds_count_the_first_digit() {
    let bounded = map(vec![("minDigits", number(3)), ("maxDigits", number(3))]);
    let pattern = handle_integer_type(&bounded).unwrap();
    assert_eq!(pattern, r"(-)?(0|[1-9][0-9]{2,2})");
    assert!(accepts(&pattern, "123"));
    assert!(!accepts(&pattern, "12"));
    assert!(!accepts(&pattern, "1234"));
    let zero = map(vec![("minDigits", number(0))]);
    assert_eq!(handle_integer_type(&zero).unwrap(), r"(-)?(0|[1-9][0-9]{0,})");
    let odd = map(vec![("minDigits", text("1"))]);
    assert_eq!(handle_integer_type(&odd).unwrap(), r"(-)?(0|[1-9][0-9]*)");
    assert_eq!(handle_integer_type(&JsonMap::new()).unwrap(), INTEGER);
}

#[test]
fn bounds_are_checked_then_shifted() {
    assert_eq!(validate_quantifiers(Some(3), Some(5), 1), Ok((Some(2), Some(4))));
    assert_eq!(validate_quantifiers(Some(3), Some(5), 0), Ok((Some(3), Some(5))));
    assert_eq!(validate_quantifiers(Some(0), None, 1), Ok((Some(0), None)));
    assert_eq!(validate_quantifiers(None, Some(1), 1), Ok((None, Some(0))));
    assert_eq!(validate_quantifiers(None, None, 7), Ok((None, None)));
    assert_eq!(validate_quantifiers(Some(4), Some(4), 9), Ok((Some(0), Some(0))));
    assert_eq!(validate_quantifiers(Some(3), Some(2), 1), Err(SchemaError::InvalidBounds));
    assert_eq!(validate_quantifiers(Some(1), Some(0), 1), Err(SchemaError::InvalidBounds));
    assert_eq!(
        validate_quantifiers(Some(u64::MAX), Some(u64::MAX), 1),
        Ok((Some(u64::MAX - 1), Some(u64::MAX - 1)))
    );
}

#[test]
fn quantifiers_take_four_shapes() {
    assert_eq!(quantifier_string(Some(2), Some(5), "*"), "{2,5}");
    assert_eq!(quantifier_string(Some(2), None, "*"), "{2,}");
    assert_eq!(quantifier_string(None, Some(5), "*"), "{0,5}");
    assert_eq!(quantifier_string(None, None, "*"), "*");
    assert_eq!(quantifier_string(None, None, "+"), "+");
    assert_eq!(quantifier_string(Some(10), Some(120), "+"), "{10,120}");
}

#[test]
fn repetition_counts_leave_the_first_member_out() {
    assert_eq!(get_num_items_pattern(None, None), Some("{0,}".to_string()));
    assert_eq!(get_num_items_pattern(Some(0), None), Some("{0,}".to_string()));
    assert_eq!(get_num_items_pattern(Some(1), None), Some("{0,}".to_string()));
    assert_eq!(get_num_items_pattern(Some(3), None), Some("{2,}".to_string()));
    assert_eq!(get_num_items_pattern(Some(2), Some(4)), Some("{1,3}".to_string()));
    assert_eq!(get_num_items_pattern(None, Some(1)), Some("{0,0}".to_string()));
    assert_eq!(get_num_items_pattern(None, Some(0)), None);
    assert_eq!(get_num_items_pattern(Some(0), Some(0)), None);
}

#[test]
fn decimal_digits() {
    assert_eq!(decimal_string(0), "0");
    assert_eq!(decimal_string(7), "7");
    assert_eq!(decimal_string(10), "10");
    assert_eq!(decimal_string(1234567890), "1234567890");
    assert_eq!(decimal_string(u64::MAX), "18446744073709551615");
}

#[test]
fn strings_are_joined_and_compared() {
    let parts = vec!["a".to_string(), "".to_string(), "bc".to_string()];
    assert_eq!(join_strings(&parts, "|"), "a||bc");
    assert_eq!(join_strings(&parts, ""), "abc");
    assert_eq!(join_strings(&Vec::new(), "|"), "");
    assert_eq!(join_strings(&vec!["x".to_string()], ", "), "x");
    assert!(str_eq("date", "date"));
    assert!(!str_eq("date", "date-time"));
    assert!(!str_eq("date", "data"));
    assert!(str_eq("", ""));
    assert!(str_eq("é", "é"));
}

#[test]
fn arrays_repeat_their_item() {
    let pattern = compile(r#"{"type": "array", "items": {"type": "integer"}, "minItems": 2, "maxItems": 3}"#)
        .unwrap();
    let ws = WHITESPACE;
    assert_eq!(pattern, format!(r"\[{ws}(({INTEGER})(,{ws}({INTEGER})){{1,2}}){ws}\]"));
    assert!(accepts(&pattern, "[1, 2]"));
    assert!(accepts(&pattern, "[1, 2, 3]"));
    assert!(!accepts(&pattern, "[1]"));
    assert!(!accepts(&pattern, "[]"));
    assert!(!accepts(&pattern, "[1, 2, 3, 4]"));
    assert_eq!(array_string("x", None, Some(0), "w"), r"\[w\]");
    assert_eq!(array_string("x", Some(1), None, "w"), r"\[w((x)(,w(x)){0,})w\]");
    assert_eq!(array_string("x", None, Some(2), "w"), r"\[w((x)(,w(x)){0,1})?w\]");
}

#[test]
fn an_item_is_not_compiled_for_an_array_that_stays_empty() {
    assert_eq!(
        compile(r#"{"type": "array", "items": 3, "maxItems": 0}"#).unwrap(),
        r"\[[ ]?\]"
    );
    assert_eq!(
        compile(r#"{"type": "array", "items": 3, "maxItems": 1}"#),
        Err(SchemaError::InvalidSchema)
    );
}

#[test]
fn open_arrays_nest_to_their_depth() {
    let flat = compile(r#"{"type": "array", "depth": 0}"#).unwrap();
    let scalars = format!("{BOOLEAN}|{NULL}|{NUMBER}|{INTEGER}|{STRING}");
    assert_eq!(flat, format!(r"\[[ ]?(({scalars})(,[ ]?({scalars})){{0,}})?[ ]?\]"));
    assert_eq!(open_union_string(0, "[ ]?"), scalars);
    assert_eq!(open_array_string(0, "[ ]?"), flat);
    assert!(accepts(&flat, r#"[1, "a", null, true, 2.5]"#));
    assert!(!accepts(&flat, "[[1]]"));
    let default = compile(r#"{"type": "array"}"#).unwrap();
    assert_eq!(default, open_array_string(2, "[ ]?"));
    Regex::new(&default).unwrap();
    assert!(accepts(&default, "[[[1]]]"));
    assert!(accepts(&default, r#"[{"a": [true]}]"#));
    assert!(!accepts(&default, "[[[[1]]]]"));
    let one = open_union_string(1, "");
    assert_eq!(
        one,
        format!("{scalars}|{}|{}", open_object_string(0, ""), open_array_string(0, ""))
    );
}

#[test]
fn open_objects_take_any_key() {
    let pattern = compile(r#"{"type": "object"}"#).unwrap();
    assert_eq!(pattern, open_object_string(2, "[ ]?"));
    Regex::new(&pattern).unwrap();
    assert!(accepts(&pattern, "{}"));
    assert!(accepts(&pattern, r#"{"a": 1}"#));
    assert!(accepts(&pattern, r#"{"a": 1, "b": {"c": [null]}}"#));
    assert!(!accepts(&pattern, r#"{"a": 1,}"#));
    assert!(!accepts(&pattern, r#"{a: 1}"#));
    let flat = handle_object_type(&map(vec![("depth", number(0))]), "").unwrap();
    let scalars = format!("{BOOLEAN}|{NULL}|{NUMBER}|{INTEGER}|{STRING}");
    assert_eq!(
        flat,
        format!(r"\{{({STRING}:({scalars})(,{STRING}:({scalars})){{0,}})?\}}")
    );
    assert_eq!(object_string("v", Some(2), Some(2), "w"), format!(r"\{{w({STRING}w:wv(w,w{STRING}w:wv){{1,1}})w\}}"));
}

#[test]
fn object_values_follow_additional_properties() {
    let pattern = compile(
        r#"{"type": "object", "additionalProperties": {"type": "integer"}, "minProperties": 1}"#,
    )
    .unwrap();
    let ws = WHITESPACE;
    let member = format!("{STRING}{ws}:{ws}{INTEGER}");
    assert_eq!(pattern, format!(r"\{{{ws}({member}({ws},{ws}{member}){{0,}}){ws}\}}"));
    assert!(accepts(&pattern, r#"{"a": 1}"#));
    assert!(accepts(&pattern, r#"{"a": 1, "b": 22}"#));
    assert!(!accepts(&pattern, "{}"));
    assert!(!accepts(&pattern, r#"{"a": "x"}"#));
    let open = compile(r#"{"type": "object", "additionalProperties": true}"#).unwrap();
    assert_eq!(open, compile(r#"{"type": "object"}"#).unwrap());
    assert_eq!(
        compile(r#"{"type": "object", "additionalProperties": false}"#),
        Err(SchemaError::InvalidSchema)
    );
    assert_eq!(
        compile(r#"{"type": "object", "additionalProperties": {"type": "x"}}"#),
        Err(SchemaError::UnsupportedType)
    );
}

#[test]
fn the_empty_schema_accepts_any_value() {
    let pattern = compile("{}").unwrap();
    assert_eq!(pattern, handle_empty_object("[ ]?").unwrap());
    assert_eq!(to_regex(&Json::Object(JsonMap::new()), None).unwrap(), pattern);
    assert_eq!(
        pattern,
        format!(
            "(?:{BOOLEAN})|(?:{NULL})|(?:{NUMBER})|(?:{INTEGER})|(?:{STRING})|(?:{})|(?:{})",
            open_array_string(2, "[ ]?"),
            open_object_string(2, "[ ]?")
        )
    );
    Regex::new(&pattern).unwrap();
    for document in ["true", "null", "-1.5", "12", r#""x""#, r#"[1, "a"]"#, r#"{"a": [1]}"#] {
        assert!(accepts(&pattern, document), "{}", document);
    }
    assert!(!accepts(&pattern, "tru"));
    assert!(!accepts(&pattern, "[1"));
}

#[test]
fn whitespace_is_threaded_through() {
    let schema = r#"{"properties": {"a": {"type": "array", "items": {"type": "null"}}}, "required": ["a"]}"#;
    let pattern = build_regex_from_schema(schema, Some(r"\s*")).unwrap();
    assert_eq!(pattern, r#"\{\s*"a"\s*:\s*\[\s*((null)(,\s*(null)){0,})?\s*\]\s*\}"#);
    assert!(accepts(&pattern, "{ \"a\" :\n[ null,\tnull ] }"));
    let tight = build_regex_from_schema(schema, Some("")).unwrap();
    assert_eq!(tight, r#"\{"a":\[((null)(,(null)){0,})?\]\}"#);
    assert!(!accepts(&tight, r#"{"a": [null]}"#));
    assert_eq!(
        build_regex_from_schema(schema, None).unwrap(),
        build_regex_from_schema(schema, Some(WHITESPACE)).unwrap()
    );
}

#[test]
fn compiling_twice_gives_the_same_pattern() {
    let schema = r#"{"properties": {"a": {"enum": ["x", 1.5]}, "b": {}}, "required": ["b"]}"#;
    let first = build_regex_from_schema(schema, None);
    let second = build_regex_from_schema(schema, None);
    assert!(first.is_ok());
    assert_eq!(first, second);
    let value = object(vec![("anyOf", Json::Array(vec![of_type("string"), of_type("x")]))]);
    assert_eq!(to_regex(&value, Some("w")), to_regex(&value, Some("w")));
}

#[test]
fn text_and_value_agree() {
    let from_text = compile(
        r#"{"properties": {"tags": {"type": "array", "items": {"enum": ["a", "b"]}}, "id": {"type": "integer", "maxDigits": 4}}, "required": ["id"]}"#,
    )
    .unwrap();
    let value = object(vec![
        (
            "properties",
            object(vec![
                (
                    "tags",
                    object(vec![
                        ("type", text("array")),
                        ("items", object(vec![("enum", Json::Array(vec![text("a"), text("b")]))])),
                    ]),
                ),
                ("id", object(vec![("type", text("integer")), ("maxDigits", number(4))])),
            ]),
        ),
        ("required", Json::Array(vec![text("id")])),
    ]);
    assert_eq!(to_regex(&value, None).unwrap(), from_text);
    assert!(accepts(&from_text, r#"{"tags": ["a", "b", "a"], "id": 12}"#));
    assert!(!accepts(&from_text, r#"{"id": 12, "tags": ["a"]}"#));
    assert!(accepts(&from_text, r#"{"id": 0}"#));
    assert!(!accepts(&from_text, r#"{"tags": ["a"]}"#));
    assert!(!accepts(&from_text, r#"{"id": 12345}"#));
}

#[test]
fn scalar_handlers_give_the_fixed_patterns() {
    assert_eq!(handle_boolean_type().unwrap(), "(true|false)");
    assert_eq!(handle_null_type().unwrap(), "null");
    assert_eq!(JsonType::Boolean.to_regex(), BOOLEAN);
    assert_eq!(JsonType::Null.to_regex(), NULL);
    assert_eq!(JsonType::Number.to_regex(), NUMBER);
    assert_eq!(JsonType::Integer.to_regex(), INTEGER);
    assert_eq!(JsonType::String.to_regex(), STRING);
    assert_eq!(JsonType::Integer.to_regex(), "(-)?(0|[1-9][0-9]*)");
    assert_eq!(WHITESPACE, "[ ]?");
}

#[test]
fn formats_are_read_by_name() {
    assert_eq!(FormatType::from_str("date-time"), Some(FormatType::DateTime));
    assert_eq!(FormatType::from_str("date"), Some(FormatType::Date));
    assert_eq!(FormatType::from_str("time"), Some(FormatType::Time));
    assert_eq!(FormatType::from_str("uuid"), Some(FormatType::Uuid));
    assert_eq!(FormatType::from_str("Date"), None);
    assert_eq!(FormatType::from_str(""), None);
    assert_eq!(FormatType::DateTime.to_regex(), DATE_TIME);
    assert_eq!(FormatType::Date.to_regex(), DATE);
    assert_eq!(FormatType::Time.to_regex(), TIME);
    assert_eq!(FormatType::Uuid.to_regex(), UUID);
}

#[test]
fn members_are_found_by_their_first_name() {
    let mut members = JsonMap::new();
    assert!(members.is_empty());
    members.push("a".to_string(), number(1));
    members.push("b".to_string(), text("x"));
    members.push("a".to_string(), number(2));
    assert_eq!(members.len(), 3);
    assert_eq!(members.position("a"), Some(0));
    assert_eq!(members.position("b"), Some(1));
    assert_eq!(members.position("c"), None);
    assert!(members.contains_key("b"));
    assert!(!members.contains_key("B"));
    assert_eq!(members.get_u64("a"), Some(1));
    assert_eq!(members.get_u64("b"), None);
    assert_eq!(members.get_str("b"), Some("x"));
    assert_eq!(members.get_str("a"), None);
    assert!(members.get("c").is_none());
    assert_eq!(members.get("b").unwrap().as_str(), Some("x"));
    assert_eq!(Json::Number(JsonNumber::Other("-1".to_string())).as_u64(), None);
    assert_eq!(Json::Bool(true).as_u64(), None);
}

#[test]
fn the_depth_of_a_schema_is_read_from_it() {
    let shallow = handle_array_type(&map(vec![("depth", number(1))]), "").unwrap();
    assert_eq!(shallow, open_array_string(1, ""));
    assert!(accepts(&shallow, "[[1]]"));
    assert!(!accepts(&shallow, "[[[1]]]"));
    let odd = handle_array_type(&map(vec![("depth", text("1"))]), "").unwrap();
    assert_eq!(odd, open_array_string(2, ""));
    assert_eq!(DEFAULT_DEPTH, 2);
    let deep = handle_object_type(&map(vec![("depth", number(3))]), "").unwrap();
    assert_eq!(deep, open_object_string(3, ""));
    assert!(accepts(&deep, r#"{"a":{"b":{"c":{"d":1}}}}"#));
    assert!(!accepts(&deep, r#"{"a":{"b":{"c":{"d":{"e":1}}}}}"#));
}

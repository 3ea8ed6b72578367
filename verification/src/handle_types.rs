//! The handlers of the `type` keyword, and the bounds and repetitions
//! that they share.

use vstd::prelude::*;
use vstd::string::*;
use crate::error::SchemaError;
use crate::guidance::{compile_member, to_regex};
use crate::json::{
    Json, JsonMap, JsonValue, Members, has_key, lemma_position_within, lookup, lookup_str,
    lookup_u64, position,
};
use crate::text::{decimal, decimal_string, text_result};
use crate::types::{
    BOOLEAN, DEFAULT_DEPTH, FormatType, INTEGER, JsonType, NULL, NUMBER, STRING, STRING_INNER,
};

verus! {

/// A minimum and a maximum disagree where both are given and the maximum
/// is the smaller.
pub open spec fn bounds_conflict(min: Option<u64>, max: Option<u64>) -> bool {
    match (min, max) {
        (Some(lo), Some(hi)) => hi < lo,
        _ => false,
    }
}

/// A bound less `offset`, but not below zero; a missing bound stays
/// missing.
pub open spec fn shifted(bound: Option<u64>, offset: u64) -> Option<u64> {
    match bound {
        Some(n) => Some(
            if n >= offset {
                (n - offset) as u64
            } else {
                0u64
            },
        ),
        None => None,
    }
}

/// The pair of bounds after validation: `InvalidBounds` where they
/// disagree, else each bound less `offset`.
pub open spec fn validated(min: Option<u64>, max: Option<u64>, offset: u64) -> Result<
    (Option<u64>, Option<u64>),
    SchemaError,
> {
    if bounds_conflict(min, max) {
        Err(SchemaError::InvalidBounds)
    } else {
        Ok((shifted(min, offset), shifted(max, offset)))
    }
}

/// The repetition that a pair of bounds asks for: `{min,max}`, `{min,}`,
/// `{0,max}`, or `open` where neither bound is given.
pub open spec fn quantifier(min: Option<u64>, max: Option<u64>, open: Seq<char>) -> Seq<char> {
    match (min, max) {
        (Some(lo), Some(hi)) => "{"@ + decimal(lo as nat) + ","@ + decimal(hi as nat) + "}"@,
        (Some(lo), None) => "{"@ + decimal(lo as nat) + ",}"@,
        (None, Some(hi)) => "{0,"@ + decimal(hi as nat) + "}"@,
        (None, None) => open,
    }
}

/// How often the members after the first repeat: `None` where the
/// container can only be empty (a maximum below one), else
/// `{min-1,max-1}` or `{min-1,}` with a missing minimum read as zero and
/// nothing going below zero.
pub open spec fn num_items_pattern(min: Option<u64>, max: Option<u64>) -> Option<Seq<char>> {
    let lo = shifted(Some(min.unwrap_or(0)), 1);
    match max {
        None => Some(quantifier(lo, None, Seq::empty())),
        Some(hi) => if hi < 1 {
            None
        } else {
            Some(quantifier(lo, shifted(max, 1), Seq::empty()))
        },
    }
}

/// A pattern anchored at both ends: it begins with `^` and ends with `$`.
pub open spec fn anchored(pattern: Seq<char>) -> bool {
    pattern.len() >= 2 && pattern[0] == '^' && pattern.last() == '$'
}

/// The pattern without its anchors, where it has both.
pub open spec fn unanchored(pattern: Seq<char>) -> Seq<char> {
    if anchored(pattern) {
        pattern.subrange(1, pattern.len() - 1)
    } else {
        pattern
    }
}

/// The pattern of a schema of type string. A length bound goes first,
/// then `pattern`, then `format`. A length that is no non-negative
/// integer counts as not given; with both lengths so, any length is
/// accepted.
pub open spec fn string_type_pattern(obj: Members) -> Result<Seq<char>, SchemaError> {
    if has_key(obj, "maxLength"@) || has_key(obj, "minLength"@) {
        let min = lookup_u64(obj, "minLength"@);
        let max = lookup_u64(obj, "maxLength"@);
        if bounds_conflict(min, max) {
            Err(SchemaError::InvalidBounds)
        } else {
            Ok("\""@ + STRING_INNER@ + quantifier(min, max, "*"@) + "\""@)
        }
    } else {
        match lookup_str(obj, "pattern"@) {
            Some(pattern) => Ok("(\""@ + unanchored(pattern) + "\")"@),
            None => match lookup_str(obj, "format"@) {
                Some(name) => match FormatType::parse(name) {
                    Some(format) => Ok(format.pattern()),
                    None => Err(SchemaError::UnsupportedFormat),
                },
                None => Ok(STRING@),
            },
        }
    }
}

/// Whether a schema of type number bounds any of its digit counts.
pub open spec fn has_digit_bounds(obj: Members) -> bool {
    has_key(obj, "minDigitsInteger"@) || has_key(obj, "maxDigitsInteger"@) || has_key(
        obj,
        "minDigitsFraction"@,
    ) || has_key(obj, "maxDigitsFraction"@) || has_key(obj, "minDigitsExponent"@) || has_key(
        obj,
        "maxDigitsExponent"@,
    )
}

/// The pattern of a schema of type number. The first digit of the integer
/// part is matched apart, so its bounds count one less; a bound that is
/// given stays in the quantifier, and a part with no bound at all may
/// have any number of digits (`*`) or at least one (`+`).
pub open spec fn number_type_pattern(obj: Members) -> Result<Seq<char>, SchemaError> {
    if has_digit_bounds(obj) {
        match validated(
            lookup_u64(obj, "minDigitsInteger"@),
            lookup_u64(obj, "maxDigitsInteger"@),
            1,
        ) {
            Err(e) => Err(e),
            Ok(integer) => match validated(
                lookup_u64(obj, "minDigitsFraction"@),
                lookup_u64(obj, "maxDigitsFraction"@),
                0,
            ) {
                Err(e) => Err(e),
                Ok(fraction) => match validated(
                    lookup_u64(obj, "minDigitsExponent"@),
                    lookup_u64(obj, "maxDigitsExponent"@),
                    0,
                ) {
                    Err(e) => Err(e),
                    Ok(exponent) => Ok(
                        "((-)?(0|[1-9][0-9]"@ + quantifier(integer.0, integer.1, "*"@)
                            + "))(\\.[0-9]"@ + quantifier(fraction.0, fraction.1, "+"@)
                            + ")?([eE][+-][0-9]"@ + quantifier(exponent.0, exponent.1, "+"@)
                            + ")?"@,
                    ),
                },
            },
        }
    } else {
        Ok(NUMBER@)
    }
}

/// The pattern of a schema of type integer, with the bounds counted as in
/// the integer part of a number.
pub open spec fn integer_type_pattern(obj: Members) -> Result<Seq<char>, SchemaError> {
    if has_key(obj, "minDigits"@) || has_key(obj, "maxDigits"@) {
        match validated(lookup_u64(obj, "minDigits"@), lookup_u64(obj, "maxDigits"@), 1) {
            Err(e) => Err(e),
            Ok(digits) => Ok("(-)?(0|[1-9][0-9]"@ + quantifier(digits.0, digits.1, "*"@) + ")"@),
        }
    } else {
        Ok(INTEGER@)
    }
}

/// The pattern of a boolean: `(true|false)`.
pub fn handle_boolean_type() -> (regex: Result<String, SchemaError>)
    ensures
        text_result(regex) == Ok::<Seq<char>, SchemaError>(JsonType::Boolean.pattern()),
{
    Ok(String::from_str(JsonType::Boolean.to_regex()))
}

/// The pattern of null: `null`.
pub fn handle_null_type() -> (regex: Result<String, SchemaError>)
    ensures
        text_result(regex) == Ok::<Seq<char>, SchemaError>(JsonType::Null.pattern()),
{
    Ok(String::from_str(JsonType::Null.to_regex()))
}

/// Checks a pair of bounds and takes `start_offset` from each.
pub fn validate_quantifiers(min_bound: Option<u64>, max_bound: Option<u64>, start_offset: u64) -> (bounds:
    Result<(Option<u64>, Option<u64>), SchemaError>)
    ensures
        bounds == validated(min_bound, max_bound, start_offset),
{
    if let (Some(lo), Some(hi)) = (min_bound, max_bound) {
        if hi < lo {
            return Err(SchemaError::InvalidBounds);
        }
    }
    let lo = match min_bound {
        Some(n) => Some(n.saturating_sub(start_offset)),
        None => None,
    };
    let hi = match max_bound {
        Some(n) => Some(n.saturating_sub(start_offset)),
        None => None,
    };
    Ok((lo, hi))
}

/// Writes the repetition that a pair of bounds asks for.
pub fn quantifier_string(min: Option<u64>, max: Option<u64>, open: &str) -> (text: String)
    ensures
        text@ == quantifier(min, max, open@),
{
    match (min, max) {
        (Some(lo), Some(hi)) => {
            let mut out = String::from_str("{");
            out.append(decimal_string(lo).as_str());
            out.append(",");
            out.append(decimal_string(hi).as_str());
            out.append("}");
            out
        },
        (Some(lo), None) => {
            let mut out = String::from_str("{");
            out.append(decimal_string(lo).as_str());
            out.append(",}");
            out
        },
        (None, Some(hi)) => {
            let mut out = String::from_str("{0,");
            out.append(decimal_string(hi).as_str());
            out.append("}");
            out
        },
        (None, None) => String::from_str(open),
    }
}

/// How often the members after the first repeat, or `None` where the
/// container can only be empty.
pub fn get_num_items_pattern(min_items: Option<u64>, max_items: Option<u64>) -> (pattern: Option<
    String,
>)
    ensures
        match pattern {
            Some(text) => num_items_pattern(min_items, max_items) == Some(text@),
            None => num_items_pattern(min_items, max_items) is None,
        },
{
    let lo = match min_items {
        Some(n) => n,
        None => 0,
    };
    let lo = Some(lo.saturating_sub(1));
    match max_items {
        None => Some(quantifier_string(lo, None, "")),
        Some(hi) => {
            if hi < 1 {
                None
            } else {
                Some(quantifier_string(lo, Some(hi.saturating_sub(1)), ""))
            }
        },
    }
}

/// Compiles a schema of type string.
pub fn handle_string_type(obj: &JsonMap) -> (regex: Result<String, SchemaError>)
    ensures
        text_result(regex) == string_type_pattern(obj@),
{
    if obj.contains_key("maxLength") || obj.contains_key("minLength") {
        let min = obj.get_u64("minLength");
        let max = obj.get_u64("maxLength");
        if let (Some(lo), Some(hi)) = (min, max) {
            if hi < lo {
                return Err(SchemaError::InvalidBounds);
            }
        }
        let mut out = String::from_str("\"");
        out.append(STRING_INNER);
        out.append(quantifier_string(min, max, "*").as_str());
        out.append("\"");
        Ok(out)
    } else if let Some(pattern) = obj.get_str("pattern") {
        let n = pattern.unicode_len();
        let inner = if n >= 2 && pattern.get_char(0) == '^' && pattern.get_char(n - 1) == '$' {
            pattern.substring_char(1, n - 1)
        } else {
            pattern
        };
        let mut out = String::from_str("(\"");
        out.append(inner);
        out.append("\")");
        Ok(out)
    } else if let Some(name) = obj.get_str("format") {
        match FormatType::from_str(name) {
            Some(format) => Ok(String::from_str(format.to_regex())),
            None => Err(SchemaError::UnsupportedFormat),
        }
    } else {
        Ok(String::from_str(STRING))
    }
}

/// Compiles a schema of type number.
pub fn handle_number_type(obj: &JsonMap) -> (regex: Result<String, SchemaError>)
    ensures
        text_result(regex) == number_type_pattern(obj@),
{
    let has_bounds = obj.contains_key("minDigitsInteger") || obj.contains_key("maxDigitsInteger")
        || obj.contains_key("minDigitsFraction") || obj.contains_key("maxDigitsFraction")
        || obj.contains_key("minDigitsExponent") || obj.contains_key("maxDigitsExponent");
    if has_bounds {
        let integer = validate_quantifiers(
            obj.get_u64("minDigitsInteger"),
            obj.get_u64("maxDigitsInteger"),
            1,
        )?;
        let fraction = validate_quantifiers(
            obj.get_u64("minDigitsFraction"),
            obj.get_u64("maxDigitsFraction"),
            0,
        )?;
        let exponent = validate_quantifiers(
            obj.get_u64("minDigitsExponent"),
            obj.get_u64("maxDigitsExponent"),
            0,
        )?;
        let mut out = String::from_str("((-)?(0|[1-9][0-9]");
        out.append(quantifier_string(integer.0, integer.1, "*").as_str());
        out.append("))(\\.[0-9]");
        out.append(quantifier_string(fraction.0, fraction.1, "+").as_str());
        out.append(")?([eE][+-][0-9]");
        out.append(quantifier_string(exponent.0, exponent.1, "+").as_str());
        out.append(")?");
        Ok(out)
    } else {
        Ok(String::from_str(NUMBER))
    }
}

/// Compiles a schema of type integer.
pub fn handle_integer_type(obj: &JsonMap) -> (regex: Result<String, SchemaError>)
    ensures
        text_result(regex) == integer_type_pattern(obj@),
{
    if obj.contains_key("minDigits") || obj.contains_key("maxDigits") {
        let digits = validate_quantifiers(obj.get_u64("minDigits"), obj.get_u64("maxDigits"), 1)?;
        let mut out = String::from_str("(-)?(0|[1-9][0-9]");
        out.append(quantifier_string(digits.0, digits.1, "*").as_str());
        out.append(")");
        Ok(out)
    } else {
        Ok(String::from_str(INTEGER))
    }
}

/// The mark behind a group that may be left out: `?` where the minimum
/// is zero or missing, else nothing.
pub open spec fn optional_mark(min: Option<u64>) -> Seq<char> {
    if min.unwrap_or(0) == 0 {
        "?"@
    } else {
        ""@
    }
}

/// The pattern of an array whose items match `item`: `[]` alone where the
/// bounds leave nothing else, otherwise one item and its successors, each
/// behind a comma.
pub open spec fn array_pattern(item: Seq<char>, min: Option<u64>, max: Option<u64>, ws: Seq<char>) -> Seq<
    char,
> {
    match num_items_pattern(min, max) {
        None => "\\["@ + ws + "\\]"@,
        Some(count) => "\\["@ + ws + "(("@ + item + ")(,"@ + ws + "("@ + item + "))"@ + count
            + ")"@ + optional_mark(min) + ws + "\\]"@,
    }
}

/// One member of an open object: any string as the key, a colon, and a
/// value that matches `value`.
pub open spec fn key_value(value: Seq<char>, ws: Seq<char>) -> Seq<char> {
    STRING@ + ws + ":"@ + ws + value
}

/// The pattern of an object whose values match `value`: `{}` alone where
/// the bounds leave nothing else, otherwise one member and its
/// successors, each behind a comma.
pub open spec fn object_pattern(value: Seq<char>, min: Option<u64>, max: Option<u64>, ws: Seq<char>) -> Seq<
    char,
> {
    match num_items_pattern(min, max) {
        None => "\\{"@ + ws + "\\}"@,
        Some(count) => "\\{"@ + ws + "("@ + key_value(value, ws) + "("@ + ws + ","@ + ws
            + key_value(value, ws) + ")"@ + count + ")"@ + optional_mark(min) + ws + "\\}"@,
    }
}

/// The alternatives that are no containers: boolean, null, number,
/// integer and string.
pub open spec fn scalar_union() -> Seq<char> {
    BOOLEAN@ + "|"@ + NULL@ + "|"@ + NUMBER@ + "|"@ + INTEGER@ + "|"@ + STRING@
}

/// What an item may be where the schema says nothing of it: a scalar, or,
/// while `depth` is above zero, an open object or array one level
/// shallower.
pub open spec fn open_union(depth: nat, ws: Seq<char>) -> Seq<char>
    decreases depth, 0nat,
{
    if depth == 0 {
        scalar_union()
    } else {
        scalar_union() + "|"@ + open_object((depth - 1) as nat, ws) + "|"@ + open_array(
            (depth - 1) as nat,
            ws,
        )
    }
}

/// An array of any length whose items are left open.
pub open spec fn open_array(depth: nat, ws: Seq<char>) -> Seq<char>
    decreases depth, 1nat,
{
    array_pattern(open_union(depth, ws), None, None, ws)
}

/// An object of any size whose values are left open.
pub open spec fn open_object(depth: nat, ws: Seq<char>) -> Seq<char>
    decreases depth, 1nat,
{
    object_pattern("("@ + open_union(depth, ws) + ")"@, None, None, ws)
}

/// How deep the open alternatives of a schema may nest: its `depth`
/// member, or the default.
pub open spec fn depth_of(obj: Members) -> nat {
    lookup_u64(obj, "depth"@).unwrap_or(DEFAULT_DEPTH) as nat
}

/// The pattern of a schema of type array. The bounds are checked first;
/// then `[]` alone is given where the maximum is below one; else the
/// items follow `items`, or are left open where it is missing.
pub open spec fn array_type_pattern(obj: Members, ws: Seq<char>) -> Result<Seq<char>, SchemaError>
    decreases obj, 1nat,
{
    let min = lookup_u64(obj, "minItems"@);
    let max = lookup_u64(obj, "maxItems"@);
    if bounds_conflict(min, max) {
        Err(SchemaError::InvalidBounds)
    } else if num_items_pattern(min, max) is None {
        Ok(array_pattern(Seq::empty(), min, max, ws))
    } else {
        match position(obj, "items"@) {
            Some(i) => match compile_member(obj, i, ws) {
                Err(e) => Err(e),
                Ok(item) => Ok(array_pattern(item, min, max, ws)),
            },
            None => Ok(array_pattern(open_union(depth_of(obj), ws), min, max, ws)),
        }
    }
}

/// Whether `additionalProperties` says nothing: it is missing or `true`.
pub open spec fn values_left_open(obj: Members) -> bool {
    match lookup(obj, "additionalProperties"@) {
        None => true,
        Some(v) => v == JsonValue::Bool(true),
    }
}

/// The pattern of a schema of type object without `properties`. The
/// bounds are checked first; then `{}` alone is given where the maximum
/// is below one; else the values follow `additionalProperties`, or are
/// left open where it is missing or `true`.
pub open spec fn object_type_pattern(obj: Members, ws: Seq<char>) -> Result<Seq<char>, SchemaError>
    decreases obj, 1nat,
{
    let min = lookup_u64(obj, "minProperties"@);
    let max = lookup_u64(obj, "maxProperties"@);
    if bounds_conflict(min, max) {
        Err(SchemaError::InvalidBounds)
    } else if num_items_pattern(min, max) is None {
        Ok(object_pattern(Seq::empty(), min, max, ws))
    } else if values_left_open(obj) {
        Ok(object_pattern("("@ + open_union(depth_of(obj), ws) + ")"@, min, max, ws))
    } else {
        match position(obj, "additionalProperties"@) {
            Some(i) => match compile_member(obj, i, ws) {
                Err(e) => Err(e),
                Ok(value) => Ok(object_pattern(value, min, max, ws)),
            },
            None => Err(SchemaError::InvalidSchema),
        }
    }
}

/// Writes the pattern of an array whose items match `item`.
pub fn array_string(item: &str, min: Option<u64>, max: Option<u64>, ws: &str) -> (text: String)
    ensures
        text@ == array_pattern(item@, min, max, ws@),
{
    let mut out = String::from_str("\\[");
    out.append(ws);
    match get_num_items_pattern(min, max) {
        None => {},
        Some(count) => {
            out.append("((");
            out.append(item);
            out.append(")(,");
            out.append(ws);
            out.append("(");
            out.append(item);
            out.append("))");
            out.append(count.as_str());
            out.append(")");
            out.append(optional_mark_str(min));
            out.append(ws);
        },
    }
    out.append("\\]");
    out
}

fn optional_mark_str(min: Option<u64>) -> (mark: &'static str)
    ensures
        mark@ == optional_mark(min),
{
    let lo = match min {
        Some(n) => n,
        None => 0,
    };
    if lo == 0 {
        "?"
    } else {
        ""
    }
}

/// Writes the pattern of an object whose values match `value`.
pub fn object_string(value: &str, min: Option<u64>, max: Option<u64>, ws: &str) -> (text: String)
    ensures
        text@ == object_pattern(value@, min, max, ws@),
{
    let mut out = String::from_str("\\{");
    out.append(ws);
    match get_num_items_pattern(min, max) {
        None => {},
        Some(count) => {
            let mut member = String::from_str(STRING);
            member.append(ws);
            member.append(":");
            member.append(ws);
            member.append(value);
            out.append("(");
            out.append(member.as_str());
            out.append("(");
            out.append(ws);
            out.append(",");
            out.append(ws);
            out.append(member.as_str());
            out.append(")");
            out.append(count.as_str());
            out.append(")");
            out.append(optional_mark_str(min));
            out.append(ws);
        },
    }
    out.append("\\}");
    out
}

/// Writes what an item may be where the schema says nothing of it.
pub fn open_union_string(depth: u64, ws: &str) -> (text: String)
    ensures
        text@ == open_union(depth as nat, ws@),
    decreases depth, 0nat,
{
    let mut out = String::from_str(BOOLEAN);
    out.append("|");
    out.append(NULL);
    out.append("|");
    out.append(NUMBER);
    out.append("|");
    out.append(INTEGER);
    out.append("|");
    out.append(STRING);
    if depth > 0 {
        out.append("|");
        out.append(open_object_string(depth - 1, ws).as_str());
        out.append("|");
        out.append(open_array_string(depth - 1, ws).as_str());
    }
    out
}

/// Writes an array of any length whose items are left open.
pub fn open_array_string(depth: u64, ws: &str) -> (text: String)
    ensures
        text@ == open_array(depth as nat, ws@),
    decreases depth, 1nat,
{
    array_string(open_union_string(depth, ws).as_str(), None, None, ws)
}

/// Writes an object of any size whose values are left open.
pub fn open_object_string(depth: u64, ws: &str) -> (text: String)
    ensures
        text@ == open_object(depth as nat, ws@),
    decreases depth, 1nat,
{
    let mut value = String::from_str("(");
    value.append(open_union_string(depth, ws).as_str());
    value.append(")");
    object_string(value.as_str(), None, None, ws)
}

fn depth_budget(obj: &JsonMap) -> (depth: u64)
    ensures
        depth as nat == depth_of(obj@),
{
    match obj.get_u64("depth") {
        Some(d) => d,
        None => DEFAULT_DEPTH,
    }
}

/// Compiles a schema of type object that names no properties.
pub fn handle_object_type(obj: &JsonMap, whitespace_pattern: &str) -> (regex: Result<
    String,
    SchemaError,
>)
    ensures
        text_result(regex) == object_type_pattern(obj@, whitespace_pattern@),
    decreases obj, 1nat,
{
    let min = obj.get_u64("minProperties");
    let max = obj.get_u64("maxProperties");
    if let (Some(lo), Some(hi)) = (min, max) {
        if hi < lo {
            return Err(SchemaError::InvalidBounds);
        }
    }
    if get_num_items_pattern(min, max).is_none() {
        return Ok(object_string("", min, max, whitespace_pattern));
    }
    let left_open = match obj.get("additionalProperties") {
        None => true,
        Some(Json::Bool(true)) => true,
        Some(_) => false,
    };
    if left_open {
        let mut value = String::from_str("(");
        value.append(open_union_string(depth_budget(obj), whitespace_pattern).as_str());
        value.append(")");
        Ok(object_string(value.as_str(), min, max, whitespace_pattern))
    } else {
        match obj.position("additionalProperties") {
            Some(i) => {
                proof {
                    lemma_position_within(obj@, "additionalProperties"@, obj@.len() as int);
                }
                let value = to_regex(&obj.entries[i].1, Some(whitespace_pattern))?;
                Ok(object_string(value.as_str(), min, max, whitespace_pattern))
            },
            None => Err(SchemaError::InvalidSchema),
        }
    }
}

/// Compiles a schema of type array.
pub fn handle_array_type(obj: &JsonMap, whitespace_pattern: &str) -> (regex: Result<
    String,
    SchemaError,
>)
    ensures
        text_result(regex) == array_type_pattern(obj@, whitespace_pattern@),
    decreases obj, 1nat,
{
    let min = obj.get_u64("minItems");
    let max = obj.get_u64("maxItems");
    if let (Some(lo), Some(hi)) = (min, max) {
        if hi < lo {
            return Err(SchemaError::InvalidBounds);
        }
    }
    if get_num_items_pattern(min, max).is_none() {
        return Ok(array_string("", min, max, whitespace_pattern));
    }
    match obj.position("items") {
        Some(i) => {
            proof {
                lemma_position_within(obj@, "items"@, obj@.len() as int);
            }
            let item = to_regex(&obj.entries[i].1, Some(whitespace_pattern))?;
            Ok(array_string(item.as_str(), min, max, whitespace_pattern))
        },
        None => {
            let item = open_union_string(depth_budget(obj), whitespace_pattern);
            Ok(array_string(item.as_str(), min, max, whitespace_pattern))
        },
    }
}

} // verus!

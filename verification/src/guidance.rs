//! The dispatcher and the handlers of the structural keywords.

use vstd::prelude::*;
use vstd::string::*;
use crate::error::SchemaError;
use crate::handle_types::{
    array_type_pattern, handle_array_type, handle_boolean_type, handle_integer_type,
    handle_null_type, handle_number_type, handle_object_type, handle_string_type,
    integer_type_pattern, number_type_pattern, object_type_pattern, open_array,
    open_array_string, open_object, open_object_string, string_type_pattern,
};
use crate::json::{
    Json, JsonMap, JsonNumber, JsonValue, Members, NumberValue, has_key, lemma_array_view,
    lemma_object_view, lemma_position_within, lookup, lookup_str, position, values_view,
};
use crate::trusted::{
    decoded, escape, escaped, json_of_value, json_string, json_string_text, parse_value,
};
use crate::text::{decimal, decimal_string, join, join_strings, str_eq, text_result, views};
use crate::types::{BOOLEAN, DEFAULT_DEPTH, INTEGER, NULL, NUMBER, STRING, WHITESPACE};

verus! {

/// The keyword that decides how a schema object is compiled.
#[derive(Debug, Clone, Copy, PartialEq, Eq, Structural)]
pub enum SchemaKeyword {
    Properties,
    AllOf,
    AnyOf,
    OneOf,
    PrefixItems,
    Enum,
    Const,
    Ref,
    Type,
    EmptyObject,
}

/// The keyword of a schema object: `EmptyObject` for the empty object,
/// else the first of `properties`, `allOf`, `anyOf`, `oneOf`,
/// `prefixItems`, `enum`, `const`, `$ref`, `type` that the object holds.
pub open spec fn select_keyword(obj: Members) -> Option<SchemaKeyword> {
    if obj.len() == 0 {
        Some(SchemaKeyword::EmptyObject)
    } else if has_key(obj, "properties"@) {
        Some(SchemaKeyword::Properties)
    } else if has_key(obj, "allOf"@) {
        Some(SchemaKeyword::AllOf)
    } else if has_key(obj, "anyOf"@) {
        Some(SchemaKeyword::AnyOf)
    } else if has_key(obj, "oneOf"@) {
        Some(SchemaKeyword::OneOf)
    } else if has_key(obj, "prefixItems"@) {
        Some(SchemaKeyword::PrefixItems)
    } else if has_key(obj, "enum"@) {
        Some(SchemaKeyword::Enum)
    } else if has_key(obj, "const"@) {
        Some(SchemaKeyword::Const)
    } else if has_key(obj, "$ref"@) {
        Some(SchemaKeyword::Ref)
    } else if has_key(obj, "type"@) {
        Some(SchemaKeyword::Type)
    } else {
        None
    }
}

/// The whitespace pattern in force: the one given, or at most one space.
pub open spec fn whitespace_of(whitespace_pattern: Option<&str>) -> Seq<char> {
    match whitespace_pattern {
        Some(ws) => ws@,
        None => WHITESPACE@,
    }
}

/// The pattern that a schema compiles to, or the error that stops the
/// compilation. `ws` stands at every boundary between tokens.
pub open spec fn compile(schema: JsonValue, ws: Seq<char>) -> Result<Seq<char>, SchemaError>
    decreases schema, 0nat,
{
    match schema {
        JsonValue::Object(obj) => compile_object(obj, ws),
        _ => Err(SchemaError::InvalidSchema),
    }
}

/// The pattern of a schema object, by its keyword.
pub open spec fn compile_object(obj: Members, ws: Seq<char>) -> Result<Seq<char>, SchemaError>
    decreases obj, 3nat,
{
    match select_keyword(obj) {
        None => Err(SchemaError::UnsupportedSchema),
        Some(SchemaKeyword::Properties) => properties_pattern(obj, ws),
        Some(SchemaKeyword::AllOf) => all_of_pattern(obj, ws),
        Some(SchemaKeyword::AnyOf) => any_of_pattern(obj, ws),
        Some(SchemaKeyword::OneOf) => one_of_pattern(obj, ws),
        Some(SchemaKeyword::PrefixItems) => prefix_items_pattern(obj, ws),
        Some(SchemaKeyword::Enum) => enum_pattern(obj),
        Some(SchemaKeyword::Const) => const_pattern(obj),
        Some(SchemaKeyword::Ref) => Err(SchemaError::UnsupportedKeyword),
        Some(SchemaKeyword::Type) => type_pattern(obj, ws),
        Some(SchemaKeyword::EmptyObject) => Ok(unconstrained_pattern(ws)),
    }
}

/// The pattern of the member at `i`, compiled as a schema.
pub open spec fn compile_member(obj: Members, i: int, ws: Seq<char>) -> Result<
    Seq<char>,
    SchemaError,
>
    decreases obj, 0nat,
{
    if 0 <= i < obj.len() {
        compile(obj[i].1, ws)
    } else {
        Err(SchemaError::InvalidSchema)
    }
}

/// The patterns of the schemas in the array at member `i`, in order;
/// `InvalidSchema` where the member is no array.
pub open spec fn compile_member_items(obj: Members, i: int, ws: Seq<char>) -> Result<
    Seq<Seq<char>>,
    SchemaError,
>
    decreases obj, 0nat,
{
    if 0 <= i < obj.len() {
        match obj[i].1 {
            JsonValue::Array(items) => compile_from(items, 0, ws),
            _ => Err(SchemaError::InvalidSchema),
        }
    } else {
        Err(SchemaError::InvalidSchema)
    }
}

/// The fragments of the properties in the object at member `i`, in
/// declaration order; `InvalidSchema` where the member is no object.
pub open spec fn compile_member_properties(obj: Members, i: int, ws: Seq<char>) -> Result<
    Seq<Seq<char>>,
    SchemaError,
>
    decreases obj, 0nat,
{
    if 0 <= i < obj.len() {
        match obj[i].1 {
            JsonValue::Object(props) => property_fragments_from(props, 0, ws),
            _ => Err(SchemaError::InvalidSchema),
        }
    } else {
        Err(SchemaError::InvalidSchema)
    }
}

/// The patterns of the schemas from index `k` on, or the error of the
/// first that fails.
pub open spec fn compile_from(items: Seq<JsonValue>, k: int, ws: Seq<char>) -> Result<
    Seq<Seq<char>>,
    SchemaError,
>
    decreases items, items.len() - k,
{
    if k < 0 || k >= items.len() {
        Ok(Seq::empty())
    } else {
        match compile(items[k], ws) {
            Err(e) => Err(e),
            Ok(first) => match compile_from(items, k + 1, ws) {
                Err(e) => Err(e),
                Ok(rest) => Ok(seq![first] + rest),
            },
        }
    }
}

/// One property: the escaped key between double quotes, a colon with
/// whitespace on both sides, and the pattern of the value.
pub open spec fn property_fragment(key: Seq<char>, value: Seq<char>, ws: Seq<char>) -> Seq<char> {
    "\""@ + escaped(key) + "\""@ + ws + ":"@ + ws + value
}

/// The fragments of the properties from index `k` on, or the error of the
/// first whose schema fails.
pub open spec fn property_fragments_from(props: Members, k: int, ws: Seq<char>) -> Result<
    Seq<Seq<char>>,
    SchemaError,
>
    decreases props, props.len() - k,
{
    if k < 0 || k >= props.len() {
        Ok(Seq::empty())
    } else {
        match compile(props[k].1, ws) {
            Err(e) => Err(e),
            Ok(value) => match property_fragments_from(props, k + 1, ws) {
                Err(e) => Err(e),
                Ok(rest) => Ok(seq![property_fragment(props[k].0, value, ws)] + rest),
            },
        }
    }
}

/// The items of `required`, or none where it is missing or no array.
pub open spec fn required_names(obj: Members) -> Seq<JsonValue> {
    match lookup(obj, "required"@) {
        Some(JsonValue::Array(names)) => names,
        _ => Seq::empty(),
    }
}

/// Whether `key` is among the required names.
pub open spec fn is_required(names: Seq<JsonValue>, key: Seq<char>) -> bool {
    names.contains(JsonValue::String(key))
}

/// The index of the last required property among the first `n`.
pub open spec fn last_required(props: Members, names: Seq<JsonValue>, n: int) -> Option<int>
    decreases n,
{
    if n <= 0 {
        None
    } else if is_required(names, props[n - 1].0) {
        Some(n - 1)
    } else {
        last_required(props, names, n - 1)
    }
}

/// A fragment with its comma and its option mark: before the last
/// required property a comma and whitespace follow it, behind the last
/// required property whitespace and a comma lead it, and a property that
/// is not required stands in an optional group, comma included.
pub open spec fn adorned(fragment: Seq<char>, required: bool, i: int, last: int, ws: Seq<char>) -> Seq<
    char,
> {
    let with_comma = if i < last {
        fragment + ","@ + ws
    } else if i > last {
        ws + ","@ + fragment
    } else {
        fragment
    };
    if required {
        with_comma
    } else {
        "("@ + with_comma + ")?"@
    }
}

/// The first `n` properties of an object that requires the one at
/// `last`, each adorned.
pub open spec fn required_body(
    props: Members,
    names: Seq<JsonValue>,
    fragments: Seq<Seq<char>>,
    last: int,
    ws: Seq<char>,
    n: int,
) -> Seq<char>
    decreases n,
{
    if n <= 0 {
        Seq::empty()
    } else {
        required_body(props, names, fragments, last, ws, n - 1) + adorned(
            fragments[n - 1],
            is_required(names, props[n - 1].0),
            n - 1,
            last,
            ws,
        )
    }
}

/// The first `n` fragments, each optional and followed by a comma and
/// whitespace.
pub open spec fn optional_before(fragments: Seq<Seq<char>>, ws: Seq<char>, n: int) -> Seq<char>
    decreases n,
{
    if n <= 0 {
        Seq::empty()
    } else {
        optional_before(fragments, ws, n - 1) + "("@ + fragments[n - 1] + ","@ + ws + ")?"@
    }
}

/// The fragments behind `i` and before `n`, each optional and led by a
/// comma and whitespace.
pub open spec fn optional_after(fragments: Seq<Seq<char>>, ws: Seq<char>, i: int, n: int) -> Seq<
    char,
>
    decreases n,
{
    if n <= i + 1 || n <= 0 {
        Seq::empty()
    } else {
        optional_after(fragments, ws, i, n - 1) + "(,"@ + ws + fragments[n - 1] + ")?"@
    }
}

/// The members of an object that holds the property at `i` for certain:
/// the properties before it optional, the one at `i` itself, those behind
/// it optional, all in declaration order.
pub open spec fn candidate(fragments: Seq<Seq<char>>, ws: Seq<char>, i: int) -> Seq<char> {
    optional_before(fragments, ws, i) + fragments[i] + optional_after(
        fragments,
        ws,
        i,
        fragments.len() as int,
    )
}

/// One candidate for each property.
pub open spec fn candidates(fragments: Seq<Seq<char>>, ws: Seq<char>) -> Seq<Seq<char>> {
    Seq::new(fragments.len(), |i: int| candidate(fragments, ws, i))
}

/// What stands between the braces of an object with known properties.
/// Where a property is required, every property is adorned by its place
/// before or behind the last required one. Where none is, there is one
/// candidate for each property, and the whole may be left out, which
/// gives the empty object.
pub open spec fn properties_body(
    props: Members,
    names: Seq<JsonValue>,
    fragments: Seq<Seq<char>>,
    ws: Seq<char>,
) -> Seq<char> {
    match last_required(props, names, props.len() as int) {
        Some(last) => required_body(props, names, fragments, last, ws, props.len() as int),
        None => "("@ + join(candidates(fragments, ws), "|"@) + ")?"@,
    }
}

/// The pattern of a schema with `properties`: an object that holds the
/// declared properties in declaration order, the required ones always.
/// Members in any other order are not accepted.
pub open spec fn properties_pattern(obj: Members, ws: Seq<char>) -> Result<Seq<char>, SchemaError>
    decreases obj, 1nat,
{
    match position(obj, "properties"@) {
        None => Err(SchemaError::InvalidSchema),
        Some(i) => match compile_member_properties(obj, i, ws) {
            Err(e) => Err(e),
            Ok(fragments) => Ok(
                "\\{"@ + ws + properties_body(
                    obj[i].1->Object_0,
                    required_names(obj),
                    fragments,
                    ws,
                ) + ws + "\\}"@,
            ),
        },
    }
}

/// The patterns of the schemas listed under `key`.
pub open spec fn listed_patterns(obj: Members, key: Seq<char>, ws: Seq<char>) -> Result<
    Seq<Seq<char>>,
    SchemaError,
>
    decreases obj, 1nat,
{
    match position(obj, key) {
        None => Err(SchemaError::InvalidSchema),
        Some(i) => compile_member_items(obj, i, ws),
    }
}

/// The pattern of `allOf`: the patterns of its schemas one after another,
/// in one group.
pub open spec fn all_of_pattern(obj: Members, ws: Seq<char>) -> Result<Seq<char>, SchemaError>
    decreases obj, 2nat,
{
    match listed_patterns(obj, "allOf"@, ws) {
        Err(e) => Err(e),
        Ok(parts) => Ok("("@ + join(parts, ""@) + ")"@),
    }
}

/// The pattern of `anyOf`: the patterns of its schemas as alternatives,
/// in one group.
pub open spec fn any_of_pattern(obj: Members, ws: Seq<char>) -> Result<Seq<char>, SchemaError>
    decreases obj, 2nat,
{
    match listed_patterns(obj, "anyOf"@, ws) {
        Err(e) => Err(e),
        Ok(parts) => Ok("("@ + join(parts, "|"@) + ")"@),
    }
}

/// Each pattern in a group of its own that captures nothing.
pub open spec fn grouped(parts: Seq<Seq<char>>) -> Seq<Seq<char>> {
    Seq::new(parts.len(), |i: int| "(?:"@ + parts[i] + ")"@)
}

/// The pattern of `oneOf`: the patterns of its schemas as alternatives,
/// each in a group of its own, all in one group.
pub open spec fn one_of_pattern(obj: Members, ws: Seq<char>) -> Result<Seq<char>, SchemaError>
    decreases obj, 2nat,
{
    match listed_patterns(obj, "oneOf"@, ws) {
        Err(e) => Err(e),
        Ok(parts) => Ok("("@ + join(grouped(parts), "|"@) + ")"@),
    }
}

/// The pattern of `prefixItems`: an array that holds one item for each
/// schema, in order.
pub open spec fn prefix_items_pattern(obj: Members, ws: Seq<char>) -> Result<
    Seq<char>,
    SchemaError,
>
    decreases obj, 2nat,
{
    match listed_patterns(obj, "prefixItems"@, ws) {
        Err(e) => Err(e),
        Ok(parts) => Ok("\\["@ + ws + join(parts, ","@ + ws) + ws + "\\]"@),
    }
}

/// The JSON text of a literal that is no array and no object.
pub open spec fn literal_text(value: JsonValue) -> Option<Seq<char>> {
    match value {
        JsonValue::Null => Some("null"@),
        JsonValue::Bool(b) => Some(
            if b {
                "true"@
            } else {
                "false"@
            },
        ),
        JsonValue::Number(NumberValue::Unsigned(n)) => Some(decimal(n as nat)),
        JsonValue::Number(NumberValue::Other(text)) => Some(text),
        JsonValue::String(s) => Some(json_string_text(s)),
        _ => None,
    }
}

/// The pattern that matches a literal's JSON text and nothing else.
pub open spec fn escaped_literal(value: JsonValue) -> Result<Seq<char>, SchemaError> {
    match literal_text(value) {
        Some(text) => Ok(escaped(text)),
        None => Err(SchemaError::UnsupportedLiteral),
    }
}

/// The patterns of the literals from index `k` on, or
/// `UnsupportedLiteral` where one of them is an array or an object.
pub open spec fn choices_from(items: Seq<JsonValue>, k: int) -> Result<Seq<Seq<char>>, SchemaError>
    decreases items.len() - k,
{
    if k < 0 || k >= items.len() {
        Ok(Seq::empty())
    } else {
        match escaped_literal(items[k]) {
            Err(e) => Err(e),
            Ok(first) => match choices_from(items, k + 1) {
                Err(e) => Err(e),
                Ok(rest) => Ok(seq![first] + rest),
            },
        }
    }
}

/// The pattern of `enum`: its literals as alternatives, in one group.
pub open spec fn enum_pattern(obj: Members) -> Result<Seq<char>, SchemaError> {
    match lookup(obj, "enum"@) {
        Some(JsonValue::Array(items)) => match choices_from(items, 0) {
            Err(e) => Err(e),
            Ok(choices) => Ok("("@ + join(choices, "|"@) + ")"@),
        },
        _ => Err(SchemaError::InvalidSchema),
    }
}

/// The pattern of `const`: its literal, in one group.
pub open spec fn const_pattern(obj: Members) -> Result<Seq<char>, SchemaError> {
    match lookup(obj, "const"@) {
        Some(value) => match escaped_literal(value) {
            Err(e) => Err(e),
            Ok(literal) => Ok("("@ + literal + ")"@),
        },
        None => Err(SchemaError::InvalidSchema),
    }
}

/// The pattern of a schema with `type`, by the name of the type.
pub open spec fn type_pattern(obj: Members, ws: Seq<char>) -> Result<Seq<char>, SchemaError>
    decreases obj, 2nat,
{
    match lookup_str(obj, "type"@) {
        None => Err(SchemaError::UnsupportedType),
        Some(name) => if name == "string"@ {
            string_type_pattern(obj)
        } else if name == "number"@ {
            number_type_pattern(obj)
        } else if name == "integer"@ {
            integer_type_pattern(obj)
        } else if name == "array"@ {
            array_type_pattern(obj, ws)
        } else if name == "object"@ {
            object_type_pattern(obj, ws)
        } else if name == "boolean"@ {
            Ok(BOOLEAN@)
        } else if name == "null"@ {
            Ok(NULL@)
        } else {
            Err(SchemaError::UnsupportedType)
        },
    }
}

/// The pattern of the empty schema: any value of the seven types, each
/// in a group that captures nothing.
pub open spec fn unconstrained_pattern(ws: Seq<char>) -> Seq<char> {
    "(?:"@ + BOOLEAN@ + ")|(?:"@ + NULL@ + ")|(?:"@ + NUMBER@ + ")|(?:"@ + INTEGER@ + ")|(?:"@
        + STRING@ + ")|(?:"@ + open_array(DEFAULT_DEPTH as nat, ws) + ")|(?:"@ + open_object(
        DEFAULT_DEPTH as nat,
        ws,
    ) + ")"@
}

/// What `build_regex_from_schema` hands back for a text.
pub open spec fn compile_text(text: Seq<char>, ws: Seq<char>) -> Result<Seq<char>, SchemaError> {
    match decoded(text) {
        None => Err(SchemaError::MalformedValue),
        Some(schema) => compile(schema, ws),
    }
}

/// Decodes a JSON text and compiles it as a schema.
pub fn build_regex_from_schema(json: &str, whitespace_pattern: Option<&str>) -> (regex: Result<
    String,
    SchemaError,
>)
    ensures
        text_result(regex) == compile_text(json@, whitespace_of(whitespace_pattern)),
{
    match parse_value(json) {
        Ok(value) => {
            let schema = json_of_value(&value);
            to_regex(&schema, whitespace_pattern)
        },
        Err(_) => Err(SchemaError::MalformedValue),
    }
}

/// Compiles a schema into the pattern of the JSON texts that conform to
/// it.
pub fn to_regex(json: &Json, whitespace_pattern: Option<&str>) -> (regex: Result<
    String,
    SchemaError,
>)
    ensures
        text_result(regex) == compile(json@, whitespace_of(whitespace_pattern)),
    decreases json, 0nat,
{
    let ws = match whitespace_pattern {
        Some(ws) => ws,
        None => WHITESPACE,
    };
    match json {
        Json::Object(obj) => {
            proof {
                lemma_object_view(*json);
            }
            let keyword = match find_keyword(obj) {
                Some(keyword) => keyword,
                None => return Err(SchemaError::UnsupportedSchema),
            };
            match keyword {
                SchemaKeyword::Properties => handle_properties(obj, ws),
                SchemaKeyword::AllOf => handle_all_of(obj, ws),
                SchemaKeyword::AnyOf => handle_any_of(obj, ws),
                SchemaKeyword::OneOf => handle_one_of(obj, ws),
                SchemaKeyword::PrefixItems => handle_prefix_items(obj, ws),
                SchemaKeyword::Enum => handle_enum(obj, ws),
                SchemaKeyword::Const => handle_const(obj, ws),
                SchemaKeyword::Ref => Err(SchemaError::UnsupportedKeyword),
                SchemaKeyword::Type => handle_type(obj, ws),
                SchemaKeyword::EmptyObject => handle_empty_object(ws),
            }
        },
        _ => Err(SchemaError::InvalidSchema),
    }
}

/// Finds the keyword that decides how a schema object is compiled.
pub fn find_keyword(obj: &JsonMap) -> (keyword: Option<SchemaKeyword>)
    ensures
        keyword == select_keyword(obj@),
{
    if obj.is_empty() {
        Some(SchemaKeyword::EmptyObject)
    } else if obj.contains_key("properties") {
        Some(SchemaKeyword::Properties)
    } else if obj.contains_key("allOf") {
        Some(SchemaKeyword::AllOf)
    } else if obj.contains_key("anyOf") {
        Some(SchemaKeyword::AnyOf)
    } else if obj.contains_key("oneOf") {
        Some(SchemaKeyword::OneOf)
    } else if obj.contains_key("prefixItems") {
        Some(SchemaKeyword::PrefixItems)
    } else if obj.contains_key("enum") {
        Some(SchemaKeyword::Enum)
    } else if obj.contains_key("const") {
        Some(SchemaKeyword::Const)
    } else if obj.contains_key("$ref") {
        Some(SchemaKeyword::Ref)
    } else if obj.contains_key("type") {
        Some(SchemaKeyword::Type)
    } else {
        None
    }
}

fn property_fragments(props: &JsonMap, ws: &str) -> (fragments: Result<Vec<String>, SchemaError>)
    ensures
        match fragments {
            Ok(parts) => property_fragments_from(props@, 0, ws@) == Ok::<
                Seq<Seq<char>>,
                SchemaError,
            >(views(parts@)) && parts@.len() == props@.len(),
            Err(e) => property_fragments_from(props@, 0, ws@) == Err::<
                Seq<Seq<char>>,
                SchemaError,
            >(e),
        },
    decreases props, 0nat,
{
    let mut parts: Vec<String> = Vec::new();
    let n = props.entries.len();
    let mut i: usize = 0;
    while i < n
        invariant
            n == props.entries@.len(),
            n == props@.len(),
            i <= n,
            parts@.len() == i,
            match property_fragments_from(props@, i as int, ws@) {
                Ok(rest) => property_fragments_from(props@, 0, ws@) == Ok::<
                    Seq<Seq<char>>,
                    SchemaError,
                >(views(parts@) + rest),
                Err(e) => property_fragments_from(props@, 0, ws@) == Err::<
                    Seq<Seq<char>>,
                    SchemaError,
                >(e),
            },
        decreases n - i,
    {
        let ghost before = views(parts@);
        match to_regex(&props.entries[i].1, Some(ws)) {
            Ok(value) => {
                let mut part = String::from_str("\"");
                part.append(escape(props.entries[i].0.as_str()).as_str());
                part.append("\"");
                part.append(ws);
                part.append(":");
                part.append(ws);
                part.append(value.as_str());
                parts.push(part);
                proof {
                    assert(part@ == property_fragment(props@[i as int].0, value@, ws@));
                    assert(views(parts@) =~= before.push(part@));
                    match property_fragments_from(props@, i as int + 1, ws@) {
                        Ok(rest) => {
                            assert(before + (seq![part@] + rest) =~= views(parts@) + rest);
                        },
                        Err(_) => {},
                    }
                }
            },
            Err(e) => {
                return Err(e);
            },
        }
        i += 1;
    }
    proof {
        assert(views(parts@) + Seq::<Seq<char>>::empty() =~= views(parts@));
    }
    Ok(parts)
}

fn name_is_required(names: &Vec<Json>, key: &str) -> (required: bool)
    ensures
        required == is_required(values_view(names@), key@),
{
    let n = names.len();
    let mut i: usize = 0;
    while i < n
        invariant
            n == names@.len(),
            i <= n,
            forall|j: int| 0 <= j < i ==> values_view(names@)[j] != JsonValue::String(key@),
        decreases n - i,
    {
        if let Json::String(name) = &names[i] {
            if str_eq(name.as_str(), key) {
                assert(values_view(names@)[i as int] == JsonValue::String(key@));
                return true;
            }
        }
        i += 1;
    }
    false
}

fn adorn(fragment: &str, required: bool, i: usize, last: usize, ws: &str) -> (piece: String)
    ensures
        piece@ == adorned(fragment@, required, i as int, last as int, ws@),
{
    let with_comma = if i < last {
        let mut text = String::from_str(fragment);
        text.append(",");
        text.append(ws);
        text
    } else if i > last {
        let mut text = String::from_str(ws);
        text.append(",");
        text.append(fragment);
        text
    } else {
        String::from_str(fragment)
    };
    if required {
        with_comma
    } else {
        let mut text = String::from_str("(");
        text.append(with_comma.as_str());
        text.append(")?");
        text
    }
}

fn candidate_string(fragments: &Vec<String>, ws: &str, i: usize) -> (pattern: String)
    requires
        i < fragments@.len(),
    ensures
        pattern@ == candidate(views(fragments@), ws@, i as int),
{
    let ghost all = views(fragments@);
    let n = fragments.len();
    let mut pattern = String::new();
    let mut j: usize = 0;
    while j < i
        invariant
            i < n,
            n == fragments@.len(),
            j <= i,
            all == views(fragments@),
            pattern@ == optional_before(all, ws@, j as int),
        decreases i - j,
    {
        pattern.append("(");
        pattern.append(fragments[j].as_str());
        pattern.append(",");
        pattern.append(ws);
        pattern.append(")?");
        j += 1;
    }
    pattern.append(fragments[i].as_str());
    let mut tail = String::new();
    let mut k: usize = i + 1;
    while k < n
        invariant
            i < n,
            n == fragments@.len(),
            i + 1 <= k <= n,
            all == views(fragments@),
            tail@ == optional_after(all, ws@, i as int, k as int),
        decreases n - k,
    {
        tail.append("(,");
        tail.append(ws);
        tail.append(fragments[k].as_str());
        tail.append(")?");
        k += 1;
    }
    pattern.append(tail.as_str());
    pattern
}

fn handle_properties(obj: &JsonMap, whitespace_pattern: &str) -> (regex: Result<
    String,
    SchemaError,
>)
    ensures
        text_result(regex) == properties_pattern(obj@, whitespace_pattern@),
    decreases obj, 1nat,
{
    let ws = whitespace_pattern;
    let props = match obj.position("properties") {
        Some(i) => {
            proof {
                lemma_position_within(obj@, "properties"@, obj@.len() as int);
            }
            match &obj.entries[i].1 {
                Json::Object(props) => {
                    proof {
                        lemma_object_view(obj.entries[i as int].1);
                    }
                    props
                },
                _ => {
                    return Err(SchemaError::InvalidSchema);
                },
            }
        },
        None => {
            return Err(SchemaError::InvalidSchema);
        },
    };
    let none: Vec<Json> = Vec::new();
    let names: &Vec<Json> = match obj.get("required") {
        Some(Json::Array(names)) => {
            proof {
                lemma_array_view(Json::Array(*names));
            }
            names
        },
        _ => &none,
    };
    let ghost required = required_names(obj@);
    assert(values_view(names@) =~= required);
    let fragments = property_fragments(props, ws)?;
    let ghost all = views(fragments@);
    let n = props.entries.len();
    let mut flags: Vec<bool> = Vec::new();
    let mut last: Option<usize> = None;
    let mut i: usize = 0;
    while i < n
        invariant
            n == props.entries@.len(),
            n == props@.len(),
            i <= n,
            flags@.len() == i,
            values_view(names@) == required,
            forall|j: int| 0 <= j < i ==> flags@[j] == is_required(required, props@[j].0),
            match last {
                Some(l) => l < i && last_required(props@, required, i as int) == Some(l as int),
                None => last_required(props@, required, i as int) is None,
            },
        decreases n - i,
    {
        let flag = name_is_required(names, props.entries[i].0.as_str());
        flags.push(flag);
        if flag {
            last = Some(i);
        }
        i += 1;
    }
    let mut body = String::new();
    match last {
        Some(last) => {
            let mut i: usize = 0;
            while i < n
                invariant
                    n == props@.len(),
                    n == fragments@.len(),
                    n == flags@.len(),
                    i <= n,
                    all == views(fragments@),
                    forall|j: int| 0 <= j < n ==> flags@[j] == is_required(required, props@[j].0),
                    body@ == required_body(props@, required, all, last as int, ws@, i as int),
                decreases n - i,
            {
                let piece = adorn(fragments[i].as_str(), flags[i], i, last, ws);
                body.append(piece.as_str());
                i += 1;
            }
        },
        None => {
            let mut options: Vec<String> = Vec::new();
            let mut i: usize = 0;
            while i < n
                invariant
                    n == fragments@.len(),
                    i <= n,
                    all == views(fragments@),
                    views(options@) == candidates(all, ws@).take(i as int),
                decreases n - i,
            {
                let option = candidate_string(&fragments, ws, i);
                let ghost before = views(options@);
                options.push(option);
                assert(views(options@) =~= before.push(option@));
                assert(views(options@) =~= candidates(all, ws@).take(i as int + 1));
                i += 1;
            }
            assert(candidates(all, ws@).take(n as int) =~= candidates(all, ws@));
            body.append("(");
            body.append(join_strings(&options, "|").as_str());
            body.append(")?");
            assert(body@ =~= "("@ + join(candidates(all, ws@), "|"@) + ")?"@);
        },
    }
    let mut regex = String::from_str("\\{");
    regex.append(ws);
    regex.append(body.as_str());
    regex.append(ws);
    regex.append("\\}");
    Ok(regex)
}

fn compile_items(items: &Vec<Json>, ws: &str) -> (patterns: Result<Vec<String>, SchemaError>)
    ensures
        match patterns {
            Ok(parts) => compile_from(values_view(items@), 0, ws@) == Ok::<
                Seq<Seq<char>>,
                SchemaError,
            >(views(parts@)),
            Err(e) => compile_from(values_view(items@), 0, ws@) == Err::<
                Seq<Seq<char>>,
                SchemaError,
            >(e),
        },
    decreases items, 0nat,
{
    let ghost all = values_view(items@);
    let mut parts: Vec<String> = Vec::new();
    let n = items.len();
    let mut i: usize = 0;
    while i < n
        invariant
            n == items@.len(),
            i <= n,
            all == values_view(items@),
            match compile_from(all, i as int, ws@) {
                Ok(rest) => compile_from(all, 0, ws@) == Ok::<Seq<Seq<char>>, SchemaError>(
                    views(parts@) + rest,
                ),
                Err(e) => compile_from(all, 0, ws@) == Err::<Seq<Seq<char>>, SchemaError>(e),
            },
        decreases n - i,
    {
        let ghost before = views(parts@);
        match to_regex(&items[i], Some(ws)) {
            Ok(part) => {
                parts.push(part);
                proof {
                    assert(views(parts@) =~= before.push(part@));
                    match compile_from(all, i as int + 1, ws@) {
                        Ok(rest) => {
                            assert(before + (seq![part@] + rest) =~= views(parts@) + rest);
                        },
                        Err(_) => {},
                    }
                }
            },
            Err(e) => {
                return Err(e);
            },
        }
        i += 1;
    }
    proof {
        assert(views(parts@) + Seq::<Seq<char>>::empty() =~= views(parts@));
    }
    Ok(parts)
}

fn listed(obj: &JsonMap, key: &str, ws: &str) -> (patterns: Result<Vec<String>, SchemaError>)
    ensures
        match patterns {
            Ok(parts) => listed_patterns(obj@, key@, ws@) == Ok::<Seq<Seq<char>>, SchemaError>(
                views(parts@),
            ),
            Err(e) => listed_patterns(obj@, key@, ws@) == Err::<Seq<Seq<char>>, SchemaError>(e),
        },
    decreases obj, 1nat,
{
    match obj.position(key) {
        Some(i) => {
            proof {
                lemma_position_within(obj@, key@, obj@.len() as int);
            }
            match &obj.entries[i].1 {
                Json::Array(items) => {
                    proof {
                        lemma_array_view(obj.entries[i as int].1);
                    }
                    compile_items(items, ws)
                },
                _ => Err(SchemaError::InvalidSchema),
            }
        },
        None => Err(SchemaError::InvalidSchema),
    }
}

fn handle_all_of(obj: &JsonMap, whitespace_pattern: &str) -> (regex: Result<String, SchemaError>)
    ensures
        text_result(regex) == all_of_pattern(obj@, whitespace_pattern@),
    decreases obj, 2nat,
{
    let parts = listed(obj, "allOf", whitespace_pattern)?;
    let mut out = String::from_str("(");
    out.append(join_strings(&parts, "").as_str());
    out.append(")");
    Ok(out)
}

fn handle_any_of(obj: &JsonMap, whitespace_pattern: &str) -> (regex: Result<String, SchemaError>)
    ensures
        text_result(regex) == any_of_pattern(obj@, whitespace_pattern@),
    decreases obj, 2nat,
{
    let parts = listed(obj, "anyOf", whitespace_pattern)?;
    let mut out = String::from_str("(");
    out.append(join_strings(&parts, "|").as_str());
    out.append(")");
    Ok(out)
}

fn handle_one_of(obj: &JsonMap, whitespace_pattern: &str) -> (regex: Result<String, SchemaError>)
    ensures
        text_result(regex) == one_of_pattern(obj@, whitespace_pattern@),
    decreases obj, 2nat,
{
    let parts = listed(obj, "oneOf", whitespace_pattern)?;
    let mut groups: Vec<String> = Vec::new();
    let n = parts.len();
    let mut i: usize = 0;
    while i < n
        invariant
            n == parts@.len(),
            i <= n,
            views(groups@) == grouped(views(parts@)).take(i as int),
        decreases n - i,
    {
        let mut group = String::from_str("(?:");
        group.append(parts[i].as_str());
        group.append(")");
        let ghost before = views(groups@);
        groups.push(group);
        assert(views(groups@) =~= before.push(group@));
        assert(views(groups@) =~= grouped(views(parts@)).take(i as int + 1));
        i += 1;
    }
    assert(grouped(views(parts@)).take(n as int) =~= grouped(views(parts@)));
    let mut out = String::from_str("(");
    out.append(join_strings(&groups, "|").as_str());
    out.append(")");
    Ok(out)
}

fn handle_prefix_items(obj: &JsonMap, whitespace_pattern: &str) -> (regex: Result<
    String,
    SchemaError,
>)
    ensures
        text_result(regex) == prefix_items_pattern(obj@, whitespace_pattern@),
    decreases obj, 2nat,
{
    let parts = listed(obj, "prefixItems", whitespace_pattern)?;
    let mut comma = String::from_str(",");
    comma.append(whitespace_pattern);
    let mut out = String::from_str("\\[");
    out.append(whitespace_pattern);
    out.append(join_strings(&parts, comma.as_str()).as_str());
    out.append(whitespace_pattern);
    out.append("\\]");
    Ok(out)
}

/// Writes the pattern that matches a literal's JSON text and nothing
/// else.
pub fn escape_literal(value: &Json) -> (pattern: Result<String, SchemaError>)
    ensures
        text_result(pattern) == escaped_literal(value@),
{
    match value {
        Json::Null => Ok(escape("null")),
        Json::Bool(b) => if *b {
            Ok(escape("true"))
        } else {
            Ok(escape("false"))
        },
        Json::Number(JsonNumber::Unsigned(n)) => Ok(escape(decimal_string(*n).as_str())),
        Json::Number(JsonNumber::Other(text)) => Ok(escape(text.as_str())),
        Json::String(s) => match json_string(s.as_str()) {
            Ok(text) => Ok(escape(text.as_str())),
            Err(_) => Err(SchemaError::UnsupportedLiteral),
        },
        _ => Err(SchemaError::UnsupportedLiteral),
    }
}

fn handle_enum(obj: &JsonMap, _whitespace_pattern: &str) -> (regex: Result<String, SchemaError>)
    ensures
        text_result(regex) == enum_pattern(obj@),
{
    match obj.get("enum") {
        Some(Json::Array(items)) => {
            let ghost all = values_view(items@);
            proof {
                lemma_array_view(Json::Array(*items));
            }
            let mut choices: Vec<String> = Vec::new();
            let n = items.len();
            let mut i: usize = 0;
            while i < n
                invariant
                    n == items@.len(),
                    i <= n,
                    all == values_view(items@),
                    lookup(obj@, "enum"@) == Some(JsonValue::Array(all)),
                    match choices_from(all, i as int) {
                        Ok(rest) => choices_from(all, 0) == Ok::<Seq<Seq<char>>, SchemaError>(
                            views(choices@) + rest,
                        ),
                        Err(e) => choices_from(all, 0) == Err::<Seq<Seq<char>>, SchemaError>(e),
                    },
                decreases n - i,
            {
                let ghost before = views(choices@);
                let choice = escape_literal(&items[i])?;
                choices.push(choice);
                proof {
                    assert(views(choices@) =~= before.push(choice@));
                    match choices_from(all, i as int + 1) {
                        Ok(rest) => {
                            assert(before + (seq![choice@] + rest) =~= views(choices@) + rest);
                        },
                        Err(_) => {},
                    }
                }
                i += 1;
            }
            proof {
                assert(views(choices@) + Seq::<Seq<char>>::empty() =~= views(choices@));
            }
            let mut out = String::from_str("(");
            out.append(join_strings(&choices, "|").as_str());
            out.append(")");
            Ok(out)
        },
        _ => Err(SchemaError::InvalidSchema),
    }
}

fn handle_const(obj: &JsonMap, _whitespace_pattern: &str) -> (regex: Result<String, SchemaError>)
    ensures
        text_result(regex) == const_pattern(obj@),
{
    match obj.get("const") {
        Some(value) => {
            let literal = escape_literal(value)?;
            let mut out = String::from_str("(");
            out.append(literal.as_str());
            out.append(")");
            Ok(out)
        },
        None => Err(SchemaError::InvalidSchema),
    }
}

fn handle_type(obj: &JsonMap, whitespace_pattern: &str) -> (regex: Result<String, SchemaError>)
    ensures
        text_result(regex) == type_pattern(obj@, whitespace_pattern@),
    decreases obj, 2nat,
{
    let name = match obj.get_str("type") {
        Some(name) => name,
        None => return Err(SchemaError::UnsupportedType),
    };
    if str_eq(name, "string") {
        handle_string_type(obj)
    } else if str_eq(name, "number") {
        handle_number_type(obj)
    } else if str_eq(name, "integer") {
        handle_integer_type(obj)
    } else if str_eq(name, "array") {
        handle_array_type(obj, whitespace_pattern)
    } else if str_eq(name, "object") {
        handle_object_type(obj, whitespace_pattern)
    } else if str_eq(name, "boolean") {
        handle_boolean_type()
    } else if str_eq(name, "null") {
        handle_null_type()
    } else {
        Err(SchemaError::UnsupportedType)
    }
}

/// Compiles the empty schema, which accepts any JSON value.
pub fn handle_empty_object(whitespace_pattern: &str) -> (regex: Result<String, SchemaError>)
    ensures
        text_result(regex) == Ok::<Seq<char>, SchemaError>(
            unconstrained_pattern(whitespace_pattern@),
        ),
{
    let mut out = String::from_str("(?:");
    out.append(BOOLEAN);
    out.append(")|(?:");
    out.append(NULL);
    out.append(")|(?:");
    out.append(NUMBER);
    out.append(")|(?:");
    out.append(INTEGER);
    out.append(")|(?:");
    out.append(STRING);
    out.append(")|(?:");
    out.append(open_array_string(DEFAULT_DEPTH, whitespace_pattern).as_str());
    out.append(")|(?:");
    out.append(open_object_string(DEFAULT_DEPTH, whitespace_pattern).as_str());
    out.append(")");
    Ok(out)
}

} // verus!

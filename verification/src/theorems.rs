//! What holds of every compilation.

use vstd::prelude::*;
use crate::error::SchemaError;
use crate::guidance::{
    SchemaKeyword, choices_from, compile, compile_from, compile_object, compile_text,
    enum_pattern, escaped_literal, literal_text, properties_pattern, property_fragments_from,
    select_keyword, whitespace_of,
};
use crate::handle_types::{
    array_type_pattern, bounds_conflict, quantifier, string_type_pattern, validated,
};
use crate::types::STRING_INNER;
use crate::json::{Json, JsonValue, Members, has_key, lookup, lookup_u64};
use crate::trusted::escaped;
use crate::text::{join, text_result};

verus! {

/// Compiling is a function of the schema and the whitespace pattern: two
/// compilations of schemas that stand for the same value, under the same
/// whitespace pattern, hand back the same pattern, character by
/// character, or the same error.
pub proof fn lemma_compile_deterministic(
    first_schema: Json,
    second_schema: Json,
    first_whitespace: Option<&str>,
    second_whitespace: Option<&str>,
    first: Result<String, SchemaError>,
    second: Result<String, SchemaError>,
)
    requires
        first_schema@ == second_schema@,
        whitespace_of(first_whitespace) == whitespace_of(second_whitespace),
        text_result(first) == compile(first_schema@, whitespace_of(first_whitespace)),
        text_result(second) == compile(second_schema@, whitespace_of(second_whitespace)),
    ensures
        text_result(first) == text_result(second),
        first is Ok ==> second is Ok && first->Ok_0@ == second->Ok_0@,
        first is Err ==> second is Err && first->Err_0 == second->Err_0,
{
}

/// Two compilations of the same schema text under the same whitespace
/// pattern hand back the same pattern or the same error.
pub proof fn lemma_compile_text_deterministic(
    text: Seq<char>,
    ws: Seq<char>,
    first: Result<String, SchemaError>,
    second: Result<String, SchemaError>,
)
    requires
        text_result(first) == compile_text(text, ws),
        text_result(second) == compile_text(text, ws),
    ensures
        text_result(first) == text_result(second),
{
}

/// A schema whose keyword is `$ref` is refused with `UnsupportedKeyword`,
/// whatever else it holds and whatever the whitespace pattern.
pub proof fn lemma_ref_is_unsupported(schema: JsonValue, ws: Seq<char>)
    requires
        schema is Object,
        select_keyword(schema->Object_0) == Some(SchemaKeyword::Ref),
    ensures
        compile(schema, ws) == Err::<Seq<char>, SchemaError>(SchemaError::UnsupportedKeyword),
{
}

/// `$ref` is the keyword of every object that holds it and none of the
/// keywords that go before it.
pub proof fn lemma_ref_is_selected(obj: Members)
    requires
        has_key(obj, "$ref"@),
        !has_key(obj, "properties"@),
        !has_key(obj, "allOf"@),
        !has_key(obj, "anyOf"@),
        !has_key(obj, "oneOf"@),
        !has_key(obj, "prefixItems"@),
        !has_key(obj, "enum"@),
        !has_key(obj, "const"@),
    ensures
        select_keyword(obj) == Some(SchemaKeyword::Ref),
{
}

/// `properties` goes before every other keyword: an object that holds it
/// is compiled by it alone.
pub proof fn lemma_properties_goes_first(obj: Members, ws: Seq<char>)
    requires
        has_key(obj, "properties"@),
    ensures
        compile_object(obj, ws) == properties_pattern(obj, ws),
{
}

/// What is no object is no schema.
pub proof fn lemma_only_objects_compile(schema: JsonValue, ws: Seq<char>)
    requires
        !(schema is Object),
    ensures
        compile(schema, ws) == Err::<Seq<char>, SchemaError>(SchemaError::InvalidSchema),
{
}

/// Literals that are no arrays and no objects give one branch each, in
/// order: the escaped JSON text of the literal.
pub proof fn lemma_choices_of_scalars(items: Seq<JsonValue>, k: int)
    requires
        0 <= k <= items.len(),
        forall|i: int| k <= i < items.len() ==> literal_text(#[trigger] items[i]) is Some,
    ensures
        choices_from(items, k) is Ok,
        choices_from(items, k)->Ok_0.len() == items.len() - k,
        forall|i: int|
            0 <= i < items.len() - k ==> #[trigger] choices_from(items, k)->Ok_0[i] == escaped(
                literal_text(items[k + i])->Some_0,
            ),
    decreases items.len() - k,
{
    if k < items.len() {
        lemma_choices_of_scalars(items, k + 1);
        let rest = choices_from(items, k + 1)->Ok_0;
        let first = escaped(literal_text(items[k])->Some_0);
        assert(escaped_literal(items[k]) == Ok::<Seq<char>, SchemaError>(first));
        let all = choices_from(items, k)->Ok_0;
        assert(all == seq![first] + rest);
        assert forall|i: int| 0 <= i < items.len() - k implies #[trigger] all[i] == escaped(
            literal_text(items[k + i])->Some_0,
        ) by {
            if i > 0 {
                assert(all[i] == rest[i - 1]);
            }
        }
    }
}

/// An `enum` of `n` literals that are no arrays and no objects compiles
/// to one group of exactly `n` alternatives, the escaped JSON texts of
/// the literals in order.
pub proof fn lemma_enum_alternatives(obj: Members, items: Seq<JsonValue>)
    requires
        lookup(obj, "enum"@) == Some(JsonValue::Array(items)),
        forall|i: int| 0 <= i < items.len() ==> literal_text(#[trigger] items[i]) is Some,
    ensures
        choices_from(items, 0) is Ok,
        choices_from(items, 0)->Ok_0.len() == items.len(),
        forall|i: int|
            0 <= i < items.len() ==> #[trigger] choices_from(items, 0)->Ok_0[i] == escaped(
                literal_text(items[i])->Some_0,
            ),
        enum_pattern(obj) == Ok::<Seq<char>, SchemaError>(
            "("@ + join(choices_from(items, 0)->Ok_0, "|"@) + ")"@,
        ),
{
    lemma_choices_of_scalars(items, 0);
}

/// An `enum` that holds an array or an object is refused with
/// `UnsupportedLiteral`.
pub proof fn lemma_enum_refuses_composites(items: Seq<JsonValue>, k: int, at: int)
    requires
        0 <= k <= at < items.len(),
        literal_text(items[at]) is None,
    ensures
        choices_from(items, k) == Err::<Seq<Seq<char>>, SchemaError>(
            SchemaError::UnsupportedLiteral,
        ),
    decreases at - k,
{
    if k < at {
        lemma_enum_refuses_composites(items, k + 1, at);
    }
}

/// Bounds that pass validation are in order: where both are given, the
/// maximum is not below the minimum, before the offset is taken and
/// after.
pub proof fn lemma_validated_bounds_in_order(min: Option<u64>, max: Option<u64>, offset: u64)
    ensures
        match validated(min, max, offset) {
            Ok((Some(lo), Some(hi))) => lo <= hi && min is Some && max is Some && min->Some_0
                <= max->Some_0,
            Ok(_) => min is None || max is None,
            Err(e) => e == SchemaError::InvalidBounds && bounds_conflict(min, max),
        },
{
}

/// A string schema with both lengths given is refused exactly where the
/// maximum is below the minimum, and else repeats the character class
/// between the two.
pub proof fn lemma_string_lengths(obj: Members, min: u64, max: u64)
    requires
        lookup_u64(obj, "minLength"@) == Some(min),
        lookup_u64(obj, "maxLength"@) == Some(max),
    ensures
        max < min ==> string_type_pattern(obj) == Err::<Seq<char>, SchemaError>(
            SchemaError::InvalidBounds,
        ),
        max >= min ==> string_type_pattern(obj) == Ok::<Seq<char>, SchemaError>(
            "\""@ + STRING_INNER@ + quantifier(Some(min), Some(max), "*"@) + "\""@,
        ),
{
}

/// An array schema whose maximum is zero, with no minimum above it,
/// accepts the empty array and nothing else, whatever it says of its
/// items.
pub proof fn lemma_array_of_nothing(obj: Members, ws: Seq<char>)
    requires
        lookup_u64(obj, "maxItems"@) == Some(0u64),
        lookup_u64(obj, "minItems"@) is None || lookup_u64(obj, "minItems"@) == Some(0u64),
    ensures
        array_type_pattern(obj, ws) == Ok::<Seq<char>, SchemaError>("\\["@ + ws + "\\]"@),
{
}

/// Only a text can be malformed: compiling a value never ends in
/// `MalformedValue`.
pub proof fn lemma_values_are_never_malformed(schema: JsonValue, ws: Seq<char>)
    ensures
        compile(schema, ws) != Err::<Seq<char>, SchemaError>(SchemaError::MalformedValue),
    decreases schema, 0nat,
{
    match schema {
        JsonValue::Object(obj) => {
            lemma_members_are_never_malformed(obj, ws);
        },
        _ => {},
    }
}

/// Compiling an object never ends in `MalformedValue`.
pub proof fn lemma_members_are_never_malformed(obj: Members, ws: Seq<char>)
    ensures
        compile_object(obj, ws) != Err::<Seq<char>, SchemaError>(SchemaError::MalformedValue),
    decreases obj, 1nat,
{
    assert forall|i: int| 0 <= i < obj.len() implies compile(#[trigger] obj[i].1, ws) != Err::<
        Seq<char>,
        SchemaError,
    >(SchemaError::MalformedValue) by {
        lemma_values_are_never_malformed(obj[i].1, ws);
    }
    assert forall|i: int| 0 <= i < obj.len() && (#[trigger] obj[i].1) is Array implies compile_from(
        obj[i].1->Array_0,
        0,
        ws,
    ) != Err::<Seq<Seq<char>>, SchemaError>(SchemaError::MalformedValue) by {
        lemma_items_are_never_malformed(obj[i].1->Array_0, 0, ws);
    }
    assert forall|i: int|
        0 <= i < obj.len() && (#[trigger] obj[i].1) is Object implies property_fragments_from(
        obj[i].1->Object_0,
        0,
        ws,
    ) != Err::<Seq<Seq<char>>, SchemaError>(SchemaError::MalformedValue) by {
        lemma_properties_are_never_malformed(obj[i].1->Object_0, 0, ws);
    }
    match lookup(obj, "enum"@) {
        Some(JsonValue::Array(items)) => {
            lemma_choices_are_never_malformed(items, 0);
        },
        _ => {},
    }
}

/// Compiling a list of schemas never ends in `MalformedValue`.
pub proof fn lemma_items_are_never_malformed(items: Seq<JsonValue>, k: int, ws: Seq<char>)
    ensures
        compile_from(items, k, ws) != Err::<Seq<Seq<char>>, SchemaError>(
            SchemaError::MalformedValue,
        ),
    decreases items, items.len() - k,
{
    if 0 <= k < items.len() {
        lemma_values_are_never_malformed(items[k], ws);
        lemma_items_are_never_malformed(items, k + 1, ws);
    }
}

/// Compiling the properties of an object never ends in `MalformedValue`.
pub proof fn lemma_properties_are_never_malformed(props: Members, k: int, ws: Seq<char>)
    ensures
        property_fragments_from(props, k, ws) != Err::<Seq<Seq<char>>, SchemaError>(
            SchemaError::MalformedValue,
        ),
    decreases props, props.len() - k,
{
    if 0 <= k < props.len() {
        lemma_values_are_never_malformed(props[k].1, ws);
        lemma_properties_are_never_malformed(props, k + 1, ws);
    }
}

/// The only error among literals is `UnsupportedLiteral`.
pub proof fn lemma_choices_are_never_malformed(items: Seq<JsonValue>, k: int)
    ensures
        choices_from(items, k) is Err ==> choices_from(items, k)->Err_0
            == SchemaError::UnsupportedLiteral,
    decreases items.len() - k,
{
    if 0 <= k < items.len() {
        lemma_choices_are_never_malformed(items, k + 1);
    }
}

} // verus!

//! A small calculus of regular expressions, and the texts that the
//! patterns of some keywords accept by it. That a regex engine reads a
//! pattern as the expression it is written from is not proved here.

use vstd::prelude::*;
use crate::error::SchemaError;
use crate::guidance::{
    all_of_pattern, any_of_pattern, choices_from, compile, compile_from, const_pattern,
    enum_pattern, grouped, literal_text, one_of_pattern, prefix_items_pattern, type_pattern,
};
use crate::handle_types::{array_type_pattern, object_type_pattern};
use crate::json::{JsonValue, Members, lemma_position_within, lookup, lookup_str, lookup_u64};
use crate::text::join;
use crate::theorems::lemma_choices_of_scalars;
use crate::trusted::{escaped, is_meta_character};
use crate::types::{BOOLEAN, NULL, WHITESPACE};

verus! {

/// A regular expression of the kinds that literals compile to, as a tree.
pub enum Expr {
    /// Accepts the empty text and nothing else.
    Nothing,
    /// Accepts the one character.
    Literal(char),
    /// Accepts a text of the first followed by a text of the second.
    Then(Box<Expr>, Box<Expr>),
    /// Accepts what either accepts.
    Or(Box<Expr>, Box<Expr>),
    /// Accepts what the inner expression accepts; written in parentheses.
    Group(Box<Expr>),
    /// As `Group`, written as a group that captures nothing.
    Inner(Box<Expr>),
    /// Accepts one character out of the given ones.
    Class(Seq<char>),
    /// Accepts the empty text and what the inner expression accepts.
    Optional(Box<Expr>),
}

/// Whether the expression accepts the whole of `text`.
pub open spec fn accepts(e: Expr, text: Seq<char>) -> bool
    decreases e,
{
    match e {
        Expr::Nothing => text.len() == 0,
        Expr::Literal(c) => text == seq![c],
        Expr::Then(a, b) => exists|k: int|
            0 <= k <= text.len() && accepts(*a, #[trigger] text.take(k)) && accepts(
                *b,
                text.skip(k),
            ),
        Expr::Or(a, b) => accepts(*a, text) || accepts(*b, text),
        Expr::Group(a) => accepts(*a, text),
        Expr::Inner(a) => accepts(*a, text),
        Expr::Class(chars) => text.len() == 1 && chars.contains(text[0]),
        Expr::Optional(a) => text.len() == 0 || accepts(*a, text),
    }
}

/// The pattern that writes the expression: a meta character behind a
/// backslash, alternatives around `|`, a group in parentheses, a class
/// in square brackets, `?` behind what may be left out.
pub open spec fn written(e: Expr) -> Seq<char>
    decreases e,
{
    match e {
        Expr::Nothing => Seq::empty(),
        Expr::Literal(c) => if is_meta_character(c) {
            seq!['\\', c]
        } else {
            seq![c]
        },
        Expr::Then(a, b) => written(*a) + written(*b),
        Expr::Or(a, b) => written(*a) + "|"@ + written(*b),
        Expr::Group(a) => "("@ + written(*a) + ")"@,
        Expr::Inner(a) => "(?:"@ + written(*a) + ")"@,
        Expr::Class(chars) => "["@ + chars + "]"@,
        Expr::Optional(a) => written(*a) + "?"@,
    }
}

/// The characters that mean something inside a class.
pub open spec fn is_class_character(c: char) -> bool {
    c == '[' || c == ']' || c == '\\' || c == '^' || c == '-' || c == '&' || c == '~'
}

/// Whether the expression is written as one unit, which a `?` behind it
/// takes whole.
pub open spec fn is_unit(e: Expr) -> bool {
    e is Literal || e is Group || e is Inner || e is Class
}

/// Whether the pattern of the expression reads back as the expression:
/// no alternative stands bare inside a sequence, where `|` would take in
/// the neighbours; a class holds at least one character and none that
/// means something there; and what may be left out is one unit.
pub open spec fn unambiguous(e: Expr) -> bool
    decreases e,
{
    match e {
        Expr::Nothing => true,
        Expr::Literal(_) => true,
        Expr::Then(a, b) => !(*a is Or) && !(*b is Or) && unambiguous(*a) && unambiguous(*b),
        Expr::Or(a, b) => unambiguous(*a) && unambiguous(*b),
        Expr::Group(a) => unambiguous(*a),
        Expr::Inner(a) => unambiguous(*a),
        Expr::Class(chars) => chars.len() >= 1 && forall|i: int|
            0 <= i < chars.len() ==> !is_class_character(#[trigger] chars[i]),
        Expr::Optional(a) => is_unit(*a) && unambiguous(*a),
    }
}

/// The expression that accepts `text` character by character.
pub open spec fn literal(text: Seq<char>) -> Expr
    decreases text.len(),
{
    if text.len() == 0 {
        Expr::Nothing
    } else {
        Expr::Then(Box::new(literal(text.drop_last())), Box::new(Expr::Literal(text.last())))
    }
}

/// The expression that accepts what any of `exprs` accepts (`exprs` is
/// not empty).
pub open spec fn any_of(exprs: Seq<Expr>) -> Expr
    decreases exprs.len(),
{
    if exprs.len() <= 1 {
        exprs[0]
    } else {
        Expr::Or(Box::new(any_of(exprs.drop_last())), Box::new(exprs.last()))
    }
}

/// The expressions of the literal texts.
pub open spec fn literals(texts: Seq<Seq<char>>) -> Seq<Expr> {
    Seq::new(texts.len(), |i: int| literal(texts[i]))
}

/// The JSON texts of literals that are no arrays and no objects.
pub open spec fn literal_texts(items: Seq<JsonValue>) -> Seq<Seq<char>> {
    Seq::new(items.len(), |i: int| literal_text(items[i])->Some_0)
}

/// The expression of a literal is written as the escaped text, and never
/// as a bare alternative.
pub proof fn lemma_literal_written(text: Seq<char>)
    ensures
        written(literal(text)) == escaped(text),
        unambiguous(literal(text)),
        !(literal(text) is Or),
    decreases text.len(),
{
    reveal_with_fuel(written, 2);
    reveal_with_fuel(unambiguous, 2);
    if text.len() > 0 {
        lemma_literal_written(text.drop_last());
        assert(written(literal(text)) =~= escaped(text));
    }
}

/// The expression of a literal accepts the literal and nothing else.
pub proof fn lemma_literal_accepts(text: Seq<char>, candidate: Seq<char>)
    ensures
        accepts(literal(text), candidate) <==> candidate == text,
    decreases text.len(),
{
    if text.len() == 0 {
        assert(candidate.len() == 0 <==> candidate =~= text);
    } else {
        let head = text.drop_last();
        let last = text.last();
        if accepts(literal(text), candidate) {
            let k = choose|k: int|
                0 <= k <= candidate.len() && accepts(literal(head), #[trigger] candidate.take(k))
                    && accepts(Expr::Literal(last), candidate.skip(k));
            lemma_literal_accepts(head, candidate.take(k));
            assert(candidate =~= candidate.take(k) + candidate.skip(k));
            assert(candidate =~= text);
        }
        if candidate == text {
            let k = text.len() - 1;
            lemma_literal_accepts(head, head);
            assert(text.take(k) =~= head);
            assert(text.skip(k) =~= seq![last]);
            assert(accepts(literal(head), text.take(k)));
            assert(accepts(Expr::Literal(last), text.skip(k)));
        }
    }
}

/// Alternatives are written with `|` between them, and accept what any
/// one of them accepts.
pub proof fn lemma_any_of(exprs: Seq<Expr>, candidate: Seq<char>)
    requires
        exprs.len() >= 1,
    ensures
        written(any_of(exprs)) == join(Seq::new(exprs.len(), |i: int| written(exprs[i])), "|"@),
        accepts(any_of(exprs), candidate) <==> exists|i: int|
            0 <= i < exprs.len() && accepts(#[trigger] exprs[i], candidate),
        (forall|i: int| 0 <= i < exprs.len() ==> unambiguous(#[trigger] exprs[i]))
            ==> unambiguous(any_of(exprs)),
    decreases exprs.len(),
{
    let texts = Seq::new(exprs.len(), |i: int| written(exprs[i]));
    if exprs.len() > 1 {
        let head = exprs.drop_last();
        lemma_any_of(head, candidate);
        assert(texts.drop_last() =~= Seq::new(head.len(), |i: int| written(head[i])));
        assert(texts.last() == written(exprs.last()));
        if accepts(any_of(exprs), candidate) {
            if accepts(exprs.last(), candidate) {
                assert(accepts(exprs[exprs.len() - 1], candidate));
            } else {
                let i = choose|i: int| 0 <= i < head.len() && accepts(#[trigger] head[i], candidate);
                assert(accepts(exprs[i], candidate));
            }
        }
        if exists|i: int| 0 <= i < exprs.len() && accepts(#[trigger] exprs[i], candidate) {
            let i = choose|i: int| 0 <= i < exprs.len() && accepts(#[trigger] exprs[i], candidate);
            if i < exprs.len() - 1 {
                assert(accepts(head[i], candidate));
            }
        }
        if forall|i: int| 0 <= i < exprs.len() ==> unambiguous(#[trigger] exprs[i]) {
            assert forall|i: int| 0 <= i < head.len() implies unambiguous(#[trigger] head[i]) by {
                assert(head[i] == exprs[i]);
            }
        }
    } else {
        assert(texts[0] == written(exprs[0]));
    }
}

/// An `enum` of literals that are no arrays and no objects, at least one
/// of them, compiles to the pattern of an expression that accepts a text
/// exactly where it is the JSON text of one of the literals.
pub proof fn lemma_enum_language(obj: Members, items: Seq<JsonValue>)
    requires
        lookup(obj, "enum"@) == Some(JsonValue::Array(items)),
        items.len() >= 1,
        forall|i: int| 0 <= i < items.len() ==> literal_text(#[trigger] items[i]) is Some,
    ensures
        enum_pattern(obj) == Ok::<Seq<char>, SchemaError>(written(enum_expr(items))),
        unambiguous(enum_expr(items)),
        forall|candidate: Seq<char>| #[trigger]
            accepts(enum_expr(items), candidate) <==> exists|i: int|
                0 <= i < items.len() && candidate == literal_text(#[trigger] items[i])->Some_0,
{
    let texts = literal_texts(items);
    let exprs = literals(texts);
    lemma_choices_of_scalars(items, 0);
    let choices = choices_from(items, 0)->Ok_0;
    let parts = Seq::new(exprs.len(), |i: int| written(exprs[i]));
    assert forall|i: int| 0 <= i < items.len() implies #[trigger] parts[i] == choices[i]
        && unambiguous(exprs[i]) by {
        lemma_literal_written(texts[i]);
    }
    assert(parts =~= choices);
    assert forall|i: int| 0 <= i < exprs.len() implies unambiguous(#[trigger] exprs[i]) by {
        lemma_literal_written(texts[i]);
    }
    lemma_any_of(exprs, Seq::empty());
    assert forall|candidate: Seq<char>| #[trigger]
        accepts(enum_expr(items), candidate) <==> exists|i: int|
            0 <= i < items.len() && candidate == literal_text(#[trigger] items[i])->Some_0 by {
        lemma_any_of(exprs, candidate);
        if accepts(enum_expr(items), candidate) {
            let i = choose|i: int| 0 <= i < exprs.len() && accepts(#[trigger] exprs[i], candidate);
            lemma_literal_accepts(texts[i], candidate);
            assert(candidate == literal_text(items[i])->Some_0);
        }
        if exists|i: int|
            0 <= i < items.len() && candidate == literal_text(#[trigger] items[i])->Some_0 {
            let i = choose|i: int|
                0 <= i < items.len() && candidate == literal_text(#[trigger] items[i])->Some_0;
            lemma_literal_accepts(texts[i], candidate);
            assert(accepts(exprs[i], candidate));
        }
    }
}

/// The expression of an `enum`: one group around the alternatives, one
/// for each literal in order.
pub open spec fn enum_expr(items: Seq<JsonValue>) -> Expr {
    Expr::Group(Box::new(any_of(literals(literal_texts(items)))))
}

/// The expression of a `const`: one group around the literal.
pub open spec fn const_expr(value: JsonValue) -> Expr {
    Expr::Group(Box::new(literal(literal_text(value)->Some_0)))
}

/// A `const` that is no array and no object compiles to the pattern of an
/// expression that accepts the JSON text of the literal and nothing
/// else.
pub proof fn lemma_const_language(obj: Members, value: JsonValue)
    requires
        lookup(obj, "const"@) == Some(value),
        literal_text(value) is Some,
    ensures
        const_pattern(obj) == Ok::<Seq<char>, SchemaError>(written(const_expr(value))),
        unambiguous(const_expr(value)),
        forall|candidate: Seq<char>| #[trigger]
            accepts(const_expr(value), candidate) <==> candidate == literal_text(value)->Some_0,
{
    let text = literal_text(value)->Some_0;
    lemma_literal_written(text);
    assert forall|candidate: Seq<char>| #[trigger]
        accepts(const_expr(value), candidate) <==> candidate == text by {
        lemma_literal_accepts(text, candidate);
    }
}

/// A text without meta characters is its own escaped text.
pub proof fn lemma_escaped_plain(text: Seq<char>)
    requires
        forall|i: int| 0 <= i < text.len() ==> !is_meta_character(#[trigger] text[i]),
    ensures
        escaped(text) == text,
    decreases text.len(),
{
    if text.len() > 0 {
        lemma_escaped_plain(text.drop_last());
        assert(escaped(text) =~= text);
    } else {
        assert(escaped(text) =~= text);
    }
}

/// The expression of the booleans: `true` or `false`, in one group.
pub open spec fn boolean_expr() -> Expr {
    Expr::Group(
        Box::new(Expr::Or(Box::new(literal("true"@)), Box::new(literal("false"@)))),
    )
}

/// The expression of null.
pub open spec fn null_expr() -> Expr {
    literal("null"@)
}

/// A schema of type boolean compiles to the pattern of an expression that
/// accepts a text exactly where it is the JSON text of a boolean.
pub proof fn lemma_boolean_language(obj: Members, ws: Seq<char>)
    requires
        lookup_str(obj, "type"@) == Some("boolean"@),
    ensures
        type_pattern(obj, ws) == Ok::<Seq<char>, SchemaError>(written(boolean_expr())),
        unambiguous(boolean_expr()),
        forall|candidate: Seq<char>| #[trigger]
            accepts(boolean_expr(), candidate) <==> exists|b: bool|
                candidate == #[trigger] literal_text(JsonValue::Bool(b))->Some_0,
{
    reveal_strlit("true");
    reveal_strlit("false");
    reveal_strlit("|");
    reveal_strlit("(");
    reveal_strlit(")");
    reveal_strlit("(true|false)");
    reveal_strlit("boolean");
    reveal_strlit("string");
    reveal_strlit("number");
    reveal_strlit("integer");
    reveal_strlit("array");
    reveal_strlit("object");
    assert("boolean"@[0] == 'b');
    assert("integer"@[0] == 'i');
    lemma_escaped_plain("true"@);
    lemma_escaped_plain("false"@);
    lemma_literal_written("true"@);
    lemma_literal_written("false"@);
    reveal_with_fuel(written, 3);
    reveal_with_fuel(unambiguous, 3);
    assert(written(boolean_expr()) =~= BOOLEAN@);
    assert forall|candidate: Seq<char>| #[trigger]
        accepts(boolean_expr(), candidate) <==> exists|b: bool|
            candidate == #[trigger] literal_text(JsonValue::Bool(b))->Some_0 by {
        reveal_with_fuel(accepts, 3);
        lemma_literal_accepts("true"@, candidate);
        lemma_literal_accepts("false"@, candidate);
        if accepts(boolean_expr(), candidate) {
            if candidate == "true"@ {
                assert(candidate == literal_text(JsonValue::Bool(true))->Some_0);
            } else {
                assert(candidate == literal_text(JsonValue::Bool(false))->Some_0);
            }
        }
    }
}

/// A schema of type null compiles to the pattern of an expression that
/// accepts the JSON text of null and nothing else.
pub proof fn lemma_null_language(obj: Members, ws: Seq<char>)
    requires
        lookup_str(obj, "type"@) == Some("null"@),
    ensures
        type_pattern(obj, ws) == Ok::<Seq<char>, SchemaError>(written(null_expr())),
        unambiguous(null_expr()),
        forall|candidate: Seq<char>| #[trigger]
            accepts(null_expr(), candidate) <==> candidate == literal_text(
                JsonValue::Null,
            )->Some_0,
{
    reveal_strlit("null");
    reveal_strlit("boolean");
    reveal_strlit("string");
    reveal_strlit("number");
    reveal_strlit("integer");
    reveal_strlit("array");
    reveal_strlit("object");
    lemma_escaped_plain("null"@);
    lemma_literal_written("null"@);
    assert(written(null_expr()) =~= NULL@);
    assert forall|candidate: Seq<char>| #[trigger]
        accepts(null_expr(), candidate) <==> candidate == literal_text(
            JsonValue::Null,
        )->Some_0 by {
        lemma_literal_accepts("null"@, candidate);
    }
}

/// The patterns of expressions, one for one.
pub open spec fn all_written(exprs: Seq<Expr>) -> Seq<Seq<char>> {
    Seq::new(exprs.len(), |i: int| written(exprs[i]))
}

/// Schemas that compile one by one compile as a list, in order.
pub proof fn lemma_compile_from_each(
    items: Seq<JsonValue>,
    parts: Seq<Seq<char>>,
    k: int,
    ws: Seq<char>,
)
    requires
        0 <= k <= items.len(),
        parts.len() == items.len(),
        forall|i: int|
            k <= i < items.len() ==> compile(#[trigger] items[i], ws) == Ok::<
                Seq<char>,
                SchemaError,
            >(parts[i]),
    ensures
        compile_from(items, k, ws) == Ok::<Seq<Seq<char>>, SchemaError>(
            parts.skip(k),
        ),
    decreases items.len() - k,
{
    if k < items.len() {
        lemma_compile_from_each(items, parts, k + 1, ws);
        assert(seq![parts[k]] + parts.skip(k + 1) =~= parts.skip(k));
    } else {
        assert(parts.skip(k) =~= Seq::<Seq<char>>::empty());
    }
}

/// `anyOf` is the union of its branches: where each schema compiles to
/// the pattern of an expression, `anyOf` compiles to the pattern of an
/// expression that accepts a text exactly where one of those does.
pub proof fn lemma_any_of_language(
    obj: Members,
    items: Seq<JsonValue>,
    exprs: Seq<Expr>,
    ws: Seq<char>,
)
    requires
        lookup(obj, "anyOf"@) == Some(JsonValue::Array(items)),
        items.len() >= 1,
        exprs.len() == items.len(),
        forall|i: int|
            0 <= i < items.len() ==> compile(#[trigger] items[i], ws) == Ok::<
                Seq<char>,
                SchemaError,
            >(written(exprs[i])),
        forall|i: int| 0 <= i < exprs.len() ==> unambiguous(#[trigger] exprs[i]),
    ensures
        any_of_pattern(obj, ws) == Ok::<Seq<char>, SchemaError>(
            written(Expr::Group(Box::new(any_of(exprs)))),
        ),
        unambiguous(Expr::Group(Box::new(any_of(exprs)))),
        forall|candidate: Seq<char>| #[trigger]
            accepts(Expr::Group(Box::new(any_of(exprs))), candidate) <==> exists|i: int|
                0 <= i < exprs.len() && accepts(#[trigger] exprs[i], candidate),
{
    lemma_position_within(obj, "anyOf"@, obj.len() as int);
    let parts = all_written(exprs);
    assert forall|i: int| 0 <= i < items.len() implies compile(#[trigger] items[i], ws) == Ok::<
        Seq<char>,
        SchemaError,
    >(parts[i]) by {}
    lemma_compile_from_each(items, parts, 0, ws);
    assert(parts.skip(0) =~= parts);
    lemma_any_of(exprs, Seq::empty());
    assert forall|candidate: Seq<char>| #[trigger]
        accepts(Expr::Group(Box::new(any_of(exprs))), candidate) <==> exists|i: int|
            0 <= i < exprs.len() && accepts(#[trigger] exprs[i], candidate) by {
        lemma_any_of(exprs, candidate);
    }
}

/// The expression of the default whitespace: at most one space.
pub open spec fn whitespace_expr() -> Expr {
    Expr::Optional(Box::new(Expr::Class(seq![' '])))
}

/// The default whitespace pattern accepts the empty text, one space, and
/// nothing else.
pub proof fn lemma_whitespace_language()
    ensures
        written(whitespace_expr()) == WHITESPACE@,
        unambiguous(whitespace_expr()),
        forall|candidate: Seq<char>| #[trigger]
            accepts(whitespace_expr(), candidate) <==> (candidate == Seq::<char>::empty()
                || candidate == seq![' ']),
{
    reveal_strlit("[ ]?");
    reveal_strlit("[");
    reveal_strlit("]");
    reveal_strlit("?");
    reveal_with_fuel(written, 3);
    reveal_with_fuel(unambiguous, 3);
    assert(written(whitespace_expr()) =~= WHITESPACE@);
    assert forall|candidate: Seq<char>| #[trigger]
        accepts(whitespace_expr(), candidate) <==> (candidate == Seq::<char>::empty()
            || candidate == seq![' ']) by {
        reveal_with_fuel(accepts, 3);
        if accepts(whitespace_expr(), candidate) && candidate.len() != 0 {
            assert(seq![' '].contains(candidate[0]));
            assert(candidate =~= seq![' ']);
        }
        if candidate == seq![' '] {
            assert(seq![' '][0] == ' ');
            assert(seq![' '].contains(candidate[0]));
        }
        if candidate.len() == 0 {
            assert(candidate =~= Seq::<char>::empty());
        }
    }
}

/// The expression of a container that holds nothing: the two brackets
/// around whitespace.
pub open spec fn hollow_expr(open: char, ws: Expr, close: char) -> Expr {
    Expr::Then(
        Box::new(Expr::Then(Box::new(Expr::Literal(open)), Box::new(ws))),
        Box::new(Expr::Literal(close)),
    )
}

/// A hollow container accepts its two brackets around a text of
/// whitespace, and nothing else.
pub proof fn lemma_hollow_accepts(open: char, ws: Expr, close: char, candidate: Seq<char>)
    ensures
        accepts(hollow_expr(open, ws, close), candidate) <==> exists|space: Seq<char>|
            #[trigger] accepts(ws, space) && candidate == seq![open] + space + seq![close],
{
    reveal_with_fuel(accepts, 3);
    let front = Expr::Then(Box::new(Expr::Literal(open)), Box::new(ws));
    if accepts(hollow_expr(open, ws, close), candidate) {
        let k = choose|k: int|
            0 <= k <= candidate.len() && accepts(front, #[trigger] candidate.take(k)) && accepts(
                Expr::Literal(close),
                candidate.skip(k),
            );
        let head = candidate.take(k);
        let j = choose|j: int|
            0 <= j <= head.len() && accepts(Expr::Literal(open), #[trigger] head.take(j))
                && accepts(ws, head.skip(j));
        let space = head.skip(j);
        assert(head =~= head.take(j) + head.skip(j));
        assert(candidate =~= head + candidate.skip(k));
        assert(candidate =~= seq![open] + space + seq![close]);
        assert(accepts(ws, space));
    }
    if exists|space: Seq<char>|
        #[trigger] accepts(ws, space) && candidate == seq![open] + space + seq![close] {
        let space = choose|space: Seq<char>|
            #[trigger] accepts(ws, space) && candidate == seq![open] + space + seq![close];
        let k = candidate.len() - 1;
        let head = candidate.take(k);
        assert(head =~= seq![open] + space);
        assert(candidate.skip(k) =~= seq![close]);
        assert(head.take(1) =~= seq![open]);
        assert(head.skip(1) =~= space);
        assert(accepts(Expr::Literal(open), head.take(1)));
        assert(accepts(ws, head.skip(1)));
        assert(accepts(front, head));
        assert(accepts(front, candidate.take(k)));
        assert(accepts(Expr::Literal(close), candidate.skip(k)));
    }
}

/// An array schema whose maximum is zero, with no minimum above it,
/// compiles to the pattern of an expression that accepts the empty array,
/// with whitespace between the brackets, and nothing else. The
/// whitespace pattern is that of any expression that is no bare
/// alternative.
pub proof fn lemma_empty_array_language(obj: Members, ws: Expr)
    requires
        lookup_u64(obj, "maxItems"@) == Some(0u64),
        lookup_u64(obj, "minItems"@) is None || lookup_u64(obj, "minItems"@) == Some(0u64),
        unambiguous(ws),
        !(ws is Or),
    ensures
        array_type_pattern(obj, written(ws)) == Ok::<Seq<char>, SchemaError>(
            written(hollow_expr('[', ws, ']')),
        ),
        unambiguous(hollow_expr('[', ws, ']')),
        forall|candidate: Seq<char>| #[trigger]
            accepts(hollow_expr('[', ws, ']'), candidate) <==> exists|space: Seq<char>|
                #[trigger] accepts(ws, space) && candidate == seq!['['] + space + seq![']'],
{
    reveal_strlit("\\[");
    reveal_strlit("\\]");
    reveal_with_fuel(written, 3);
    reveal_with_fuel(unambiguous, 3);
    assert(written(hollow_expr('[', ws, ']')) =~= "\\["@ + written(ws) + "\\]"@);
    assert forall|candidate: Seq<char>| #[trigger]
        accepts(hollow_expr('[', ws, ']'), candidate) <==> exists|space: Seq<char>|
            #[trigger] accepts(ws, space) && candidate == seq!['['] + space + seq![']'] by {
        lemma_hollow_accepts('[', ws, ']', candidate);
    }
}

/// An object schema without `properties` whose maximum is zero, with no
/// minimum above it, compiles to the pattern of an expression that
/// accepts the empty object, with whitespace between the braces, and
/// nothing else.
pub proof fn lemma_empty_object_language(obj: Members, ws: Expr)
    requires
        lookup_u64(obj, "maxProperties"@) == Some(0u64),
        lookup_u64(obj, "minProperties"@) is None || lookup_u64(obj, "minProperties"@) == Some(
            0u64,
        ),
        unambiguous(ws),
        !(ws is Or),
    ensures
        object_type_pattern(obj, written(ws)) == Ok::<Seq<char>, SchemaError>(
            written(hollow_expr('{', ws, '}')),
        ),
        unambiguous(hollow_expr('{', ws, '}')),
        forall|candidate: Seq<char>| #[trigger]
            accepts(hollow_expr('{', ws, '}'), candidate) <==> exists|space: Seq<char>|
                #[trigger] accepts(ws, space) && candidate == seq!['{'] + space + seq!['}'],
{
    reveal_strlit("\\{");
    reveal_strlit("\\}");
    reveal_with_fuel(written, 3);
    reveal_with_fuel(unambiguous, 3);
    assert(written(hollow_expr('{', ws, '}')) =~= "\\{"@ + written(ws) + "\\}"@);
    assert forall|candidate: Seq<char>| #[trigger]
        accepts(hollow_expr('{', ws, '}'), candidate) <==> exists|space: Seq<char>|
            #[trigger] accepts(ws, space) && candidate == seq!['{'] + space + seq!['}'] by {
        lemma_hollow_accepts('{', ws, '}', candidate);
    }
}

/// Under the default whitespace, an array schema whose maximum is zero
/// accepts `[]` and `[ ]` and nothing else.
pub proof fn lemma_empty_array_texts(obj: Members, candidate: Seq<char>)
    requires
        lookup_u64(obj, "maxItems"@) == Some(0u64),
        lookup_u64(obj, "minItems"@) is None || lookup_u64(obj, "minItems"@) == Some(0u64),
    ensures
        array_type_pattern(obj, WHITESPACE@) == Ok::<Seq<char>, SchemaError>(
            written(hollow_expr('[', whitespace_expr(), ']')),
        ),
        accepts(hollow_expr('[', whitespace_expr(), ']'), candidate) <==> (candidate == seq![
            '[',
            ']',
        ] || candidate == seq!['[', ' ', ']']),
{
    lemma_whitespace_language();
    lemma_empty_array_language(obj, whitespace_expr());
    lemma_hollow_accepts('[', whitespace_expr(), ']', candidate);
    if accepts(hollow_expr('[', whitespace_expr(), ']'), candidate) {
        let space = choose|space: Seq<char>|
            #[trigger] accepts(whitespace_expr(), space) && candidate == seq!['['] + space
                + seq![']'];
        if space == Seq::<char>::empty() {
            assert(candidate =~= seq!['[', ']']);
        } else {
            assert(candidate =~= seq!['[', ' ', ']']);
        }
    }
    if candidate == seq!['[', ']'] {
        let space = Seq::<char>::empty();
        assert(accepts(whitespace_expr(), space));
        assert(candidate =~= seq!['['] + space + seq![']']);
    }
    if candidate == seq!['[', ' ', ']'] {
        let space = seq![' '];
        assert(accepts(whitespace_expr(), space));
        assert(candidate =~= seq!['['] + space + seq![']']);
    }
}

/// Each expression in a group of its own that captures nothing.
pub open spec fn inner_groups(exprs: Seq<Expr>) -> Seq<Expr> {
    Seq::new(exprs.len(), |i: int| Expr::Inner(Box::new(exprs[i])))
}

/// The expression of `oneOf`: one group around the alternatives, each in
/// a group of its own.
pub open spec fn one_of_expr(exprs: Seq<Expr>) -> Expr {
    Expr::Group(Box::new(any_of(inner_groups(exprs))))
}

/// `oneOf` is the union of its branches, as `anyOf` is: where each schema
/// compiles to the pattern of an expression, `oneOf` compiles to the
/// pattern of an expression that accepts a text exactly where at least
/// one of those does. A text that several branches accept is accepted
/// too.
pub proof fn lemma_one_of_language(
    obj: Members,
    items: Seq<JsonValue>,
    exprs: Seq<Expr>,
    ws: Seq<char>,
)
    requires
        lookup(obj, "oneOf"@) == Some(JsonValue::Array(items)),
        items.len() >= 1,
        exprs.len() == items.len(),
        forall|i: int|
            0 <= i < items.len() ==> compile(#[trigger] items[i], ws) == Ok::<
                Seq<char>,
                SchemaError,
            >(written(exprs[i])),
        forall|i: int| 0 <= i < exprs.len() ==> unambiguous(#[trigger] exprs[i]),
    ensures
        one_of_pattern(obj, ws) == Ok::<Seq<char>, SchemaError>(written(one_of_expr(exprs))),
        unambiguous(one_of_expr(exprs)),
        forall|candidate: Seq<char>| #[trigger]
            accepts(one_of_expr(exprs), candidate) <==> exists|i: int|
                0 <= i < exprs.len() && accepts(#[trigger] exprs[i], candidate),
{
    lemma_position_within(obj, "oneOf"@, obj.len() as int);
    let parts = all_written(exprs);
    let inner = inner_groups(exprs);
    assert forall|i: int| 0 <= i < items.len() implies compile(#[trigger] items[i], ws) == Ok::<
        Seq<char>,
        SchemaError,
    >(parts[i]) by {}
    lemma_compile_from_each(items, parts, 0, ws);
    assert(parts.skip(0) =~= parts);
    assert(all_written(inner) =~= grouped(parts));
    assert forall|i: int| 0 <= i < inner.len() implies unambiguous(#[trigger] inner[i]) by {
        assert(unambiguous(exprs[i]));
    }
    lemma_any_of(inner, Seq::empty());
    assert forall|candidate: Seq<char>| #[trigger]
        accepts(one_of_expr(exprs), candidate) <==> exists|i: int|
            0 <= i < exprs.len() && accepts(#[trigger] exprs[i], candidate) by {
        lemma_any_of(inner, candidate);
        if accepts(one_of_expr(exprs), candidate) {
            let i = choose|i: int| 0 <= i < inner.len() && accepts(#[trigger] inner[i], candidate);
            assert(accepts(exprs[i], candidate));
        }
        if exists|i: int| 0 <= i < exprs.len() && accepts(#[trigger] exprs[i], candidate) {
            let i = choose|i: int| 0 <= i < exprs.len() && accepts(#[trigger] exprs[i], candidate);
            assert(accepts(inner[i], candidate));
        }
    }
}

/// The first `n` expressions one after another.
pub open spec fn sequence(exprs: Seq<Expr>, n: int) -> Expr
    decreases n,
{
    if n <= 0 {
        Expr::Nothing
    } else if n == 1 {
        exprs[0]
    } else {
        Expr::Then(Box::new(sequence(exprs, n - 1)), Box::new(exprs[n - 1]))
    }
}

/// A sequence of expressions that are no bare alternatives is written as
/// their patterns one after another, and is no bare alternative itself.
pub proof fn lemma_sequence_written(exprs: Seq<Expr>, n: int)
    requires
        0 <= n <= exprs.len(),
        forall|i: int| 0 <= i < exprs.len() ==> unambiguous(#[trigger] exprs[i]) && !(exprs[i] is Or),
    ensures
        written(sequence(exprs, n)) == join(all_written(exprs).take(n), ""@),
        unambiguous(sequence(exprs, n)),
        !(sequence(exprs, n) is Or),
    decreases n,
{
    reveal_strlit("");
    let parts = all_written(exprs).take(n);
    if n >= 2 {
        lemma_sequence_written(exprs, n - 1);
        assert(parts.drop_last() =~= all_written(exprs).take(n - 1));
        assert(parts.last() == written(exprs[n - 1]));
        assert(written(sequence(exprs, n)) =~= join(parts, ""@));
    } else if n == 1 {
        assert(parts[0] == written(exprs[0]));
    } else {
        assert(written(sequence(exprs, n)) =~= join(parts, ""@));
    }
}

/// `allOf` is the sequence of its branches, not what they have in
/// common: where each schema compiles to the pattern of an expression
/// that is no bare alternative, `allOf` compiles to the pattern of the
/// expressions one after another, in one group.
pub proof fn lemma_all_of_language(
    obj: Members,
    items: Seq<JsonValue>,
    exprs: Seq<Expr>,
    ws: Seq<char>,
)
    requires
        lookup(obj, "allOf"@) == Some(JsonValue::Array(items)),
        exprs.len() == items.len(),
        forall|i: int|
            0 <= i < items.len() ==> compile(#[trigger] items[i], ws) == Ok::<
                Seq<char>,
                SchemaError,
            >(written(exprs[i])),
        forall|i: int| 0 <= i < exprs.len() ==> unambiguous(#[trigger] exprs[i]) && !(exprs[i] is Or),
    ensures
        all_of_pattern(obj, ws) == Ok::<Seq<char>, SchemaError>(
            written(Expr::Group(Box::new(sequence(exprs, exprs.len() as int)))),
        ),
        unambiguous(Expr::Group(Box::new(sequence(exprs, exprs.len() as int)))),
{
    lemma_position_within(obj, "allOf"@, obj.len() as int);
    let parts = all_written(exprs);
    assert forall|i: int| 0 <= i < items.len() implies compile(#[trigger] items[i], ws) == Ok::<
        Seq<char>,
        SchemaError,
    >(parts[i]) by {}
    lemma_compile_from_each(items, parts, 0, ws);
    assert(parts.skip(0) =~= parts);
    lemma_sequence_written(exprs, exprs.len() as int);
    assert(parts.take(exprs.len() as int) =~= parts);
}

/// The first `n` items of a tuple, with a comma and whitespace before
/// each but the first.
pub open spec fn tuple_items(exprs: Seq<Expr>, ws: Expr, n: int) -> Expr
    decreases n,
{
    if n <= 0 {
        Expr::Nothing
    } else if n == 1 {
        exprs[0]
    } else {
        Expr::Then(
            Box::new(
                Expr::Then(
                    Box::new(
                        Expr::Then(
                            Box::new(tuple_items(exprs, ws, n - 1)),
                            Box::new(Expr::Literal(',')),
                        ),
                    ),
                    Box::new(ws),
                ),
            ),
            Box::new(exprs[n - 1]),
        )
    }
}

/// The expression of a tuple: `[`, whitespace, the items with a comma
/// and whitespace between each two, whitespace, `]`.
pub open spec fn tuple_expr(exprs: Seq<Expr>, ws: Expr) -> Expr {
    Expr::Then(
        Box::new(
            Expr::Then(
                Box::new(
                    Expr::Then(
                        Box::new(Expr::Then(Box::new(Expr::Literal('[')), Box::new(ws))),
                        Box::new(tuple_items(exprs, ws, exprs.len() as int)),
                    ),
                ),
                Box::new(ws),
            ),
        ),
        Box::new(Expr::Literal(']')),
    )
}

/// The items of a tuple are written with a comma and the whitespace
/// pattern between each two.
pub proof fn lemma_tuple_items_written(exprs: Seq<Expr>, ws: Expr, n: int)
    requires
        0 <= n <= exprs.len(),
        unambiguous(ws),
        !(ws is Or),
        forall|i: int| 0 <= i < exprs.len() ==> unambiguous(#[trigger] exprs[i]) && !(exprs[i] is Or),
    ensures
        written(tuple_items(exprs, ws, n)) == join(
            all_written(exprs).take(n),
            ","@ + written(ws),
        ),
        unambiguous(tuple_items(exprs, ws, n)),
        !(tuple_items(exprs, ws, n) is Or),
    decreases n,
{
    reveal_strlit(",");
    reveal_with_fuel(written, 4);
    reveal_with_fuel(unambiguous, 4);
    let parts = all_written(exprs).take(n);
    if n >= 2 {
        lemma_tuple_items_written(exprs, ws, n - 1);
        assert(parts.drop_last() =~= all_written(exprs).take(n - 1));
        assert(parts.last() == written(exprs[n - 1]));
        assert(written(tuple_items(exprs, ws, n)) =~= join(parts, ","@ + written(ws)));
    } else if n == 1 {
        assert(parts[0] == written(exprs[0]));
    } else {
        assert(written(tuple_items(exprs, ws, n)) =~= join(parts, ","@ + written(ws)));
    }
}

/// A tuple is written between escaped square brackets, with the
/// whitespace pattern inside each.
pub proof fn lemma_tuple_written(exprs: Seq<Expr>, ws: Expr)
    requires
        unambiguous(ws),
        !(ws is Or),
        forall|i: int| 0 <= i < exprs.len() ==> unambiguous(#[trigger] exprs[i]) && !(exprs[i] is Or),
    ensures
        written(tuple_expr(exprs, ws)) == "\\["@ + written(ws) + join(
            all_written(exprs),
            ","@ + written(ws),
        ) + written(ws) + "\\]"@,
        unambiguous(tuple_expr(exprs, ws)),
{
    let items = tuple_items(exprs, ws, exprs.len() as int);
    lemma_tuple_items_written(exprs, ws, exprs.len() as int);
    assert(all_written(exprs).take(exprs.len() as int) =~= all_written(exprs));
    let opened = Expr::Then(Box::new(Expr::Literal('[')), Box::new(ws));
    let filled = Expr::Then(Box::new(opened), Box::new(items));
    let spaced = Expr::Then(Box::new(filled), Box::new(ws));
    reveal_strlit("\\[");
    reveal_strlit("\\]");
    assert(written(Expr::Literal('[')) =~= "\\["@);
    assert(written(Expr::Literal(']')) =~= "\\]"@);
    assert(written(opened) == written(Expr::Literal('[')) + written(ws));
    assert(written(filled) == written(opened) + written(items));
    assert(written(spaced) == written(filled) + written(ws));
    assert(written(tuple_expr(exprs, ws)) == written(spaced) + written(Expr::Literal(']')));
    assert(unambiguous(Expr::Literal('[')));
    assert(unambiguous(opened));
    assert(unambiguous(filled));
    assert(unambiguous(spaced));
    assert(unambiguous(Expr::Literal(']')));
}

/// `prefixItems` is a tuple: where each schema compiles to the pattern
/// of an expression that is no bare alternative, and the whitespace
/// pattern is that of such an expression too, `prefixItems` compiles to
/// the pattern of the tuple of those expressions.
pub proof fn lemma_prefix_items_language(
    obj: Members,
    items: Seq<JsonValue>,
    exprs: Seq<Expr>,
    ws: Expr,
)
    requires
        lookup(obj, "prefixItems"@) == Some(JsonValue::Array(items)),
        exprs.len() == items.len(),
        unambiguous(ws),
        !(ws is Or),
        forall|i: int|
            0 <= i < items.len() ==> compile(#[trigger] items[i], written(ws)) == Ok::<
                Seq<char>,
                SchemaError,
            >(written(exprs[i])),
        forall|i: int| 0 <= i < exprs.len() ==> unambiguous(#[trigger] exprs[i]) && !(exprs[i] is Or),
    ensures
        prefix_items_pattern(obj, written(ws)) == Ok::<Seq<char>, SchemaError>(
            written(tuple_expr(exprs, ws)),
        ),
        unambiguous(tuple_expr(exprs, ws)),
{
    lemma_position_within(obj, "prefixItems"@, obj.len() as int);
    let parts = all_written(exprs);
    assert forall|i: int| 0 <= i < items.len() implies compile(
        #[trigger] items[i],
        written(ws),
    ) == Ok::<Seq<char>, SchemaError>(parts[i]) by {}
    lemma_compile_from_each(items, parts, 0, written(ws));
    assert(parts.skip(0) =~= parts);
    lemma_tuple_written(exprs, ws);
}

} // verus!

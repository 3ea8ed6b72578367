//! The expressions behind the pattern of an object with known properties,
//! none of them required, and the texts that they accept.

use vstd::prelude::*;
use crate::error::SchemaError;
use crate::guidance::{
    candidate, candidates, compile, is_required, last_required, optional_after,
    optional_before, properties_pattern, property_fragment, property_fragments_from,
    required_names,
};
use crate::json::{JsonValue, Members, lemma_position_within, lookup};
use crate::language::{
    Expr, accepts, all_written, any_of, lemma_any_of, lemma_literal_written, literal,
    unambiguous, written,
};
use crate::text::join;

verus! {

/// The expression of one property: the key between double quotes, a
/// colon with whitespace on both sides, and the value.
pub open spec fn property_expr(key: Seq<char>, value: Expr, ws: Expr) -> Expr {
    Expr::Then(Box::new(property_name_expr(key, ws)), Box::new(value))
}

/// The expression of a property up to its value.
pub open spec fn property_name_expr(key: Seq<char>, ws: Expr) -> Expr {
    Expr::Then(
        Box::new(
            Expr::Then(
                Box::new(Expr::Then(Box::new(quoted_expr(key)), Box::new(ws))),
                Box::new(Expr::Literal(':')),
            ),
        ),
        Box::new(ws),
    )
}

/// The expression of a key between double quotes.
pub open spec fn quoted_expr(key: Seq<char>) -> Expr {
    Expr::Then(
        Box::new(Expr::Then(Box::new(Expr::Literal('"')), Box::new(literal(key)))),
        Box::new(Expr::Literal('"')),
    )
}

/// The expressions of the properties of an object, one for one.
pub open spec fn property_exprs(props: Members, values: Seq<Expr>, ws: Expr) -> Seq<Expr> {
    Seq::new(props.len(), |i: int| property_expr(props[i].0, values[i], ws))
}

/// The first `n` properties, each optional and followed by a comma and
/// whitespace.
pub open spec fn before_expr(fragments: Seq<Expr>, ws: Expr, n: int) -> Expr
    decreases n,
{
    if n <= 0 {
        Expr::Nothing
    } else {
        Expr::Then(
            Box::new(before_expr(fragments, ws, n - 1)),
            Box::new(followed_expr(fragments[n - 1], ws)),
        )
    }
}

/// A property that may be left out, with the comma and whitespace behind
/// it.
pub open spec fn followed_expr(fragment: Expr, ws: Expr) -> Expr {
    Expr::Optional(
        Box::new(
            Expr::Group(
                Box::new(
                    Expr::Then(
                        Box::new(Expr::Then(Box::new(fragment), Box::new(Expr::Literal(',')))),
                        Box::new(ws),
                    ),
                ),
            ),
        ),
    )
}

/// The properties behind `i` and before `n`, each optional and led by a
/// comma and whitespace.
pub open spec fn after_expr(fragments: Seq<Expr>, ws: Expr, i: int, n: int) -> Expr
    decreases n,
{
    if n <= i + 1 || n <= 0 {
        Expr::Nothing
    } else {
        Expr::Then(
            Box::new(after_expr(fragments, ws, i, n - 1)),
            Box::new(led_expr(fragments[n - 1], ws)),
        )
    }
}

/// A property that may be left out, with the comma and whitespace before
/// it.
pub open spec fn led_expr(fragment: Expr, ws: Expr) -> Expr {
    Expr::Optional(
        Box::new(
            Expr::Group(
                Box::new(
                    Expr::Then(
                        Box::new(Expr::Then(Box::new(Expr::Literal(',')), Box::new(ws))),
                        Box::new(fragment),
                    ),
                ),
            ),
        ),
    )
}

/// The members of an object that holds the property at `i` for certain.
pub open spec fn candidate_expr(fragments: Seq<Expr>, ws: Expr, i: int) -> Expr {
    Expr::Then(
        Box::new(
            Expr::Then(Box::new(before_expr(fragments, ws, i)), Box::new(fragments[i])),
        ),
        Box::new(after_expr(fragments, ws, i, fragments.len() as int)),
    )
}

/// One candidate for each property.
pub open spec fn candidate_exprs(fragments: Seq<Expr>, ws: Expr) -> Seq<Expr> {
    Seq::new(fragments.len(), |i: int| candidate_expr(fragments, ws, i))
}

/// The members of an object none of whose properties is required: one of
/// the candidates, or nothing.
pub open spec fn members_expr(fragments: Seq<Expr>, ws: Expr) -> Expr {
    Expr::Optional(
        Box::new(
            Expr::Group(
                Box::new(
                    if fragments.len() == 0 {
                        Expr::Nothing
                    } else {
                        any_of(candidate_exprs(fragments, ws))
                    },
                ),
            ),
        ),
    )
}

/// The expression of an object none of whose properties is required:
/// `{`, whitespace, the members, whitespace, `}`.
pub open spec fn optional_object_expr(fragments: Seq<Expr>, ws: Expr) -> Expr {
    Expr::Then(
        Box::new(
            Expr::Then(
                Box::new(
                    Expr::Then(
                        Box::new(Expr::Then(Box::new(Expr::Literal('{')), Box::new(ws))),
                        Box::new(members_expr(fragments, ws)),
                    ),
                ),
                Box::new(ws),
            ),
        ),
        Box::new(Expr::Literal('}')),
    )
}

/// Whether an expression can stand in a sequence as it is: it reads back
/// as itself and is no bare alternative.
pub open spec fn plain(e: Expr) -> bool {
    unambiguous(e) && !(e is Or)
}

/// A sequence of two accepts a text of the first followed by a text of
/// the second.
pub proof fn lemma_then_accepts(a: Expr, b: Expr, first: Seq<char>, second: Seq<char>)
    requires
        accepts(a, first),
        accepts(b, second),
    ensures
        accepts(Expr::Then(Box::new(a), Box::new(b)), first + second),
{
    let whole = first + second;
    let k = first.len() as int;
    assert(whole.take(k) =~= first);
    assert(whole.skip(k) =~= second);
}

/// The expression of a property is written as its fragment.
pub proof fn lemma_property_written(key: Seq<char>, value: Expr, ws: Expr)
    requires
        plain(value),
        plain(ws),
    ensures
        written(property_expr(key, value, ws)) == property_fragment(
            key,
            written(value),
            written(ws),
        ),
        plain(property_expr(key, value, ws)),
{
    reveal_strlit("\"");
    reveal_strlit(":");
    lemma_literal_written(key);
    let opened = Expr::Then(Box::new(Expr::Literal('"')), Box::new(literal(key)));
    let quoted = quoted_expr(key);
    let spaced = Expr::Then(Box::new(quoted), Box::new(ws));
    let colon = Expr::Then(Box::new(spaced), Box::new(Expr::Literal(':')));
    let named = property_name_expr(key, ws);
    assert(written(Expr::Literal('"')) =~= "\""@);
    assert(written(Expr::Literal(':')) =~= ":"@);
    assert(written(opened) == written(Expr::Literal('"')) + written(literal(key)));
    assert(written(quoted) == written(opened) + written(Expr::Literal('"')));
    assert(written(spaced) == written(quoted) + written(ws));
    assert(written(colon) == written(spaced) + written(Expr::Literal(':')));
    assert(written(named) == written(colon) + written(ws));
    assert(written(property_expr(key, value, ws)) == written(named) + written(value));
    assert(unambiguous(Expr::Literal('"')));
    assert(unambiguous(Expr::Literal(':')));
    assert(unambiguous(opened));
    assert(unambiguous(quoted));
    assert(unambiguous(spaced));
    assert(unambiguous(colon));
    assert(unambiguous(named));
}

/// Properties whose values compile one by one give their fragments, in
/// order.
pub proof fn lemma_fragments_from_each(props: Members, values: Seq<Expr>, ws: Expr, k: int)
    requires
        0 <= k <= props.len(),
        values.len() == props.len(),
        plain(ws),
        forall|i: int|
            0 <= i < props.len() ==> plain(#[trigger] values[i]) && compile(
                props[i].1,
                written(ws),
            ) == Ok::<Seq<char>, SchemaError>(written(values[i])),
    ensures
        property_fragments_from(props, k, written(ws)) == Ok::<Seq<Seq<char>>, SchemaError>(
            all_written(property_exprs(props, values, ws)).skip(k),
        ),
    decreases props.len() - k,
{
    let parts = all_written(property_exprs(props, values, ws));
    if k < props.len() {
        lemma_fragments_from_each(props, values, ws, k + 1);
        assert(plain(values[k]));
        lemma_property_written(props[k].0, values[k], ws);
        assert(parts[k] == property_fragment(props[k].0, written(values[k]), written(ws)));
        assert(seq![parts[k]] + parts.skip(k + 1) =~= parts.skip(k));
    } else {
        assert(parts.skip(k) =~= Seq::<Seq<char>>::empty());
    }
}

/// Where no property is required, there is no last required one.
pub proof fn lemma_none_required(props: Members, names: Seq<JsonValue>, n: int)
    requires
        0 <= n <= props.len(),
        forall|i: int| 0 <= i < props.len() ==> !is_required(names, (#[trigger] props[i]).0),
    ensures
        last_required(props, names, n) is None,
    decreases n,
{
    if n > 0 {
        lemma_none_required(props, names, n - 1);
        assert(!is_required(names, props[n - 1].0));
    }
}

/// The optional properties before a candidate are written one after
/// another, each in its group, and accept the empty text.
pub proof fn lemma_before_written(fragments: Seq<Expr>, ws: Expr, n: int)
    requires
        0 <= n <= fragments.len(),
        plain(ws),
        forall|i: int| 0 <= i < fragments.len() ==> plain(#[trigger] fragments[i]),
    ensures
        written(before_expr(fragments, ws, n)) == optional_before(
            all_written(fragments),
            written(ws),
            n,
        ),
        plain(before_expr(fragments, ws, n)),
        accepts(before_expr(fragments, ws, n), Seq::empty()),
    decreases n,
{
    if n > 0 {
        lemma_before_written(fragments, ws, n - 1);
        reveal_strlit("(");
        reveal_strlit(")");
        reveal_strlit("?");
        reveal_strlit(",");
        reveal_strlit(")?");
        let fragment = fragments[n - 1];
        assert(plain(fragment));
        let comma = Expr::Then(Box::new(fragment), Box::new(Expr::Literal(',')));
        let inner = Expr::Then(Box::new(comma), Box::new(ws));
        let group = Expr::Group(Box::new(inner));
        let optional = followed_expr(fragment, ws);
        assert(written(Expr::Literal(',')) =~= ","@);
        assert(written(comma) == written(fragment) + written(Expr::Literal(',')));
        assert(written(inner) == written(comma) + written(ws));
        assert(written(group) == "("@ + written(inner) + ")"@);
        assert(written(optional) == written(group) + "?"@);
        assert(unambiguous(Expr::Literal(',')));
        assert(unambiguous(comma));
        assert(unambiguous(inner));
        assert(unambiguous(group));
        assert(unambiguous(optional));
        let head = before_expr(fragments, ws, n - 1);
        assert(written(before_expr(fragments, ws, n)) == written(head) + written(optional));
        assert(all_written(fragments)[n - 1] == written(fragment));
        assert(written(before_expr(fragments, ws, n)) =~= optional_before(
            all_written(fragments),
            written(ws),
            n,
        ));
        assert(accepts(optional, Seq::empty()));
        lemma_then_accepts(head, optional, Seq::empty(), Seq::empty());
        assert(Seq::<char>::empty() + Seq::<char>::empty() =~= Seq::<char>::empty());
    }
}

/// The optional properties behind a candidate are written one after
/// another, each in its group, and accept the empty text.
pub proof fn lemma_after_written(fragments: Seq<Expr>, ws: Expr, i: int, n: int)
    requires
        0 <= i < fragments.len(),
        i + 1 <= n <= fragments.len(),
        plain(ws),
        forall|j: int| 0 <= j < fragments.len() ==> plain(#[trigger] fragments[j]),
    ensures
        written(after_expr(fragments, ws, i, n)) == optional_after(
            all_written(fragments),
            written(ws),
            i,
            n,
        ),
        plain(after_expr(fragments, ws, i, n)),
        accepts(after_expr(fragments, ws, i, n), Seq::empty()),
    decreases n,
{
    if n > i + 1 {
        lemma_after_written(fragments, ws, i, n - 1);
        reveal_strlit("(");
        reveal_strlit(")");
        reveal_strlit("?");
        reveal_strlit(",");
        reveal_strlit("(,");
        reveal_strlit(")?");
        let fragment = fragments[n - 1];
        assert(plain(fragment));
        let comma = Expr::Then(Box::new(Expr::Literal(',')), Box::new(ws));
        let inner = Expr::Then(Box::new(comma), Box::new(fragment));
        let group = Expr::Group(Box::new(inner));
        let optional = led_expr(fragment, ws);
        assert(written(Expr::Literal(',')) =~= ","@);
        assert(written(comma) == written(Expr::Literal(',')) + written(ws));
        assert(written(inner) == written(comma) + written(fragment));
        assert(written(group) == "("@ + written(inner) + ")"@);
        assert(written(optional) == written(group) + "?"@);
        assert(unambiguous(Expr::Literal(',')));
        assert(unambiguous(comma));
        assert(unambiguous(inner));
        assert(unambiguous(group));
        assert(unambiguous(optional));
        let head = after_expr(fragments, ws, i, n - 1);
        assert(written(after_expr(fragments, ws, i, n)) == written(head) + written(optional));
        assert(all_written(fragments)[n - 1] == written(fragment));
        assert(written(after_expr(fragments, ws, i, n)) =~= optional_after(
            all_written(fragments),
            written(ws),
            i,
            n,
        ));
        assert(accepts(optional, Seq::empty()));
        lemma_then_accepts(head, optional, Seq::empty(), Seq::empty());
        assert(Seq::<char>::empty() + Seq::<char>::empty() =~= Seq::<char>::empty());
    }
}

/// A candidate is written as the optional properties before, the
/// property itself, and the optional properties behind; it accepts every
/// text that the property alone accepts.
pub proof fn lemma_candidate_written(fragments: Seq<Expr>, ws: Expr, i: int, text: Seq<char>)
    requires
        0 <= i < fragments.len(),
        plain(ws),
        forall|j: int| 0 <= j < fragments.len() ==> plain(#[trigger] fragments[j]),
    ensures
        written(candidate_expr(fragments, ws, i)) == candidate(
            all_written(fragments),
            written(ws),
            i,
        ),
        plain(candidate_expr(fragments, ws, i)),
        accepts(fragments[i], text) ==> accepts(candidate_expr(fragments, ws, i), text),
{
    let before = before_expr(fragments, ws, i);
    let after = after_expr(fragments, ws, i, fragments.len() as int);
    let front = Expr::Then(Box::new(before), Box::new(fragments[i]));
    lemma_before_written(fragments, ws, i);
    lemma_after_written(fragments, ws, i, fragments.len() as int);
    assert(plain(fragments[i]));
    assert(written(front) == written(before) + written(fragments[i]));
    assert(written(candidate_expr(fragments, ws, i)) == written(front) + written(after));
    assert(all_written(fragments)[i] == written(fragments[i]));
    assert(unambiguous(front));
    if accepts(fragments[i], text) {
        lemma_then_accepts(before, fragments[i], Seq::empty(), text);
        assert(Seq::<char>::empty() + text =~= text);
        lemma_then_accepts(front, after, text, Seq::empty());
        assert(text + Seq::<char>::empty() =~= text);
    }
}

/// The members of an object none of whose properties is required are
/// written as one optional group around the candidates, and accept the
/// empty text and every text that one property alone accepts.
pub proof fn lemma_members_written(fragments: Seq<Expr>, ws: Expr)
    requires
        plain(ws),
        forall|j: int| 0 <= j < fragments.len() ==> plain(#[trigger] fragments[j]),
    ensures
        written(members_expr(fragments, ws)) == "("@ + join(
            candidates(all_written(fragments), written(ws)),
            "|"@,
        ) + ")?"@,
        plain(members_expr(fragments, ws)),
        accepts(members_expr(fragments, ws), Seq::empty()),
        forall|i: int, text: Seq<char>|
            0 <= i < fragments.len() && #[trigger] accepts(fragments[i], text) ==> accepts(
                members_expr(fragments, ws),
                text,
            ),
{
    reveal_strlit("(");
    reveal_strlit(")");
    reveal_strlit("?");
    reveal_strlit(")?");
    let exprs = candidate_exprs(fragments, ws);
    let texts = candidates(all_written(fragments), written(ws));
    let inner = if fragments.len() == 0 {
        Expr::Nothing
    } else {
        any_of(exprs)
    };
    let group = Expr::Group(Box::new(inner));
    assert forall|i: int| 0 <= i < exprs.len() implies #[trigger] all_written(exprs)[i]
        == texts[i] && unambiguous(exprs[i]) by {
        lemma_candidate_written(fragments, ws, i, Seq::empty());
    }
    assert(all_written(exprs) =~= texts);
    assert forall|i: int| 0 <= i < exprs.len() implies unambiguous(#[trigger] exprs[i]) by {
        lemma_candidate_written(fragments, ws, i, Seq::empty());
    }
    if fragments.len() > 0 {
        lemma_any_of(exprs, Seq::empty());
        assert(Seq::new(exprs.len(), |i: int| written(exprs[i])) =~= all_written(exprs));
        assert(written(inner) == join(texts, "|"@));
    } else {
        assert(written(inner) =~= join(texts, "|"@));
    }
    assert(written(group) == "("@ + written(inner) + ")"@);
    assert(written(members_expr(fragments, ws)) == written(group) + "?"@);
    assert(written(members_expr(fragments, ws)) =~= "("@ + join(texts, "|"@) + ")?"@);
    assert(unambiguous(Expr::Nothing));
    assert(unambiguous(inner));
    assert(unambiguous(group));
    assert forall|i: int, text: Seq<char>|
        0 <= i < fragments.len() && #[trigger] accepts(fragments[i], text) implies accepts(
        members_expr(fragments, ws),
        text,
    ) by {
        lemma_candidate_written(fragments, ws, i, text);
        lemma_any_of(exprs, text);
        assert(accepts(exprs[i], text));
        assert(accepts(inner, text));
        assert(accepts(group, text));
    }
}

/// Whether `values` are the expressions of the values of the properties
/// of `obj`, none of them required, under the whitespace `ws`.
pub open spec fn optional_properties(obj: Members, props: Members, values: Seq<Expr>, ws: Expr) -> bool {
    &&& lookup(obj, "properties"@) == Some(JsonValue::Object(props))
    &&& values.len() == props.len()
    &&& plain(ws)
    &&& forall|i: int|
        0 <= i < props.len() ==> plain(#[trigger] values[i]) && compile(props[i].1, written(ws))
            == Ok::<Seq<char>, SchemaError>(written(values[i]))
    &&& forall|i: int|
        0 <= i < props.len() ==> !is_required(required_names(obj), (#[trigger] props[i]).0)
}

/// An object all of whose properties are optional: where the value of
/// each property compiles to the pattern of an expression, the object
/// compiles to the pattern of `{`, whitespace, the members, whitespace,
/// `}`.
pub proof fn lemma_optional_properties_language(
    obj: Members,
    props: Members,
    values: Seq<Expr>,
    ws: Expr,
)
    requires
        optional_properties(obj, props, values, ws),
    ensures
        properties_pattern(obj, written(ws)) == Ok::<Seq<char>, SchemaError>(
            written(optional_object_expr(property_exprs(props, values, ws), ws)),
        ),
        unambiguous(optional_object_expr(property_exprs(props, values, ws), ws)),
        forall|j: int|
            0 <= j < props.len() ==> plain(#[trigger] property_exprs(props, values, ws)[j]),
{
    let fragments = property_exprs(props, values, ws);
    lemma_position_within(obj, "properties"@, obj.len() as int);
    lemma_fragments_from_each(props, values, ws, 0);
    assert(all_written(fragments).skip(0) =~= all_written(fragments));
    lemma_none_required(props, required_names(obj), props.len() as int);
    assert forall|j: int| 0 <= j < fragments.len() implies plain(#[trigger] fragments[j]) by {
        assert(plain(values[j]));
        lemma_property_written(props[j].0, values[j], ws);
    }
    lemma_object_written(fragments, ws);
}

/// An object expression is written between escaped braces, with the
/// whitespace pattern inside each.
pub proof fn lemma_object_written(fragments: Seq<Expr>, ws: Expr)
    requires
        plain(ws),
        forall|j: int| 0 <= j < fragments.len() ==> plain(#[trigger] fragments[j]),
    ensures
        written(optional_object_expr(fragments, ws)) == "\\{"@ + written(ws) + ("("@ + join(
            candidates(all_written(fragments), written(ws)),
            "|"@,
        ) + ")?"@) + written(ws) + "\\}"@,
        unambiguous(optional_object_expr(fragments, ws)),
{
    let whole = optional_object_expr(fragments, ws);
    lemma_members_written(fragments, ws);
    let members = members_expr(fragments, ws);
    let opened = Expr::Then(Box::new(Expr::Literal('{')), Box::new(ws));
    let filled = Expr::Then(Box::new(opened), Box::new(members));
    let spaced = Expr::Then(Box::new(filled), Box::new(ws));
    reveal_strlit("\\{");
    reveal_strlit("\\}");
    assert(written(Expr::Literal('{')) =~= "\\{"@);
    assert(written(Expr::Literal('}')) =~= "\\}"@);
    assert(written(opened) == written(Expr::Literal('{')) + written(ws));
    assert(written(filled) == written(opened) + written(members));
    assert(written(spaced) == written(filled) + written(ws));
    assert(written(whole) == written(spaced) + written(Expr::Literal('}')));
    assert(unambiguous(Expr::Literal('{')));
    assert(unambiguous(Expr::Literal('}')));
    assert(unambiguous(opened));
    assert(unambiguous(filled));
    assert(unambiguous(spaced));
}

/// An object expression accepts its braces around whitespace, a text of
/// the members, and whitespace.
pub proof fn lemma_object_accepts(
    fragments: Seq<Expr>,
    ws: Expr,
    left: Seq<char>,
    member: Seq<char>,
    right: Seq<char>,
)
    requires
        accepts(ws, left),
        accepts(ws, right),
        accepts(members_expr(fragments, ws), member),
    ensures
        accepts(
            optional_object_expr(fragments, ws),
            seq!['{'] + left + member + right + seq!['}'],
        ),
{
    let members = members_expr(fragments, ws);
    let opened = Expr::Then(Box::new(Expr::Literal('{')), Box::new(ws));
    let filled = Expr::Then(Box::new(opened), Box::new(members));
    let spaced = Expr::Then(Box::new(filled), Box::new(ws));
    assert(accepts(Expr::Literal('{'), seq!['{']));
    assert(accepts(Expr::Literal('}'), seq!['}']));
    lemma_then_accepts(Expr::Literal('{'), ws, seq!['{'], left);
    lemma_then_accepts(opened, members, seq!['{'] + left, member);
    lemma_then_accepts(filled, ws, seq!['{'] + left + member, right);
    lemma_then_accepts(spaced, Expr::Literal('}'), seq!['{'] + left + member + right, seq!['}']);
}

/// An object all of whose properties are optional accepts the empty
/// object: the two braces around whitespace.
pub proof fn lemma_optional_properties_accept_none(
    obj: Members,
    props: Members,
    values: Seq<Expr>,
    ws: Expr,
    left: Seq<char>,
    right: Seq<char>,
)
    requires
        optional_properties(obj, props, values, ws),
        accepts(ws, left),
        accepts(ws, right),
    ensures
        accepts(
            optional_object_expr(property_exprs(props, values, ws), ws),
            seq!['{'] + left + right + seq!['}'],
        ),
{
    let fragments = property_exprs(props, values, ws);
    lemma_optional_properties_language(obj, props, values, ws);
    lemma_members_written(fragments, ws);
    let member = Seq::<char>::empty();
    lemma_object_accepts(fragments, ws, left, member, right);
    assert(seq!['{'] + left + member + right + seq!['}'] =~= seq!['{'] + left + right + seq!['}']);
}

/// An object all of whose properties are optional accepts the object
/// that holds any one of them alone.
pub proof fn lemma_optional_properties_accept_one(
    obj: Members,
    props: Members,
    values: Seq<Expr>,
    ws: Expr,
    i: int,
    left: Seq<char>,
    member: Seq<char>,
    right: Seq<char>,
)
    requires
        optional_properties(obj, props, values, ws),
        0 <= i < props.len(),
        accepts(ws, left),
        accepts(ws, right),
        accepts(property_exprs(props, values, ws)[i], member),
    ensures
        accepts(
            optional_object_expr(property_exprs(props, values, ws), ws),
            seq!['{'] + left + member + right + seq!['}'],
        ),
{
    let fragments = property_exprs(props, values, ws);
    lemma_optional_properties_language(obj, props, values, ws);
    lemma_members_written(fragments, ws);
    assert(accepts(fragments[i], member));
    lemma_object_accepts(fragments, ws, left, member, right);
}

} // verus!

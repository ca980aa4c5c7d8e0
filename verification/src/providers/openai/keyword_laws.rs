//! What sanitizing does to each keyword of a schema.

use crate::json::key::{key_lt, lemma_key_lt_irreflexive};
use crate::json::lemmas::lemma_lookup_is_member;
use crate::json::model::{
    keys, lemma_lookup_first, lookup, only, well_formed, JsonView, Members,
};
use crate::providers::openai::laws::law_keyword_by_keyword;
use crate::providers::openai::spec::{role_of, sanitized, Role};
use vstd::prelude::*;

verus! {

/// What the keywords with schemas inside hold, and that they are different from the others.
proof fn lemma_names()
    ensures
        role_of("items"@) == Role::Schema,
        role_of("$defs"@) == Role::Schemas,
        role_of("properties"@) == Role::Schemas,
        role_of("anyOf"@) == Role::Variants,
        role_of("oneOf"@) == Role::Variants,
        role_of("allOf"@) == Role::Variants,
        role_of("required"@) == Role::Plain,
        role_of("additionalProperties"@) == Role::Plain,
        "items"@.len() == 5,
        "$defs"@.len() == 5,
        "anyOf"@.len() == 5,
        "oneOf"@.len() == 5,
        "allOf"@.len() == 5,
        "properties"@.len() == 10,
        "required"@.len() == 8,
        "additionalProperties"@.len() == 20,
        "items"@[0] == 'i',
        "$defs"@[0] == '$',
        "oneOf"@[0] == 'o',
        "anyOf"@[0] == 'a',
        "allOf"@[0] == 'a',
        "anyOf"@[1] == 'n',
        "allOf"@[1] == 'l',
{
    reveal_strlit("items");
    reveal_strlit("$defs");
    reveal_strlit("properties");
    reveal_strlit("anyOf");
    reveal_strlit("oneOf");
    reveal_strlit("allOf");
    reveal_strlit("required");
    reveal_strlit("additionalProperties");
    assert("items"@.len() == 5 && "$defs"@.len() == 5 && "properties"@.len() == 10);
    assert("anyOf"@.len() == 5 && "oneOf"@.len() == 5 && "allOf"@.len() == 5);
    assert("required"@.len() == 8 && "additionalProperties"@.len() == 20);
    assert("items"@[0] == 'i' && "$defs"@[0] == '$' && "oneOf"@[0] == 'o');
    assert("anyOf"@[1] == 'n' && "allOf"@[1] == 'l');
}

/// Of members with one of a name, only that one has the name.
proof fn lemma_only_one(members: Members, key: Seq<char>, i: int)
    requires
        0 <= i < members.len(),
        members[i].0 == key,
        forall|j: int| 0 <= j < members.len() && j != i ==> (#[trigger] members[j]).0 != key,
    ensures
        only(members, key) == seq![members[i]],
    decreases members.len(),
{
    reveal(Seq::filter);
    let front = members.drop_last();
    if i == members.len() - 1 {
        lemma_only_none(front, key);
    } else {
        assert(front[i] == members[i]);
        lemma_only_one(front, key, i);
        assert(members.last().0 != key);
    }
    assert(only(members, key) =~= seq![members[i]]);
}

/// Of members without a name none has it.
proof fn lemma_only_none(members: Members, key: Seq<char>)
    requires
        forall|j: int| 0 <= j < members.len() ==> (#[trigger] members[j]).0 != key,
    ensures
        only(members, key) == Members::empty(),
    decreases members.len(),
{
    reveal(Seq::filter);
    if members.len() > 0 {
        assert(members.last().0 != key);
        lemma_only_none(members.drop_last(), key);
    }
    assert(only(members, key) =~= Members::empty());
}

/// A schema with one `$ref` among its members, whatever the others are, keeps that member and no
/// other.
pub proof fn law_reference_stands_alone(members: Members, strict: bool, i: int)
    requires
        0 <= i < members.len(),
        members[i].0 == "$ref"@,
        forall|j: int| 0 <= j < members.len() && j != i ==> (#[trigger] members[j]).0 != "$ref"@,
    ensures
        sanitized(JsonView::Object(members), strict) == JsonView::Object(
            seq![("$ref"@, members[i].1)],
        ),
{
    lemma_lookup_first(members, "$ref"@, i);
    lemma_only_one(members, "$ref"@, i);
    assert(members[i] == ("$ref"@, members[i].1));
}

/// A well-formed schema that has a `$ref` keeps what it refers to and nothing else.
pub proof fn law_reference_is_kept(members: Members, strict: bool)
    requires
        well_formed(JsonView::Object(members)),
        lookup(members, "$ref"@) is Some,
    ensures
        sanitized(JsonView::Object(members), strict) == JsonView::Object(
            seq![("$ref"@, lookup(members, "$ref"@)->0)],
        ),
{
    let i = lemma_lookup_is_member(members, "$ref"@);
    assert forall|j: int| 0 <= j < members.len() && j != i implies (#[trigger] members[j]).0
        != "$ref"@ by {
        lemma_key_lt_irreflexive("$ref"@);
        if j < i {
            assert(key_lt(members[j].0, members[i].0));
        } else {
            assert(key_lt(members[i].0, members[j].0));
        }
    }
    law_reference_stands_alone(members, strict, i);
}

/// What is no object is no schema to sanitize.
pub proof fn law_only_objects_change(schema: JsonView, strict: bool)
    requires
        !(schema is Object),
    ensures
        sanitized(schema, strict) == schema,
{
}

/// The items of `result` from `start` on are those of `items`, each sanitized.
pub open spec fn sanitized_from(
    result: Seq<JsonView>,
    start: int,
    items: Seq<JsonView>,
    strict: bool,
) -> bool {
    &&& result.len() == start + items.len()
    &&& forall|i: int|
        0 <= i < items.len() ==> #[trigger] result[start + i] == sanitized(items[i], strict)
}

/// No `oneOf` is left, and every schema that stood in it stands in `anyOf`, behind those that stood
/// there before.
pub proof fn law_one_of_becomes_any_of(members: Members, strict: bool)
    requires
        lookup(members, "$ref"@) is None,
    ensures
        sanitized(JsonView::Object(members), strict) matches JsonView::Object(after) && {
            let (any_of, one_of) = (lookup(members, "anyOf"@), lookup(members, "oneOf"@));
            let result = lookup(after, "anyOf"@);
            &&& lookup(after, "oneOf"@) is None
            &&& match (any_of, one_of) {
                (Some(JsonView::Array(xs)), Some(JsonView::Array(ys))) => {
                    result matches Some(JsonView::Array(zs)) && zs.len() == xs.len() + ys.len()
                        && sanitized_from(zs.take(xs.len() as int), 0, xs, strict)
                        && sanitized_from(zs, xs.len() as int, ys, strict)
                },
                (Some(JsonView::Array(xs)), _) => {
                    result matches Some(JsonView::Array(zs)) && sanitized_from(zs, 0, xs, strict)
                },
                (_, Some(JsonView::Array(ys))) => {
                    result matches Some(JsonView::Array(zs)) && sanitized_from(zs, 0, ys, strict)
                },
                (_, Some(value)) => result == Some(value),
                (_, None) => result == any_of,
            }
        },
{
    lemma_names();
    law_keyword_by_keyword(members, strict, "oneOf"@);
    law_keyword_by_keyword(members, strict, "anyOf"@);
}

/// The schemas inside a schema are sanitized in the same mode, and everything round them stays:
/// those under `items`, in `allOf`, and those of the members of `properties` and `$defs`.
pub proof fn law_schemas_inside_are_sanitized(members: Members, strict: bool)
    requires
        lookup(members, "$ref"@) is None,
    ensures
        sanitized(JsonView::Object(members), strict) matches JsonView::Object(after) && {
            &&& match lookup(members, "items"@) {
                Some(value) => lookup(after, "items"@) == Some(sanitized(value, strict)),
                None => lookup(after, "items"@) is None,
            }
            &&& match lookup(members, "allOf"@) {
                Some(JsonView::Array(xs)) => {
                    lookup(after, "allOf"@) matches Some(JsonView::Array(zs)) && sanitized_from(
                        zs,
                        0,
                        xs,
                        strict,
                    )
                },
                other => lookup(after, "allOf"@) == other,
            }
            &&& members_sanitized(lookup(members, "properties"@), lookup(after, "properties"@), strict)
            &&& members_sanitized(lookup(members, "$defs"@), lookup(after, "$defs"@), strict)
        },
{
    lemma_names();
    law_keyword_by_keyword(members, strict, "items"@);
    law_keyword_by_keyword(members, strict, "allOf"@);
    law_keyword_by_keyword(members, strict, "properties"@);
    law_keyword_by_keyword(members, strict, "$defs"@);
}

/// `after` is the object `before` with each of its values sanitized; what is no object is the same.
pub open spec fn members_sanitized(
    before: Option<JsonView>,
    after: Option<JsonView>,
    strict: bool,
) -> bool {
    match before {
        Some(JsonView::Object(xs)) => {
            after matches Some(JsonView::Object(zs)) && zs.len() == xs.len() && forall|i: int|
                0 <= i < xs.len() ==> #[trigger] zs[i] == (xs[i].0, sanitized(xs[i].1, strict))
        },
        _ => after == before,
    }
}

/// In strict mode `required` has one string for each property, its name, in the order of the
/// properties. So no property is left out.
pub proof fn law_every_property_is_required(members: Members, properties: Members)
    requires
        lookup(members, "$ref"@) is None,
        lookup(members, "properties"@) == Some(JsonView::Object(properties)),
    ensures
        sanitized(JsonView::Object(members), true) matches JsonView::Object(after) && lookup(
            after,
            "required"@,
        ) matches Some(JsonView::Array(names)) && {
            &&& names.len() == properties.len()
            &&& forall|i: int|
                0 <= i < properties.len() ==> #[trigger] names[i] == JsonView::String(
                    properties[i].0,
                )
            &&& forall|i: int|
                0 <= i < properties.len() ==> names.contains(
                    JsonView::String((#[trigger] properties[i]).0),
                )
        },
{
    law_keyword_by_keyword(members, true, "required"@);
    lemma_names();
    let names = keys(properties);
    assert forall|i: int| 0 <= i < properties.len() implies names.contains(
        JsonView::String((#[trigger] properties[i]).0),
    ) by {
        assert(names[i] == JsonView::String(properties[i].0));
    }
}

/// In strict mode a schema that describes an object, by its type or by naming properties, allows no
/// others, whatever it said before. Where it names no properties, what it requires stays.
pub proof fn law_every_object_is_closed(members: Members)
    requires
        lookup(members, "$ref"@) is None,
    ensures
        sanitized(JsonView::Object(members), true) matches JsonView::Object(after) && {
            &&& lookup(members, "type"@) == Some(JsonView::String("object"@)) ==> lookup(
                after,
                "additionalProperties"@,
            ) == Some(JsonView::Bool(false))
            &&& lookup(members, "properties"@) is Some ==> lookup(after, "additionalProperties"@)
                == Some(JsonView::Bool(false))
            &&& lookup(members, "type"@) != Some(JsonView::String("object"@)) && lookup(
                members,
                "properties"@,
            ) is None ==> lookup(after, "additionalProperties"@) == lookup(
                members,
                "additionalProperties"@,
            )
            &&& !(lookup(members, "properties"@) matches Some(JsonView::Object(_))) ==> lookup(
                after,
                "required"@,
            ) == lookup(members, "required"@)
        },
{
    lemma_names();
    law_keyword_by_keyword(members, true, "additionalProperties"@);
    law_keyword_by_keyword(members, true, "required"@);
}

/// Without strict mode a schema stays as open, and its properties as optional, as they were.
pub proof fn law_lenient_leaves_objects_open(members: Members)
    requires
        lookup(members, "$ref"@) is None,
    ensures
        sanitized(JsonView::Object(members), false) matches JsonView::Object(after) && {
            &&& lookup(after, "additionalProperties"@) == lookup(members, "additionalProperties"@)
            &&& lookup(after, "required"@) == lookup(members, "required"@)
        },
{
    lemma_names();
    law_keyword_by_keyword(members, false, "additionalProperties"@);
    law_keyword_by_keyword(members, false, "required"@);
}

/// Every keyword but the eight that sanitizing speaks of holds what it held, in both modes.
pub proof fn law_other_keywords_stay(members: Members, strict: bool, keyword: Seq<char>)
    requires
        lookup(members, "$ref"@) is None,
        keyword != "items"@,
        keyword != "$defs"@,
        keyword != "properties"@,
        keyword != "anyOf"@,
        keyword != "oneOf"@,
        keyword != "allOf"@,
        keyword != "required"@,
        keyword != "additionalProperties"@,
    ensures
        sanitized(JsonView::Object(members), strict) matches JsonView::Object(after) && lookup(
            after,
            keyword,
        ) == lookup(members, keyword),
{
    law_keyword_by_keyword(members, strict, keyword);
}

} // verus!

//! What holds of every sanitized schema.

use crate::json::lemmas::{
    lemma_filter_well_formed, lemma_lookup_is_member, lemma_lookup_put, lemma_lookup_without,
    lemma_member_is_found, lemma_put_well_formed, lemma_same_lookups, values_well_formed,
};
use crate::json::model::{
    has_key, keys, lemma_filter_all, lemma_no_such_key, lemma_put_same, lookup, named, other_than,
    sorted, well_formed, without, JsonView, Members,
};
use crate::providers::openai::spec::{
    is_object_schema, no_additional, one_of_folded, role_of, sanitized, sanitized_field,
    sanitized_fields, Role,
};
use vstd::prelude::*;

verus! {

/// The keywords with a meaning of their own are different.
proof fn lemma_keywords()
    ensures
        role_of("$ref"@) == Role::Plain,
        role_of("type"@) == Role::Plain,
        role_of("additionalProperties"@) == Role::Plain,
        role_of("required"@) == Role::Plain,
        role_of("properties"@) == Role::Schemas,
        role_of("anyOf"@) == Role::Variants,
        role_of("oneOf"@) == Role::Variants,
        "$ref"@ != "type"@,
        "$ref"@ != "additionalProperties"@,
        "$ref"@ != "required"@,
        "$ref"@ != "properties"@,
        "$ref"@ != "anyOf"@,
        "$ref"@ != "oneOf"@,
        "type"@ != "additionalProperties"@,
        "type"@ != "required"@,
        "type"@ != "properties"@,
        "type"@ != "anyOf"@,
        "type"@ != "oneOf"@,
        "additionalProperties"@ != "required"@,
        "additionalProperties"@ != "properties"@,
        "additionalProperties"@ != "anyOf"@,
        "additionalProperties"@ != "oneOf"@,
        "required"@ != "properties"@,
        "required"@ != "anyOf"@,
        "required"@ != "oneOf"@,
        "properties"@ != "anyOf"@,
        "properties"@ != "oneOf"@,
        "anyOf"@ != "oneOf"@,
{
    reveal_strlit("$ref");
    reveal_strlit("type");
    reveal_strlit("items");
    reveal_strlit("$defs");
    reveal_strlit("additionalProperties");
    reveal_strlit("required");
    reveal_strlit("properties");
    reveal_strlit("anyOf");
    reveal_strlit("oneOf");
    reveal_strlit("allOf");
    assert("$ref"@.len() == 4 && "type"@.len() == 4 && "items"@.len() == 5 && "$defs"@.len() == 5);
    assert("anyOf"@.len() == 5 && "oneOf"@.len() == 5 && "allOf"@.len() == 5);
    assert("required"@.len() == 8 && "properties"@.len() == 10);
    assert("additionalProperties"@.len() == 20);
    assert("$ref"@[0] == '$' && "type"@[0] == 't');
    assert("items"@[0] == 'i' && "$defs"@[0] == '$' && "anyOf"@[0] == 'a' && "oneOf"@[0] == 'o');
    assert("anyOf"@[1] == 'n' && "allOf"@[1] == 'l');
}

/// What `anyOf` holds once `oneOf` has been folded into it.
pub open spec fn joined(any_of: Option<JsonView>, one_of: Option<JsonView>) -> Option<JsonView> {
    match (any_of, one_of) {
        (_, None) => any_of,
        (Some(JsonView::Array(existing)), Some(JsonView::Array(incoming))) => Some(
            JsonView::Array(existing + incoming),
        ),
        (Some(JsonView::Array(_)), Some(_)) => any_of,
        (_, Some(_)) => one_of,
    }
}

/// What stands under `keyword`, with the schemas that it holds sanitized.
pub open spec fn kept(members: Members, strict: bool, keyword: Seq<char>) -> Option<JsonView> {
    match lookup(members, keyword) {
        Some(value) => Some(sanitized_field(role_of(keyword), value, strict)),
        None => None,
    }
}

/// What stands under `keyword` in a sanitized schema without `$ref`.
pub open spec fn outcome(members: Members, strict: bool, keyword: Seq<char>) -> Option<JsonView> {
    if keyword == "oneOf"@ {
        None
    } else if keyword == "anyOf"@ {
        joined(kept(members, strict, "anyOf"@), kept(members, strict, "oneOf"@))
    } else if strict && keyword == "required"@ && (lookup(members, "properties"@) matches Some(
        JsonView::Object(_),
    )) {
        Some(JsonView::Array(keys(lookup(members, "properties"@)->0->Object_0)))
    } else if strict && keyword == "additionalProperties"@ && is_object_schema(members) {
        Some(JsonView::Bool(false))
    } else {
        kept(members, strict, keyword)
    }
}

/// Sanitizing the fields goes keyword by keyword.
proof fn lemma_lookup_fields(members: Members, strict: bool, keyword: Seq<char>)
    ensures
        lookup(sanitized_fields(members, strict), keyword) == kept(members, strict, keyword),
    decreases members.len(),
{
    if members.len() > 0 {
        let fields = sanitized_fields(members, strict);
        assert(fields.drop_first() =~= sanitized_fields(members.drop_first(), strict));
        lemma_lookup_fields(members.drop_first(), strict, keyword);
    }
}

/// The names of the properties outlast the sanitizing of their schemas.
proof fn lemma_same_keys(properties: Members, strict: bool)
    ensures
        sanitized_field(Role::Schemas, JsonView::Object(properties), strict) is Object,
        keys(
            sanitized_field(Role::Schemas, JsonView::Object(properties), strict)->Object_0,
        ) == keys(properties),
{
    let after = sanitized_field(Role::Schemas, JsonView::Object(properties), strict)->Object_0;
    assert(keys(after) =~= keys(properties));
}

/// A schema without `$ref` is sanitized keyword by keyword: `oneOf` is gone, `anyOf` has taken it
/// up, in strict mode `required` lists the properties and an object schema is closed, and everything
/// else stays, with the schemas inside sanitized.
pub proof fn law_keyword_by_keyword(members: Members, strict: bool, keyword: Seq<char>)
    requires
        !has_key(members, "$ref"@),
    ensures
        sanitized(JsonView::Object(members), strict) is Object,
        lookup(sanitized(JsonView::Object(members), strict)->Object_0, keyword) == outcome(
            members,
            strict,
            keyword,
        ),
{
    lemma_keywords();
    let fields = sanitized_fields(members, strict);
    let folded = one_of_folded(fields);
    lemma_lookup_fields(members, strict, keyword);
    lemma_lookup_fields(members, strict, "oneOf"@);
    lemma_lookup_fields(members, strict, "anyOf"@);
    lemma_lookup_fields(members, strict, "type"@);
    lemma_lookup_fields(members, strict, "properties"@);
    lemma_lookup_fields(members, strict, "additionalProperties"@);
    lemma_lookup_folded(fields, keyword);
    lemma_lookup_folded(fields, "type"@);
    lemma_lookup_folded(fields, "properties"@);
    lemma_lookup_folded(fields, "additionalProperties"@);
    lemma_lookup_put(folded, "additionalProperties"@, JsonView::Bool(false), keyword);
    lemma_lookup_put(folded, "additionalProperties"@, JsonView::Bool(false), "properties"@);
    let open = no_additional(folded);
    if let Some(JsonView::Object(properties)) = lookup(members, "properties"@) {
        lemma_same_keys(properties, strict);
    }
    if let Some(JsonView::Object(properties)) = lookup(open, "properties"@) {
        lemma_lookup_put(open, "required"@, JsonView::Array(keys(properties)), keyword);
    }
}

/// A keyword that holds no schemas stays as it is, but for the two that strict mode sets: `required`,
/// and `additionalProperties` in an object schema.
pub proof fn law_plain_keywords_stay(members: Members, strict: bool, keyword: Seq<char>)
    requires
        !has_key(members, "$ref"@),
        role_of(keyword) is Plain,
        strict ==> keyword != "required"@,
        strict && keyword == "additionalProperties"@ ==> !is_object_schema(members),
    ensures
        lookup(sanitized(JsonView::Object(members), strict)->Object_0, keyword) == lookup(
            members,
            keyword,
        ),
{
    law_keyword_by_keyword(members, strict, keyword);
}

/// What folding `oneOf` into `anyOf` leaves under a keyword.
proof fn lemma_lookup_folded(members: Members, keyword: Seq<char>)
    ensures
        lookup(one_of_folded(members), keyword) == if keyword == "oneOf"@ {
            None
        } else if keyword == "anyOf"@ {
            joined(lookup(members, "anyOf"@), lookup(members, "oneOf"@))
        } else {
            lookup(members, keyword)
        },
{
    lemma_keywords();
    if let Some(one_of) = lookup(members, "oneOf"@) {
        let rest = without(members, "oneOf"@);
        lemma_lookup_without(members, "oneOf"@, keyword);
        lemma_lookup_without(members, "oneOf"@, "anyOf"@);
        lemma_lookup_put(rest, "anyOf"@, one_of, keyword);
        if let (Some(JsonView::Array(existing)), JsonView::Array(incoming)) = (
            lookup(rest, "anyOf"@),
            one_of,
        ) {
            lemma_lookup_put(rest, "anyOf"@, JsonView::Array(existing + incoming), keyword);
        }
    }
}

/// Sanitizing keeps every object's keys in order and each of them once.
pub proof fn law_sanitized_is_well_formed(schema: JsonView, strict: bool)
    requires
        well_formed(schema),
    ensures
        well_formed(sanitized(schema, strict)),
    decreases schema, 0int,
{
    if let JsonView::Object(members) = schema {
        if has_key(members, "$ref"@) {
            lemma_filter_well_formed(members, named("$ref"@));
        } else {
            let fields = sanitized_fields(members, strict);
            assert forall|i: int| 0 <= i < fields.len() implies well_formed(
                (#[trigger] fields[i]).1,
            ) by {
                assert(decreases_to!(schema => members[i].1));
                lemma_field_well_formed(role_of(members[i].0), members[i].1, strict);
            }
            assert(sorted(fields)) by {
                assert forall|i: int, j: int| 0 <= i < j < fields.len() implies
                    crate::json::key::key_lt(#[trigger] fields[i].0, #[trigger] fields[j].0) by {
                    assert(crate::json::key::key_lt(members[i].0, members[j].0));
                }
            }
            lemma_fold_well_formed(fields);
            let folded = one_of_folded(fields);
            lemma_put_well_formed(folded, "additionalProperties"@, JsonView::Bool(false));
            let open = no_additional(folded);
            if let Some(JsonView::Object(properties)) = lookup(open, "properties"@) {
                let names = keys(properties);
                assert forall|i: int| 0 <= i < names.len() implies well_formed(
                    #[trigger] names[i],
                ) by {
                    assert(names[i] == JsonView::String(properties[i].0));
                }
                lemma_put_well_formed(open, "required"@, JsonView::Array(names));
            }
        }
    }
}

proof fn lemma_fold_well_formed(members: Members)
    requires
        sorted(members),
        values_well_formed(members),
    ensures
        sorted(one_of_folded(members)),
        values_well_formed(one_of_folded(members)),
{
    if let Some(one_of) = lookup(members, "oneOf"@) {
        let rest = without(members, "oneOf"@);
        let i = lemma_lookup_is_member(members, "oneOf"@);
        lemma_filter_well_formed(members, other_than("oneOf"@));
        lemma_put_well_formed(rest, "anyOf"@, one_of);
        if let (Some(JsonView::Array(existing)), JsonView::Array(incoming)) = (
            lookup(rest, "anyOf"@),
            one_of,
        ) {
            let j = lemma_lookup_is_member(rest, "anyOf"@);
            assert(well_formed(rest[j].1));
            assert(well_formed(members[i].1));
            let both = existing + incoming;
            assert forall|k: int| 0 <= k < both.len() implies well_formed(#[trigger] both[k]) by {
                if k < existing.len() {
                    assert(both[k] == existing[k]);
                } else {
                    assert(both[k] == incoming[k - existing.len()]);
                }
            }
            lemma_put_well_formed(rest, "anyOf"@, JsonView::Array(both));
        }
    }
}

proof fn lemma_field_well_formed(role: Role, value: JsonView, strict: bool)
    requires
        well_formed(value),
    ensures
        well_formed(sanitized_field(role, value, strict)),
    decreases value, 1int,
{
    match (role, value) {
        (Role::Schema, _) => law_sanitized_is_well_formed(value, strict),
        (Role::Schemas, JsonView::Object(members)) => {
            let after = sanitized_field(role, value, strict)->Object_0;
            assert forall|i: int| 0 <= i < after.len() implies well_formed(
                (#[trigger] after[i]).1,
            ) by {
                assert(well_formed(members[i].1));
                law_sanitized_is_well_formed(members[i].1, strict);
            }
            assert forall|i: int, j: int| 0 <= i < j < after.len() implies
                crate::json::key::key_lt(#[trigger] after[i].0, #[trigger] after[j].0) by {
                assert(crate::json::key::key_lt(members[i].0, members[j].0));
            }
        },
        (Role::Variants, JsonView::Array(items)) => {
            let after = sanitized_field(role, value, strict)->Array_0;
            assert forall|i: int| 0 <= i < after.len() implies well_formed(#[trigger] after[i]) by {
                assert(well_formed(items[i]));
                law_sanitized_is_well_formed(items[i], strict);
            }
        },
        _ => {},
    }
}

/// The schema has nothing to sanitize: at every depth a reference stands alone, there is no `oneOf`,
/// and in strict mode every object schema allows no further properties and requires all that it
/// names.
pub open spec fn is_clean(schema: JsonView, strict: bool) -> bool
    decreases schema, 0int,
{
    match schema {
        JsonView::Object(members) => if has_key(members, "$ref"@) {
            forall|i: int| 0 <= i < members.len() ==> (#[trigger] members[i]).0 == "$ref"@
        } else {
            &&& !has_key(members, "oneOf"@)
            &&& strict && is_object_schema(members) ==> lookup(members, "additionalProperties"@)
                == Some(JsonView::Bool(false))
            &&& strict ==> (lookup(members, "properties"@) matches Some(
                JsonView::Object(properties),
            ) ==> lookup(members, "required"@) == Some(JsonView::Array(keys(properties))))
            &&& forall|i: int|
                0 <= i < members.len() ==> field_is_clean(
                    role_of((#[trigger] members[i]).0),
                    members[i].1,
                    strict,
                )
        },
        _ => true,
    }
}

/// The schemas that a keyword holds have nothing to sanitize.
pub open spec fn field_is_clean(role: Role, value: JsonView, strict: bool) -> bool
    decreases value, 1int,
{
    match (role, value) {
        (Role::Schema, _) => is_clean(value, strict),
        (Role::Schemas, JsonView::Object(members)) => forall|i: int|
            0 <= i < members.len() ==> is_clean((#[trigger] members[i]).1, strict),
        (Role::Variants, JsonView::Array(items)) => forall|i: int|
            0 <= i < items.len() ==> is_clean(#[trigger] items[i], strict),
        _ => true,
    }
}

/// A sanitized schema has nothing left to sanitize.
pub proof fn law_sanitized_is_clean(schema: JsonView, strict: bool)
    requires
        well_formed(schema),
    ensures
        is_clean(sanitized(schema, strict), strict),
    decreases schema, 0int,
{
    if let JsonView::Object(members) = schema {
        law_sanitized_is_well_formed(schema, strict);
        let result = sanitized(schema, strict)->Object_0;
        if has_key(members, "$ref"@) {
            lemma_filter_well_formed(members, named("$ref"@));
            if !has_key(result, "$ref"@) && result.len() > 0 {
                lemma_no_such_key(result, "$ref"@);
                assert(named("$ref"@)(result[0]));
            }
            if result.len() == 0 {
                let i = lemma_lookup_is_member(members, "$ref"@);
                assert(named("$ref"@)(members[i]));
                lemma_filter_keeps(members, named("$ref"@), i);
            }
            assert forall|i: int| 0 <= i < result.len() implies (#[trigger] result[i]).0
                == "$ref"@ by {
                assert(named("$ref"@)(result[i]));
            }
        } else {
            lemma_keywords();
            law_keyword_by_keyword(members, strict, "$ref"@);
            law_keyword_by_keyword(members, strict, "oneOf"@);
            law_keyword_by_keyword(members, strict, "type"@);
            law_keyword_by_keyword(members, strict, "properties"@);
            law_keyword_by_keyword(members, strict, "required"@);
            law_keyword_by_keyword(members, strict, "additionalProperties"@);
            if let Some(JsonView::Object(properties)) = lookup(members, "properties"@) {
                lemma_same_keys(properties, strict);
            }
            assert forall|i: int| 0 <= i < result.len() implies field_is_clean(
                role_of((#[trigger] result[i]).0),
                result[i].1,
                strict,
            ) by {
                let keyword = result[i].0;
                lemma_member_is_found(result, i);
                law_keyword_by_keyword(members, strict, keyword);
                if has_key(members, keyword) {
                    let j = lemma_lookup_is_member(members, keyword);
                    assert(decreases_to!(schema => members[j].1));
                    lemma_field_is_clean(role_of(keyword), members[j].1, strict);
                }
                if keyword == "anyOf"@ && has_key(members, "oneOf"@) {
                    let j = lemma_lookup_is_member(members, "oneOf"@);
                    assert(decreases_to!(schema => members[j].1));
                    lemma_field_is_clean(Role::Variants, members[j].1, strict);
                    lemma_joined_is_clean(
                        kept(members, strict, "anyOf"@),
                        members[j].1,
                        strict,
                    );
                }
            }
        }
    }
}

proof fn lemma_filter_keeps<A>(s: Seq<A>, keep: spec_fn(A) -> bool, i: int)
    requires
        0 <= i < s.len(),
        keep(s[i]),
    ensures
        s.filter(keep).len() > 0,
    decreases s.len(),
{
    crate::json::lemmas::lemma_filter_head(s, keep);
    if i > 0 {
        lemma_filter_keeps(s.drop_first(), keep, i - 1);
    }
}

proof fn lemma_joined_is_clean(any_of: Option<JsonView>, one_of: JsonView, strict: bool)
    requires
        any_of matches Some(value) ==> field_is_clean(Role::Variants, value, strict),
        field_is_clean(Role::Variants, sanitized_field(Role::Variants, one_of, strict), strict),
    ensures
        joined(any_of, Some(sanitized_field(Role::Variants, one_of, strict))) matches Some(value)
            ==> field_is_clean(Role::Variants, value, strict),
{
    let after = sanitized_field(Role::Variants, one_of, strict);
    if let (Some(JsonView::Array(existing)), JsonView::Array(incoming)) = (any_of, after) {
        let both = existing + incoming;
        assert forall|k: int| 0 <= k < both.len() implies is_clean(#[trigger] both[k], strict) by {
            if k < existing.len() {
                assert(both[k] == existing[k]);
            } else {
                assert(both[k] == incoming[k - existing.len()]);
            }
        }
    }
}

proof fn lemma_field_is_clean(role: Role, value: JsonView, strict: bool)
    requires
        well_formed(value),
    ensures
        field_is_clean(role, sanitized_field(role, value, strict), strict),
    decreases value, 1int,
{
    match (role, value) {
        (Role::Schema, _) => law_sanitized_is_clean(value, strict),
        (Role::Schemas, JsonView::Object(members)) => {
            let after = sanitized_field(role, value, strict)->Object_0;
            assert forall|i: int| 0 <= i < after.len() implies is_clean(
                (#[trigger] after[i]).1,
                strict,
            ) by {
                assert(well_formed(members[i].1));
                law_sanitized_is_clean(members[i].1, strict);
            }
        },
        (Role::Variants, JsonView::Array(items)) => {
            let after = sanitized_field(role, value, strict)->Array_0;
            assert forall|i: int| 0 <= i < after.len() implies is_clean(
                #[trigger] after[i],
                strict,
            ) by {
                assert(well_formed(items[i]));
                law_sanitized_is_clean(items[i], strict);
            }
        },
        _ => {},
    }
}

/// A schema that has nothing to sanitize stays as it is.
pub proof fn law_clean_is_unchanged(schema: JsonView, strict: bool)
    requires
        is_clean(schema, strict),
    ensures
        sanitized(schema, strict) == schema,
    decreases schema, 0int,
{
    if let JsonView::Object(members) = schema {
        if has_key(members, "$ref"@) {
            lemma_filter_all(members, named("$ref"@));
        } else {
            let fields = sanitized_fields(members, strict);
            assert forall|i: int| 0 <= i < members.len() implies #[trigger] fields[i]
                == members[i] by {
                assert(decreases_to!(schema => members[i].1));
                lemma_field_unchanged(role_of(members[i].0), members[i].1, strict);
            }
            assert(fields =~= members);
            if strict {
                if is_object_schema(members) {
                    lemma_put_same(members, "additionalProperties"@);
                }
                if let Some(JsonView::Object(properties)) = lookup(members, "properties"@) {
                    lemma_put_same(members, "required"@);
                }
            }
        }
    }
}

proof fn lemma_field_unchanged(role: Role, value: JsonView, strict: bool)
    requires
        field_is_clean(role, value, strict),
    ensures
        sanitized_field(role, value, strict) == value,
    decreases value, 1int,
{
    match (role, value) {
        (Role::Schema, _) => law_clean_is_unchanged(value, strict),
        (Role::Schemas, JsonView::Object(members)) => {
            let after = sanitized_field(role, value, strict)->Object_0;
            assert forall|i: int| 0 <= i < after.len() implies #[trigger] after[i]
                == members[i] by {
                law_clean_is_unchanged(members[i].1, strict);
            }
            assert(after =~= members);
        },
        (Role::Variants, JsonView::Array(items)) => {
            let after = sanitized_field(role, value, strict)->Array_0;
            assert forall|i: int| 0 <= i < after.len() implies #[trigger] after[i] == items[i] by {
                law_clean_is_unchanged(items[i], strict);
            }
            assert(after =~= items);
        },
        _ => {},
    }
}

/// Sanitizing twice is sanitizing once, in strict mode where either pass was strict. So a second
/// pass changes nothing, and it does not matter which of the two modes comes first.
pub proof fn law_sanitize_twice(schema: JsonView, first: bool, second: bool)
    requires
        well_formed(schema),
    ensures
        sanitized(sanitized(schema, first), second) == sanitized(schema, first || second),
    decreases schema, 0int,
{
    let both = first || second;
    if let JsonView::Object(members) = schema {
        if has_key(members, "$ref"@) {
            law_sanitized_is_clean(schema, first);
            let result = sanitized(schema, first)->Object_0;
            let i = lemma_lookup_is_member(members, "$ref"@);
            lemma_filter_keeps(members, named("$ref"@), i);
            if !has_key(result, "$ref"@) {
                lemma_filter_well_formed(members, named("$ref"@));
                lemma_no_such_key(result, "$ref"@);
                assert(named("$ref"@)(result[0]));
            }
            lemma_filter_all(result, named("$ref"@));
        } else {
            lemma_keywords();
            law_sanitized_is_well_formed(schema, first);
            law_sanitized_is_well_formed(schema, both);
            law_sanitized_is_well_formed(sanitized(schema, first), second);
            let result = sanitized(schema, first)->Object_0;
            law_keyword_by_keyword(members, first, "$ref"@);
            let a = sanitized(JsonView::Object(result), second)->Object_0;
            let b = sanitized(schema, both)->Object_0;
            assert forall|keyword: Seq<char>| #[trigger] lookup(a, keyword) == lookup(
                b,
                keyword,
            ) by {
                law_keyword_by_keyword(members, both, keyword);
                law_keyword_by_keyword(result, second, keyword);
                law_keyword_by_keyword(members, first, keyword);
                law_keyword_by_keyword(members, first, "oneOf"@);
                law_keyword_by_keyword(members, first, "type"@);
                law_keyword_by_keyword(members, first, "properties"@);
                law_keyword_by_keyword(members, first, "additionalProperties"@);
                if let Some(JsonView::Object(properties)) = lookup(members, "properties"@) {
                    lemma_same_keys(properties, first);
                }
                if has_key(members, keyword) {
                    let j = lemma_lookup_is_member(members, keyword);
                    assert(decreases_to!(schema => members[j].1));
                    lemma_field_twice(role_of(keyword), members[j].1, first, second);
                }
                if keyword == "anyOf"@ && has_key(members, "oneOf"@) {
                    let j = lemma_lookup_is_member(members, "oneOf"@);
                    assert(decreases_to!(schema => members[j].1));
                    lemma_field_twice(Role::Variants, members[j].1, first, second);
                    lemma_joined_twice(
                        lookup(members, "anyOf"@),
                        lookup(members, "oneOf"@)->0,
                        first,
                        second,
                    );
                }
            }
            lemma_same_lookups(a, b);
        }
    }
}

/// Joining before a second pass is joining after it.
proof fn lemma_joined_twice(
    any_of: Option<JsonView>,
    one_of: JsonView,
    first: bool,
    second: bool,
)
    requires
        any_of matches Some(value) ==> sanitized_field(
            Role::Variants,
            sanitized_field(Role::Variants, value, first),
            second,
        ) == sanitized_field(Role::Variants, value, first || second),
        sanitized_field(
            Role::Variants,
            sanitized_field(Role::Variants, one_of, first),
            second,
        ) == sanitized_field(Role::Variants, one_of, first || second),
    ensures
        ({
            let once = |strict: bool|
                joined(
                    match any_of {
                        Some(value) => Some(sanitized_field(Role::Variants, value, strict)),
                        None => None,
                    },
                    Some(sanitized_field(Role::Variants, one_of, strict)),
                );
            &&& once(first) is Some
            &&& Some(sanitized_field(Role::Variants, once(first)->0, second)) == once(
                first || second,
            )
        }),
{
    let one = sanitized_field(Role::Variants, one_of, first);
    if let Some(value) = any_of {
        let any = sanitized_field(Role::Variants, value, first);
        if let (JsonView::Array(existing), JsonView::Array(incoming)) = (any, one) {
            let joint = sanitized_field(
                Role::Variants,
                JsonView::Array(existing + incoming),
                second,
            )->Array_0;
            assert(joint =~= sanitized_field(Role::Variants, any, second)->Array_0
                + sanitized_field(Role::Variants, one, second)->Array_0);
        }
    }
}

proof fn lemma_field_twice(role: Role, value: JsonView, first: bool, second: bool)
    requires
        well_formed(value),
    ensures
        sanitized_field(role, sanitized_field(role, value, first), second) == sanitized_field(
            role,
            value,
            first || second,
        ),
    decreases value, 1int,
{
    let both = first || second;
    match (role, value) {
        (Role::Schema, _) => law_sanitize_twice(value, first, second),
        (Role::Schemas, JsonView::Object(members)) => {
            let a = sanitized_field(role, sanitized_field(role, value, first), second)->Object_0;
            let b = sanitized_field(role, value, both)->Object_0;
            assert forall|i: int| 0 <= i < members.len() implies #[trigger] a[i] == b[i] by {
                assert(well_formed(members[i].1));
                law_sanitize_twice(members[i].1, first, second);
            }
            assert(a =~= b);
        },
        (Role::Variants, JsonView::Array(items)) => {
            let a = sanitized_field(role, sanitized_field(role, value, first), second)->Array_0;
            let b = sanitized_field(role, value, both)->Array_0;
            assert forall|i: int| 0 <= i < items.len() implies #[trigger] a[i] == b[i] by {
                assert(well_formed(items[i]));
                law_sanitize_twice(items[i], first, second);
            }
            assert(a =~= b);
        },
        _ => {},
    }
}

} // verus!

//! JSON schemas for OpenAI: structured outputs and tools.

pub mod keyword_laws;
pub mod laws;
pub mod spec;

use crate::json::bridge::{take, value_view};
use crate::json::key::same_key;
use crate::json::model::{has_key, lemma_without_absent, JsonView};
use crate::json::value::{json_views, Json, JsonMap};
use crate::providers::openai::laws::law_sanitized_is_well_formed;
use crate::providers::openai::spec::{
    closed_off, one_of_folded, role_of, sanitized, sanitized_field, sanitized_fields, Role,
};
use vstd::prelude::*;

verus! {

broadcast use crate::json::value::group_json_views;

/// Sanitizes a JSON schema for strict mode, which structured outputs call for.
///
/// Every object schema in it is closed (`additionalProperties: false`, in place of what stood there)
/// and requires all its properties, on top of what [`sanitize_schema_lenient`] does.
pub fn sanitize_schema(schema: &mut serde_json::Value)
    ensures
        value_view(*final(schema)) == sanitized(value_view(*old(schema)), true),
{
    sanitize_value(schema, true);
}

/// Sanitizes the JSON schema of a function tool that may be called leniently.
///
/// A reference loses its sibling keywords and `oneOf` becomes `anyOf`, at every depth. Open maps
/// and optional properties stay as they are.
pub fn sanitize_schema_lenient(schema: &mut serde_json::Value)
    ensures
        value_view(*final(schema)) == sanitized(value_view(*old(schema)), false),
{
    sanitize_value(schema, false);
}

/// Sanitizes a schema where `serde_json` holds it.
fn sanitize_value(schema: &mut serde_json::Value, strict: bool)
    ensures
        value_view(*final(schema)) == sanitized(value_view(*old(schema)), strict),
{
    let mut json = Json::from_value(take(schema));
    proof {
        law_sanitized_is_well_formed(json@, strict);
    }
    sanitize_schema_impl(&mut json, strict);
    *schema = json.into_value();
}

/// What stands under `keyword`.
fn role(keyword: &str) -> (r: Role)
    ensures
        r == role_of(keyword@),
{
    if same_key(keyword, "items") {
        Role::Schema
    } else if same_key(keyword, "$defs") || same_key(keyword, "properties") {
        Role::Schemas
    } else if same_key(keyword, "anyOf") || same_key(keyword, "oneOf") || same_key(
        keyword,
        "allOf",
    ) {
        Role::Variants
    } else {
        Role::Plain
    }
}

/// Sanitizes a schema, for strict mode or leniently.
pub fn sanitize_schema_impl(schema: &mut Json, strict: bool)
    ensures
        final(schema)@ == sanitized(old(schema)@, strict),
    decreases old(schema)@, 0int,
{
    if let Json::Object(map) = schema {
        // A reference stands alone.
        if map.contains_key("$ref") {
            map.keep_only("$ref");
            return;
        }
        let ghost before = map@;
        let n = map.len();
        let mut i: usize = 0;
        while i < n
            invariant
                i <= n,
                n == before.len(),
                map@.len() == n,
                forall|j: int|
                    0 <= j < i ==> #[trigger] map@[j] == sanitized_fields(before, strict)[j],
                forall|j: int| i <= j < n ==> #[trigger] map@[j] == before[j],
                decreases_to!(old(schema)@ => before),
            decreases n - i,
        {
            let role = role(map.key_at(i));
            sanitize_field(role, map.value_at_mut(i), strict);
            i = i + 1;
        }
        assert(map@ =~= sanitized_fields(before, strict));
        fold_one_of(map);
        if strict {
            close_off(map);
        }
    }
}

/// Sanitizes the schemas that a keyword holds.
fn sanitize_field(role: Role, value: &mut Json, strict: bool)
    ensures
        final(value)@ == sanitized_field(role, old(value)@, strict),
    decreases old(value)@, 1int,
{
    match role {
        Role::Schema => sanitize_schema_impl(value, strict),
        Role::Schemas => {
            if let Json::Object(map) = value {
                let ghost before = map@;
                let n = map.len();
                let mut i: usize = 0;
                while i < n
                    invariant
                        i <= n,
                        n == before.len(),
                        map@.len() == n,
                        forall|j: int|
                            0 <= j < i ==> #[trigger] map@[j] == (
                                before[j].0,
                                sanitized(before[j].1, strict),
                            ),
                        forall|j: int| i <= j < n ==> #[trigger] map@[j] == before[j],
                        decreases_to!(old(value)@ => before),
                    decreases n - i,
                {
                    sanitize_schema_impl(map.value_at_mut(i), strict);
                    i = i + 1;
                }
                assert(map@ =~= sanitized_field(role, old(value)@, strict)->Object_0);
            }
        },
        Role::Variants => {
            if let Json::Array(items) = value {
                let ghost before = items@;
                let n = items.len();
                let mut i: usize = 0;
                while i < n
                    invariant
                        i <= n,
                        n == before.len(),
                        items@.len() == n,
                        forall|j: int|
                            0 <= j < i ==> (#[trigger] items@[j])@ == sanitized(
                                before[j]@,
                                strict,
                            ),
                        forall|j: int| i <= j < n ==> #[trigger] items@[j] == before[j],
                        old(value)@ == JsonView::Array(json_views(before)),
                    decreases n - i,
                {
                    assert(decreases_to!(old(value)@ => old(value)@->Array_0));
                    assert(decreases_to!(json_views(before) => json_views(before)[i as int]));
                    sanitize_schema_impl(&mut items[i], strict);
                    i = i + 1;
                }
                assert(value@->Array_0 =~= sanitized_field(role, old(value)@, strict)->Array_0);
            }
        },
        Role::Plain => {},
    }
}

/// Turns `oneOf`, which the provider does not know, into `anyOf`.
fn fold_one_of(map: &mut JsonMap)
    ensures
        final(map)@ == one_of_folded(old(map)@),
{
    proof {
        if !has_key(map@, "oneOf"@) {
            lemma_without_absent(map@, "oneOf"@);
        }
    }
    if let Some(one_of) = map.remove("oneOf") {
        let joins = match map.get("anyOf") {
            Some(Json::Array(_)) => true,
            _ => false,
        };
        if !joins {
            map.insert("anyOf".to_owned(), one_of);
        } else if let Json::Array(mut incoming) = one_of {
            if let Some(Json::Array(existing)) = map.get_mut("anyOf") {
                let ghost joined = json_views(existing@) + json_views(incoming@);
                existing.append(&mut incoming);
                assert(json_views(existing@) =~= joined);
            }
        }
    }
}

/// Closes an object schema and requires all its properties.
fn close_off(map: &mut JsonMap)
    ensures
        final(map)@ == closed_off(old(map)@, true),
{
    proof {
        reveal_strlit("object");
    }
    let names_type = match map.get("type") {
        Some(Json::String(kind)) => same_key(kind.as_str(), "object"),
        _ => false,
    };
    if names_type || map.contains_key("properties") {
        map.insert("additionalProperties".to_owned(), Json::Bool(false));
    }
    let names = match map.get("properties") {
        Some(Json::Object(properties)) => Some(properties.keys()),
        _ => None,
    };
    if let Some(names) = names {
        map.insert("required".to_owned(), Json::Array(names));
    }
}

} // verus!

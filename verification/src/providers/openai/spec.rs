//! What sanitizing a JSON schema yields.

use crate::json::model::{has_key, keys, lookup, only, put, without, JsonView, Members};
use vstd::prelude::*;

verus! {

/// What a keyword of a schema holds.
pub enum Role {
    /// A schema.
    Schema,
    /// An object whose values are schemas.
    Schemas,
    /// An array of schemas.
    Variants,
    /// Anything else.
    Plain,
}

/// What stands under `keyword`.
pub open spec fn role_of(keyword: Seq<char>) -> Role {
    if keyword == "items"@ {
        Role::Schema
    } else if keyword == "$defs"@ || keyword == "properties"@ {
        Role::Schemas
    } else if keyword == "anyOf"@ || keyword == "oneOf"@ || keyword == "allOf"@ {
        Role::Variants
    } else {
        Role::Plain
    }
}

/// A schema in the form that the provider asks for.
///
/// A reference keeps `$ref` alone. In any other object the schemas inside are sanitized, `oneOf`
/// becomes `anyOf`, and in strict mode the object is closed and all its properties are required.
pub open spec fn sanitized(schema: JsonView, strict: bool) -> JsonView
    decreases schema, 0int,
{
    match schema {
        JsonView::Object(members) => if has_key(members, "$ref"@) {
            JsonView::Object(only(members, "$ref"@))
        } else {
            JsonView::Object(closed_off(one_of_folded(sanitized_fields(members, strict)), strict))
        },
        _ => schema,
    }
}

/// Each keyword with the schemas that it holds sanitized.
pub open spec fn sanitized_fields(members: Members, strict: bool) -> Members
    decreases members, 0int,
{
    Seq::new(
        members.len(),
        |i: int|
            if 0 <= i < members.len() {
                (members[i].0, sanitized_field(role_of(members[i].0), members[i].1, strict))
            } else {
                members[i]
            },
    )
}

/// The value of a keyword with the schemas that it holds sanitized.
pub open spec fn sanitized_field(role: Role, value: JsonView, strict: bool) -> JsonView
    decreases value, 1int,
{
    match (role, value) {
        (Role::Schema, _) => sanitized(value, strict),
        (Role::Schemas, JsonView::Object(members)) => JsonView::Object(
            Seq::new(
                members.len(),
                |i: int|
                    if 0 <= i < members.len() {
                        (members[i].0, sanitized(members[i].1, strict))
                    } else {
                        members[i]
                    },
            ),
        ),
        (Role::Variants, JsonView::Array(items)) => JsonView::Array(
            Seq::new(
                items.len(),
                |i: int|
                    if 0 <= i < items.len() {
                        sanitized(items[i], strict)
                    } else {
                        items[i]
                    },
            ),
        ),
        _ => value,
    }
}

/// `oneOf` turned into `anyOf`: two arrays are joined, an array under `anyOf` outlasts a `oneOf`
/// that is none, and in every other case what stood under `oneOf` takes the place of `anyOf`.
pub open spec fn one_of_folded(members: Members) -> Members {
    match lookup(members, "oneOf"@) {
        None => members,
        Some(one_of) => {
            let rest = without(members, "oneOf"@);
            match (lookup(rest, "anyOf"@), one_of) {
                (Some(JsonView::Array(existing)), JsonView::Array(incoming)) => put(
                    rest,
                    "anyOf"@,
                    JsonView::Array(existing + incoming),
                ),
                (Some(JsonView::Array(_)), _) => rest,
                _ => put(rest, "anyOf"@, one_of),
            }
        },
    }
}

/// The schema describes an object.
pub open spec fn is_object_schema(members: Members) -> bool {
    lookup(members, "type"@) == Some(JsonView::String("object"@)) || has_key(members, "properties"@)
}

/// In strict mode: no further properties in an object schema, and every property required.
pub open spec fn closed_off(members: Members, strict: bool) -> Members {
    if strict {
        all_required(no_additional(members))
    } else {
        members
    }
}

/// `additionalProperties` is false in an object schema, whatever it said.
pub open spec fn no_additional(members: Members) -> Members {
    if is_object_schema(members) {
        put(members, "additionalProperties"@, JsonView::Bool(false))
    } else {
        members
    }
}

/// `required` lists the properties.
pub open spec fn all_required(members: Members) -> Members {
    match lookup(members, "properties"@) {
        Some(JsonView::Object(properties)) => put(
            members,
            "required"@,
            JsonView::Array(keys(properties)),
        ),
        _ => members,
    }
}

} // verus!

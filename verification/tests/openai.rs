use rig_core::json::value::Json;
use rig_core::providers::openai::{
    sanitize_schema, sanitize_schema_impl, sanitize_schema_lenient,
};
use serde_json::Value;

fn json(text: &str) -> Value {
    serde_json::from_str(text).unwrap()
}

fn strict(text: &str) -> Value {
    let mut schema = json(text);
    sanitize_schema(&mut schema);
    schema
}

fn lenient(text: &str) -> Value {
    let mut schema = json(text);
    sanitize_schema_lenient(&mut schema);
    schema
}

#[test]
fn test_sanitize_strips_ref_sibling_keywords() {
    let mut schema = json(
        r##"{
            "type": "object",
            "properties": {
                "location": {
                    "$ref": "#/$defs/Location",
                    "description": "The user's location"
                }
            },
            "$defs": {
                "Location": {
                    "type": "object",
                    "properties": {
                        "city": { "type": "string" },
                        "state": { "type": "string" }
                    }
                }
            }
        }"##,
    );

    sanitize_schema(&mut schema);

    // $ref node should only contain "$ref", no "description"
    let location = &schema["properties"]["location"];
    assert_eq!(location, &json(r##"{ "$ref": "#/$defs/Location" }"##));

    // The referenced $def should still be fully sanitized
    let location_def = &schema["$defs"]["Location"];
    assert_eq!(location_def["additionalProperties"], json("false"));
    assert!(location_def["required"].as_array().is_some());
}

#[test]
fn test_sanitize_adds_additional_properties_false() {
    let mut schema = json(
        r#"{
            "type": "object",
            "properties": {
                "name": { "type": "string" }
            }
        }"#,
    );

    sanitize_schema(&mut schema);

    assert_eq!(schema["additionalProperties"], json("false"));
}

#[test]
fn test_sanitize_marks_all_properties_required() {
    let mut schema = json(
        r#"{
            "type": "object",
            "properties": {
                "a": { "type": "string" },
                "b": { "type": "number" }
            }
        }"#,
    );

    sanitize_schema(&mut schema);

    let required = schema["required"].as_array().unwrap();
    assert!(required.contains(&json(r#""a""#)));
    assert!(required.contains(&json(r#""b""#)));
    assert_eq!(required.len(), 2);
}

#[test]
fn test_sanitize_converts_one_of_to_any_of() {
    let mut schema = json(
        r#"{
            "oneOf": [
                { "type": "string" },
                { "type": "number" }
            ]
        }"#,
    );

    sanitize_schema(&mut schema);

    assert!(schema.get("oneOf").is_none());
    assert!(schema["anyOf"].as_array().is_some());
}

#[test]
fn test_sanitize_recurses_into_nested_objects() {
    let mut schema = json(
        r#"{
            "type": "object",
            "properties": {
                "inner": {
                    "type": "object",
                    "properties": {
                        "value": { "type": "string" }
                    }
                }
            }
        }"#,
    );

    sanitize_schema(&mut schema);

    assert_eq!(
        schema["properties"]["inner"]["additionalProperties"],
        json("false")
    );
    let inner_required = schema["properties"]["inner"]["required"]
        .as_array()
        .unwrap();
    assert!(inner_required.contains(&json(r#""value""#)));
}

#[test]
fn lenient_preserves_open_map_and_skips_required_rewrite() {
    // An open string map `data` that is optional: strict mode would force
    // `additionalProperties: false` on both objects and put `data` into `required`.
    let mut schema = json(
        r#"{
            "type": "object",
            "properties": {
                "target": { "type": "string" },
                "data": { "type": "object", "additionalProperties": { "type": "string" } }
            },
            "required": ["target"]
        }"#,
    );

    sanitize_schema_lenient(&mut schema);

    // No forced additionalProperties: false on the root...
    assert_eq!(schema.get("additionalProperties"), None);
    // ...the open map's `additionalProperties` is preserved (not clobbered)...
    assert_eq!(
        schema["properties"]["data"]["additionalProperties"],
        json(r#"{ "type": "string" }"#)
    );
    // ...and `required` is untouched (still just `target`, NOT every key).
    assert_eq!(schema["required"], json(r#"["target"]"#));
}

#[test]
fn lenient_still_runs_benign_cleanup() {
    let mut schema = json(
        r##"{
            "type": "object",
            "properties": {
                "choice": { "oneOf": [ { "type": "string" }, { "type": "number" } ] },
                "ref": { "$ref": "#/$defs/X", "description": "drop me" }
            }
        }"##,
    );

    sanitize_schema_lenient(&mut schema);

    assert!(schema["properties"]["choice"].get("oneOf").is_none());
    assert!(schema["properties"]["choice"].get("anyOf").is_some());
    assert_eq!(
        schema["properties"]["ref"],
        json(r##"{ "$ref": "#/$defs/X" }"##),
        "$ref siblings stripped even in lenient mode"
    );
}

#[test]
fn strict_still_forces_rewrites() {
    let mut schema = json(
        r#"{
            "type": "object",
            "properties": { "a": { "type": "string" } }
        }"#,
    );
    sanitize_schema(&mut schema);
    assert_eq!(schema["additionalProperties"], json("false"));
    assert_eq!(schema["required"], json(r#"["a"]"#));
}

#[test]
fn two_arrays_of_variants_are_joined_in_order() {
    assert_eq!(
        strict(r#"{"anyOf": [{"type": "string"}], "oneOf": [{"type": "null"}, {"type": "number"}]}"#),
        json(r#"{"anyOf": [{"type": "string"}, {"type": "null"}, {"type": "number"}]}"#)
    );
}

#[test]
fn an_array_of_variants_outlasts_a_one_of_that_is_none() {
    assert_eq!(
        strict(r#"{"anyOf": [{"type": "string"}], "oneOf": {"type": "null"}}"#),
        json(r#"{"anyOf": [{"type": "string"}]}"#)
    );
}

#[test]
fn one_of_replaces_an_any_of_that_is_no_array() {
    assert_eq!(
        strict(r#"{"anyOf": 7, "oneOf": [{"type": "object"}]}"#),
        json(r#"{"anyOf": [{"type": "object", "additionalProperties": false}]}"#)
    );
    assert_eq!(strict(r#"{"oneOf": 7}"#), json(r#"{"anyOf": 7}"#));
}

#[test]
fn variants_are_sanitized_wherever_they_stand() {
    let text = r##"{
        "oneOf": [{"$ref": "#/a", "title": "x"}],
        "anyOf": [{"oneOf": []}],
        "allOf": [{"type": "object"}],
        "items": {"properties": {"p": true}}
    }"##;
    assert_eq!(
        strict(text),
        json(
            r##"{
                "anyOf": [{"anyOf": []}, {"$ref": "#/a"}],
                "allOf": [{"type": "object", "additionalProperties": false}],
                "items": {"properties": {"p": true}, "additionalProperties": false, "required": ["p"]}
            }"##
        )
    );
    assert_eq!(
        lenient(text),
        json(
            r##"{
                "anyOf": [{"anyOf": []}, {"$ref": "#/a"}],
                "allOf": [{"type": "object"}],
                "items": {"properties": {"p": true}}
            }"##
        )
    );
}

#[test]
fn properties_that_are_no_object_close_the_schema_and_require_nothing() {
    assert_eq!(
        strict(r#"{"properties": [1]}"#),
        json(r#"{"properties": [1], "additionalProperties": false}"#)
    );
}

#[test]
fn an_open_map_is_closed_in_strict_mode_alone() {
    let text = r#"{"type": "object", "additionalProperties": {"type": "string"}, "title": "t"}"#;
    assert_eq!(
        strict(text),
        json(r#"{"type": "object", "additionalProperties": false, "title": "t"}"#)
    );
    assert_eq!(lenient(text), json(text));
    assert_eq!(
        strict(r#"{"type":"object","properties":{"a":{"type":"string"}},"additionalProperties":true}"#),
        json(r#"{"type":"object","properties":{"a":{"type":"string"}},"additionalProperties":false,"required":["a"]}"#)
    );
    // What describes no object is not closed.
    let text = r#"{"type": "string", "additionalProperties": true}"#;
    assert_eq!(strict(text), json(text));
}

#[test]
fn required_lists_the_properties_in_their_order_and_nothing_else() {
    let schema = strict(r#"{"properties": {"b": {}, "a": {}, "é": {}}, "required": ["z"]}"#);
    assert_eq!(schema["required"], json(r#"["a", "b", "é"]"#));
}

#[test]
fn a_property_may_be_named_like_a_keyword() {
    assert_eq!(
        lenient(r##"{"properties": {"oneOf": {"oneOf": []}, "$ref": {"type": "string"}}}"##),
        json(r##"{"properties": {"oneOf": {"anyOf": []}, "$ref": {"type": "string"}}}"##)
    );
}

#[test]
fn other_keywords_hold_no_schemas() {
    let text = r#"{"not": {"oneOf": []}, "additionalProperties": {"oneOf": []}, "enum": [{"oneOf": []}]}"#;
    assert_eq!(strict(text), json(text));
}

#[test]
fn what_is_no_object_stays_as_it_is() {
    for text in ["null", "true", "-1.5", r#""$ref""#, r#"[{"oneOf": []}]"#] {
        assert_eq!(strict(text), json(text));
        assert_eq!(lenient(text), json(text));
    }
}

#[test]
fn the_stricter_of_two_passes_decides() {
    let text = r#"{"type": "object", "properties": {"a": {"oneOf": [{"type": "object"}]}}}"#;
    let mut schema = strict(text);
    sanitize_schema(&mut schema);
    assert_eq!(schema, strict(text));
    sanitize_schema_lenient(&mut schema);
    assert_eq!(schema, strict(text));
    let mut schema = lenient(text);
    sanitize_schema(&mut schema);
    assert_eq!(schema, strict(text));
}

#[test]
fn values_go_to_the_library_and_back() {
    let text = r#"{"a": [1, -2, 3.5, "x\n", null, {"": false}], "b": {}}"#;
    let value = Json::from_value(json(text));
    assert_eq!(value.into_value(), json(text));

    let mut schema = Json::from_value(json(r#"{"oneOf": [true], "z": 0}"#));
    sanitize_schema_impl(&mut schema, true);
    assert_eq!(schema.into_value(), json(r#"{"anyOf": [true], "z": 0}"#));
}

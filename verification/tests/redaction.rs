use rig_core::json::value::Json;
use rig_core::providers::redaction::{
    json_with_redacted_images, redact_image_payloads, REDACTED_IMAGE,
};
use serde_json::Value;

fn json(text: &str) -> Value {
    serde_json::from_str(text).unwrap()
}

fn redacted(text: &str, in_image: bool) -> Value {
    let mut value = Json::from_value(json(text));
    redact_image_payloads(&mut value, in_image);
    value.into_value()
}

#[test]
fn image_payloads_are_redacted_without_hiding_safe_metadata() {
    let request = json(
        r#"{
            "content": [
                {"type": "image", "source": {
                    "type": "base64", "media_type": "image/png", "data": "SECRET_1"
                }},
                {"type": "image_url", "image_url": {"url": "SECRET_2", "detail": "high"}},
                {"type": "input_image", "image_url": "SECRET_3"},
                {"type": "text", "text": "keep me"}
            ]
        }"#,
    );

    let output = json_with_redacted_images(request).unwrap();

    assert!(!output.contains("SECRET"));
    assert!(output.contains("<redacted-image>"));
    assert!(output.contains("image/png"));
    assert!(output.contains("high"));
    assert!(output.contains("keep me"));
}

#[test]
fn the_text_is_spread_over_lines() {
    let request = json(r#"{"type": "image", "data": [1], "n": 2}"#);
    assert_eq!(
        json_with_redacted_images(request).unwrap(),
        "{\n  \"data\": \"<redacted-image>\",\n  \"n\": 2,\n  \"type\": \"image\"\n}"
    );
}

#[test]
fn each_kind_of_image_is_known() {
    for kind in ["image", "image_url", "input_image"] {
        let text = format!(r#"{{"type": "{}", "url": "U", "image_url": 3, "data": {{"a": 1}}}}"#, kind);
        let value = redacted(&text, false);
        assert_eq!(value["url"], REDACTED_IMAGE);
        assert_eq!(value["image_url"], REDACTED_IMAGE);
        assert_eq!(value["data"], REDACTED_IMAGE);
        assert_eq!(value["type"], kind);
    }
}

#[test]
fn outside_an_image_nothing_is_redacted() {
    let text = r#"{"type": "text", "url": "U", "data": [{"image_url": "V"}], "n": {"type": 1, "url": "W"}}"#;
    assert_eq!(redacted(text, false), json(text));
}

#[test]
fn all_that_is_inside_an_image_is_of_the_image() {
    assert_eq!(
        redacted(r#"{"a": {"type": "image", "b": [[{"type": "text", "url": "U", "k": "K"}]]}, "url": "V"}"#, false),
        json(r#"{"a": {"type": "image", "b": [[{"type": "text", "url": "<redacted-image>", "k": "K"}]]}, "url": "V"}"#)
    );
    assert_eq!(
        redacted(r#"[{"url": "U", "image_url": {"image_url": "V", "detail": 1}}, "W"]"#, true),
        json(r#"[{"url": "<redacted-image>", "image_url": {"image_url": "<redacted-image>", "detail": 1}}, "W"]"#)
    );
}

#[test]
fn a_second_pass_changes_nothing() {
    let text = r#"{"type": "image", "data": "D", "x": {"type": "image_url", "image_url": {"url": "U"}}}"#;
    let once = redacted(text, false);
    assert_eq!(redacted(&once.to_string(), false), once);
    assert_eq!(redacted(&once.to_string(), true), redacted(text, true));
}

#[test]
fn payloads_do_not_show() {
    let a = redacted(r#"{"type": "image", "data": "A", "m": 1}"#, false);
    let b = redacted(r#"{"type": "image", "data": {"B": [2]}, "m": 1}"#, false);
    assert_eq!(a, b);
}

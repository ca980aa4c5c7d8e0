//! Keeping image payloads out of what is printed of a request.

use crate::json::bridge::{pretty_text, to_string_pretty, value_view};
use crate::json::key::same_key;
use crate::json::model::{lookup, JsonView, Members};
use crate::json::value::{json_views, Json, JsonMap};
use crate::providers::redaction_laws::law_redacted_is_well_formed;
use serde_json::Error as SerdeError;
use vstd::prelude::*;

verus! {

broadcast use crate::json::value::group_json_views;

/// What stands in the place of an image payload.
pub const REDACTED_IMAGE: &'static str = "<redacted-image>";

/// The object says of itself that it is an image.
pub open spec fn is_image(members: Members) -> bool {
    match lookup(members, "type"@) {
        Some(JsonView::String(kind)) => kind == "image"@ || kind == "image_url"@ || kind
            == "input_image"@,
        _ => false,
    }
}

/// Inside an image, `value` under `name` is the payload: the data or where to fetch it. An object
/// under `image_url` is not, it has the payload inside.
pub open spec fn is_payload(name: Seq<char>, value: JsonView) -> bool {
    name == "data"@ || name == "url"@ || (name == "image_url"@ && !(value is Object))
}

/// `value` with every image payload replaced. `in_image` says whether an image is around it.
pub open spec fn redacted(value: JsonView, in_image: bool) -> JsonView
    decreases value,
{
    match value {
        JsonView::Object(members) => {
            let in_image = in_image || is_image(members);
            JsonView::Object(
                Seq::new(
                    members.len(),
                    |i: int|
                        if 0 <= i < members.len() {
                            (
                                members[i].0,
                                if in_image && is_payload(members[i].0, members[i].1) {
                                    JsonView::String(REDACTED_IMAGE@)
                                } else {
                                    redacted(members[i].1, in_image)
                                },
                            )
                        } else {
                            members[i]
                        },
                ),
            )
        },
        JsonView::Array(items) => JsonView::Array(
            Seq::new(
                items.len(),
                |i: int|
                    if 0 <= i < items.len() {
                        redacted(items[i], in_image)
                    } else {
                        items[i]
                    },
            ),
        ),
        _ => value,
    }
}

/// Whether the object says of itself that it is an image.
fn says_image(map: &JsonMap) -> (b: bool)
    ensures
        b == is_image(map@),
{
    match map.get("type") {
        Some(Json::String(kind)) => same_key(kind.as_str(), "image") || same_key(
            kind.as_str(),
            "image_url",
        ) || same_key(kind.as_str(), "input_image"),
        _ => false,
    }
}

/// Whether `value` under `name` is the payload of an image.
fn holds_payload(name: &str, value: &Json) -> (b: bool)
    ensures
        b == is_payload(name@, value@),
{
    let nested = match value {
        Json::Object(_) => true,
        _ => false,
    };
    same_key(name, "data") || same_key(name, "url") || (same_key(name, "image_url") && !nested)
}

/// Replaces every image payload in `value`.
pub fn redact_image_payloads(value: &mut Json, image_context: bool)
    ensures
        final(value)@ == redacted(old(value)@, image_context),
    decreases old(value)@,
{
    match value {
        Json::Object(fields) => {
            let ghost before = fields@;
            let in_image = image_context || says_image(fields);
            let n = fields.len();
            let mut i: usize = 0;
            while i < n
                invariant
                    i <= n,
                    n == before.len(),
                    fields@.len() == n,
                    forall|j: int|
                        0 <= j < i ==> #[trigger] fields@[j] == (
                            before[j].0,
                            if in_image && is_payload(before[j].0, before[j].1) {
                                JsonView::String(REDACTED_IMAGE@)
                            } else {
                                redacted(before[j].1, in_image)
                            },
                        ),
                    forall|j: int| i <= j < n ==> #[trigger] fields@[j] == before[j],
                    decreases_to!(old(value)@ => before),
                decreases n - i,
            {
                if in_image && holds_payload(fields.key_at(i), fields.value_at(i)) {
                    *fields.value_at_mut(i) = Json::String(REDACTED_IMAGE.to_owned());
                } else {
                    redact_image_payloads(fields.value_at_mut(i), in_image);
                }
                i = i + 1;
            }
            assert(fields@ =~= redacted(old(value)@, image_context)->Object_0);
        },
        Json::Array(items) => {
            let ghost before = items@;
            let n = items.len();
            let mut i: usize = 0;
            while i < n
                invariant
                    i <= n,
                    n == before.len(),
                    items@.len() == n,
                    forall|j: int|
                        0 <= j < i ==> (#[trigger] items@[j])@ == redacted(
                            before[j]@,
                            image_context,
                        ),
                    forall|j: int| i <= j < n ==> #[trigger] items@[j] == before[j],
                    old(value)@ == JsonView::Array(json_views(before)),
                decreases n - i,
            {
                assert(decreases_to!(old(value)@ => old(value)@->Array_0));
                assert(decreases_to!(json_views(before) => json_views(before)[i as int]));
                redact_image_payloads(&mut items[i], image_context);
                i = i + 1;
            }
            assert(json_views(items@) =~= redacted(old(value)@, image_context)->Array_0);
        },
        _ => {},
    }
}

/// The JSON text of a request for printing, with every image payload replaced.
pub fn json_with_redacted_images(value: serde_json::Value) -> (r: Result<String, SerdeError>)
    ensures
        r matches Ok(text) && text@ == pretty_text(redacted(value_view(value), false)),
{
    let mut json = Json::from_value(value);
    proof {
        law_redacted_is_well_formed(json@, false);
    }
    redact_image_payloads(&mut json, false);
    to_string_pretty(&json.into_value())
}

} // verus!

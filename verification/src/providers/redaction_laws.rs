//! What holds of every redacted value.

use crate::json::key::key_lt;
use crate::json::model::{lookup, well_formed, JsonView, Members};
use crate::providers::redaction::{is_image, is_payload, redacted, REDACTED_IMAGE};
use vstd::prelude::*;

verus! {

/// `type` is not the name of a payload.
proof fn lemma_type_is_kept(value: JsonView)
    ensures
        !is_payload("type"@, value),
{
    reveal_strlit("type");
    reveal_strlit("data");
    reveal_strlit("url");
    reveal_strlit("image_url");
    assert("type"@[0] == 't' && "data"@[0] == 'd' && "url"@.len() == 3 && "type"@.len() == 4);
    assert("image_url"@.len() == 9);
}

/// Whatever is redacted of an object, it says of itself what it said before.
proof fn lemma_same_lookup(members: Members, in_image: bool, key: Seq<char>)
    ensures
        ({
            let after = redacted(JsonView::Object(members), in_image)->Object_0;
            let around = in_image || is_image(members);
            &&& after.len() == members.len()
            &&& lookup(after, key) == match lookup(members, key) {
                Some(value) => Some(
                    if around && is_payload(key, value) {
                        JsonView::String(REDACTED_IMAGE@)
                    } else {
                        redacted(value, around)
                    },
                ),
                None => None,
            }
        }),
{
    let after = redacted(JsonView::Object(members), in_image)->Object_0;
    let around = in_image || is_image(members);
    lemma_lookup_mapped(members, after, around, key);
}

proof fn lemma_lookup_mapped(members: Members, after: Members, around: bool, key: Seq<char>)
    requires
        after.len() == members.len(),
        forall|i: int|
            0 <= i < members.len() ==> #[trigger] after[i] == (
                members[i].0,
                if around && is_payload(members[i].0, members[i].1) {
                    JsonView::String(REDACTED_IMAGE@)
                } else {
                    redacted(members[i].1, around)
                },
            ),
    ensures
        lookup(after, key) == match lookup(members, key) {
            Some(value) => Some(
                if around && is_payload(key, value) {
                    JsonView::String(REDACTED_IMAGE@)
                } else {
                    redacted(value, around)
                },
            ),
            None => None,
        },
    decreases members.len(),
{
    if members.len() > 0 {
        assert(after[0].0 == members[0].0);
        let (a, b) = (members.drop_first(), after.drop_first());
        assert forall|i: int| 0 <= i < a.len() implies #[trigger] b[i] == (
            a[i].0,
            if around && is_payload(a[i].0, a[i].1) {
                JsonView::String(REDACTED_IMAGE@)
            } else {
                redacted(a[i].1, around)
            },
        ) by {
            assert(b[i] == after[i + 1]);
        }
        lemma_lookup_mapped(a, b, around, key);
    }
}

/// An image is still one after its payload has been replaced, and nothing becomes one.
pub proof fn law_images_stay_images(members: Members, in_image: bool)
    ensures
        is_image(redacted(JsonView::Object(members), in_image)->Object_0) == is_image(members),
{
    lemma_same_lookup(members, in_image, "type"@);
    if let Some(value) = lookup(members, "type"@) {
        lemma_type_is_kept(value);
    }
}

/// Redacting keeps every object's keys in order and each of them once.
pub proof fn law_redacted_is_well_formed(value: JsonView, in_image: bool)
    requires
        well_formed(value),
    ensures
        well_formed(redacted(value, in_image)),
    decreases value,
{
    match value {
        JsonView::Object(members) => {
            let around = in_image || is_image(members);
            let after = redacted(value, in_image)->Object_0;
            assert forall|i: int| 0 <= i < after.len() implies well_formed(
                (#[trigger] after[i]).1,
            ) by {
                assert(well_formed(members[i].1));
                law_redacted_is_well_formed(members[i].1, around);
            }
            assert forall|i: int, j: int| 0 <= i < j < after.len() implies key_lt(
                #[trigger] after[i].0,
                #[trigger] after[j].0,
            ) by {
                assert(key_lt(members[i].0, members[j].0));
            }
        },
        JsonView::Array(items) => {
            let after = redacted(value, in_image)->Array_0;
            assert forall|i: int| 0 <= i < after.len() implies well_formed(#[trigger] after[i]) by {
                assert(well_formed(items[i]));
                law_redacted_is_well_formed(items[i], in_image);
            }
        },
        _ => {},
    }
}

/// Every image payload inside `value` has been replaced.
pub open spec fn payload_free(value: JsonView, in_image: bool) -> bool
    decreases value,
{
    match value {
        JsonView::Object(members) => {
            let around = in_image || is_image(members);
            forall|i: int|
                0 <= i < members.len() ==> if around && is_payload(
                    (#[trigger] members[i]).0,
                    members[i].1,
                ) {
                    members[i].1 == JsonView::String(REDACTED_IMAGE@)
                } else {
                    payload_free(members[i].1, around)
                }
        },
        JsonView::Array(items) => forall|i: int|
            0 <= i < items.len() ==> payload_free(#[trigger] items[i], in_image),
        _ => true,
    }
}

/// No image payload is left in a redacted value.
pub proof fn law_redacted_is_payload_free(value: JsonView, in_image: bool)
    ensures
        payload_free(redacted(value, in_image), in_image),
    decreases value,
{
    match value {
        JsonView::Object(members) => {
            let around = in_image || is_image(members);
            let after = redacted(value, in_image)->Object_0;
            law_images_stay_images(members, in_image);
            assert forall|i: int| 0 <= i < after.len() implies if around && is_payload(
                (#[trigger] after[i]).0,
                after[i].1,
            ) {
                after[i].1 == JsonView::String(REDACTED_IMAGE@)
            } else {
                payload_free(after[i].1, around)
            } by {
                law_redacted_is_payload_free(members[i].1, around);
            }
        },
        JsonView::Array(items) => {
            let after = redacted(value, in_image)->Array_0;
            assert forall|i: int| 0 <= i < after.len() implies payload_free(
                #[trigger] after[i],
                in_image,
            ) by {
                law_redacted_is_payload_free(items[i], in_image);
            }
        },
        _ => {},
    }
}

/// `a` and `b` differ in nothing but image payloads.
pub open spec fn same_but_payloads(a: JsonView, b: JsonView, in_image: bool) -> bool
    decreases a,
{
    match (a, b) {
        (JsonView::Object(m), JsonView::Object(n)) => {
            let around = in_image || is_image(m);
            &&& m.len() == n.len()
            &&& is_image(m) == is_image(n)
            &&& forall|i: int|
                0 <= i < m.len() ==> {
                    &&& (#[trigger] m[i]).0 == n[i].0
                    &&& (around && is_payload(m[i].0, m[i].1) && is_payload(n[i].0, n[i].1))
                        || same_but_payloads(m[i].1, n[i].1, around)
                }
        },
        (JsonView::Array(s), JsonView::Array(t)) => {
            &&& s.len() == t.len()
            &&& forall|i: int|
                0 <= i < s.len() ==> same_but_payloads(#[trigger] s[i], t[i], in_image)
        },
        _ => a == b,
    }
}

/// A redacted value tells nothing of the image payloads: two values that differ in nothing else
/// come out the same.
pub proof fn law_payloads_do_not_show(a: JsonView, b: JsonView, in_image: bool)
    requires
        same_but_payloads(a, b, in_image),
    ensures
        redacted(a, in_image) == redacted(b, in_image),
    decreases a,
{
    match (a, b) {
        (JsonView::Object(m), JsonView::Object(n)) => {
            let around = in_image || is_image(m);
            let (x, y) = (redacted(a, in_image)->Object_0, redacted(b, in_image)->Object_0);
            assert forall|i: int| 0 <= i < x.len() implies #[trigger] x[i] == y[i] by {
                assert(m[i].0 == n[i].0);
                if !(around && is_payload(m[i].0, m[i].1) && is_payload(n[i].0, n[i].1)) {
                    law_payloads_do_not_show(m[i].1, n[i].1, around);
                }
            }
            assert(x =~= y);
        },
        (JsonView::Array(s), JsonView::Array(t)) => {
            let (x, y) = (redacted(a, in_image)->Array_0, redacted(b, in_image)->Array_0);
            assert forall|i: int| 0 <= i < x.len() implies #[trigger] x[i] == y[i] by {
                law_payloads_do_not_show(s[i], t[i], in_image);
            }
            assert(x =~= y);
        },
        _ => {},
    }
}

/// No object inside `value` says that it is an image.
pub open spec fn image_free(value: JsonView) -> bool
    decreases value,
{
    match value {
        JsonView::Object(members) => {
            &&& !is_image(members)
            &&& forall|i: int| 0 <= i < members.len() ==> image_free((#[trigger] members[i]).1)
        },
        JsonView::Array(items) => forall|i: int|
            0 <= i < items.len() ==> image_free(#[trigger] items[i]),
        _ => true,
    }
}

/// Where there is no image, nothing is redacted.
pub proof fn law_no_image_no_change(value: JsonView)
    requires
        image_free(value),
    ensures
        redacted(value, false) == value,
    decreases value,
{
    match value {
        JsonView::Object(members) => {
            let after = redacted(value, false)->Object_0;
            assert forall|i: int| 0 <= i < after.len() implies #[trigger] after[i]
                == members[i] by {
                law_no_image_no_change(members[i].1);
            }
            assert(after =~= members);
        },
        JsonView::Array(items) => {
            let after = redacted(value, false)->Array_0;
            assert forall|i: int| 0 <= i < after.len() implies #[trigger] after[i] == items[i] by {
                law_no_image_no_change(items[i]);
            }
            assert(after =~= items);
        },
        _ => {},
    }
}

/// What stands in `value` at the end of `path`, which gives a place in each object or array.
pub open spec fn at(value: JsonView, path: Seq<int>) -> Option<JsonView>
    decreases path.len(),
{
    if path.len() == 0 {
        Some(value)
    } else {
        let (i, rest) = (path[0], path.drop_first());
        match value {
            JsonView::Object(members) => if 0 <= i < members.len() {
                at(members[i].1, rest)
            } else {
                None
            },
            JsonView::Array(items) => if 0 <= i < items.len() {
                at(items[i], rest)
            } else {
                None
            },
            _ => None,
        }
    }
}

/// `path` leads into an image payload.
pub open spec fn into_payload(value: JsonView, in_image: bool, path: Seq<int>) -> bool
    decreases path.len(),
{
    if path.len() == 0 {
        false
    } else {
        let (i, rest) = (path[0], path.drop_first());
        match value {
            JsonView::Object(members) => {
                let around = in_image || is_image(members);
                0 <= i < members.len() && ((around && is_payload(members[i].0, members[i].1))
                    || into_payload(members[i].1, around, rest))
            },
            JsonView::Array(items) => 0 <= i < items.len() && into_payload(
                items[i],
                in_image,
                rest,
            ),
            _ => false,
        }
    }
}

/// What is not an image payload stays in sight: a null, truth value, number or string that no
/// payload is around stands where it stood.
pub proof fn law_the_rest_stays_in_sight(value: JsonView, in_image: bool, path: Seq<int>)
    requires
        !into_payload(value, in_image, path),
        at(value, path) matches Some(leaf) && !(leaf is Object) && !(leaf is Array),
    ensures
        at(redacted(value, in_image), path) == at(value, path),
    decreases path.len(),
{
    if path.len() > 0 {
        let (i, rest) = (path[0], path.drop_first());
        match value {
            JsonView::Object(members) => {
                law_the_rest_stays_in_sight(
                    members[i].1,
                    in_image || is_image(members),
                    rest,
                );
            },
            JsonView::Array(items) => law_the_rest_stays_in_sight(items[i], in_image, rest),
            _ => {},
        }
    }
}

/// Redacting twice is redacting once, as inside an image where either pass was told so.
pub proof fn law_redact_twice(value: JsonView, first: bool, second: bool)
    ensures
        redacted(redacted(value, first), second) == redacted(value, first || second),
    decreases value,
{
    match value {
        JsonView::Object(members) => {
            let once = redacted(value, first)->Object_0;
            law_images_stay_images(members, first);
            let a = redacted(JsonView::Object(once), second)->Object_0;
            let b = redacted(value, first || second)->Object_0;
            assert forall|i: int| 0 <= i < members.len() implies #[trigger] a[i] == b[i] by {
                let x = members[i].1;
                let (c, d) = (first || is_image(members), second || is_image(members));
                law_redact_twice(x, c, d);
                assert(redacted(x, c) is Object == x is Object);
                let marker = JsonView::String(REDACTED_IMAGE@);
                assert(redacted(marker, d) == marker);
                assert(is_image(once) == is_image(members));
                assert(once[i] == (
                    members[i].0,
                    if c && is_payload(members[i].0, x) {
                        marker
                    } else {
                        redacted(x, c)
                    },
                ));
                assert(a[i].1 == if d && is_payload(once[i].0, once[i].1) {
                    marker
                } else {
                    redacted(once[i].1, d)
                });
                assert(b[i].1 == if (c || d) && is_payload(members[i].0, x) {
                    marker
                } else {
                    redacted(x, c || d)
                });
            }
            assert(a =~= b);
        },
        JsonView::Array(items) => {
            let once = redacted(value, first)->Array_0;
            let a = redacted(JsonView::Array(once), second)->Array_0;
            let b = redacted(value, first || second)->Array_0;
            assert forall|i: int| 0 <= i < items.len() implies #[trigger] a[i] == b[i] by {
                law_redact_twice(items[i], first, second);
            }
            assert(a =~= b);
        },
        _ => {},
    }
}

/// Inside an image, which is where one is around it or where its type says so, whatever else it
/// holds, an object has the payload replaced under `data` and `url`, and under `image_url` unless an
/// object stands there. Each other member is redacted as part of the image, and every member stays
/// in its place under its name.
pub proof fn law_payloads_of_an_image_are_replaced(members: Members, in_image: bool)
    requires
        in_image || lookup(members, "type"@) == Some(JsonView::String("image"@)) || lookup(
            members,
            "type"@,
        ) == Some(JsonView::String("image_url"@)) || lookup(members, "type"@) == Some(
            JsonView::String("input_image"@),
        ),
    ensures
        redacted(JsonView::Object(members), in_image) matches JsonView::Object(after) && {
            let replaced = JsonView::String("<redacted-image>"@);
            &&& after.len() == members.len()
            &&& forall|i: int|
                0 <= i < members.len() ==> {
                    let (name, value) = members[i];
                    &&& (#[trigger] after[i]).0 == name
                    &&& name == "data"@ ==> after[i].1 == replaced
                    &&& name == "url"@ ==> after[i].1 == replaced
                    &&& name == "image_url"@ && !(value is Object) ==> after[i].1 == replaced
                    &&& name == "image_url"@ && value is Object ==> after[i].1 == redacted(
                        value,
                        true,
                    )
                    &&& name != "data"@ && name != "url"@ && name != "image_url"@ ==> after[i].1
                        == redacted(value, true)
                }
            &&& lookup(members, "data"@) is Some ==> lookup(after, "data"@) == Some(replaced)
            &&& lookup(members, "url"@) is Some ==> lookup(after, "url"@) == Some(replaced)
            &&& lookup(members, "image_url"@) is Some && !(lookup(members, "image_url"@)->0
                is Object) ==> lookup(after, "image_url"@) == Some(replaced)
        },
{
    lemma_same_lookup(members, in_image, "data"@);
    lemma_same_lookup(members, in_image, "url"@);
    lemma_same_lookup(members, in_image, "image_url"@);
    reveal_strlit("data");
    reveal_strlit("url");
    reveal_strlit("image_url");
    assert("data"@.len() == 4 && "url"@.len() == 3 && "image_url"@.len() == 9);
}

/// Outside an image, an object whose type does not say that it is one keeps every member in its
/// place under its name, with its value redacted as outside an image.
pub proof fn law_other_objects_keep_their_members(members: Members)
    requires
        lookup(members, "type"@) != Some(JsonView::String("image"@)),
        lookup(members, "type"@) != Some(JsonView::String("image_url"@)),
        lookup(members, "type"@) != Some(JsonView::String("input_image"@)),
    ensures
        redacted(JsonView::Object(members), false) matches JsonView::Object(after) && {
            &&& after.len() == members.len()
            &&& forall|i: int|
                0 <= i < members.len() ==> #[trigger] after[i] == (
                    members[i].0,
                    redacted(members[i].1, false),
                )
        },
{
}

/// An array has each of its items redacted where it stands, inside an image as the array is, and
/// what is neither an object nor an array stays.
pub proof fn law_items_are_redacted_in_place(value: JsonView, in_image: bool)
    ensures
        match value {
            JsonView::Object(_) => true,
            JsonView::Array(items) => {
                redacted(value, in_image) matches JsonView::Array(after) && after.len()
                    == items.len() && forall|i: int|
                    0 <= i < items.len() ==> #[trigger] after[i] == redacted(items[i], in_image)
            },
            _ => redacted(value, in_image) == value,
        },
{
}

} // verus!

//! JSON values as `serde_json` holds them.

use crate::json::model::{sorted, well_formed, JsonView, Members};
use crate::json::value::{json_views, member_views, Json, JsonMap};
use serde_json::Error as SerdeError;
use vstd::prelude::*;

verus! {

broadcast use crate::json::value::group_json_views;

/// `serde_json::Value`, whose contents [`value_view`] names.
#[verifier::external_type_specification]
#[verifier::external_body]
pub struct ExValue(serde_json::Value);

/// `serde_json::Error`, carried through unread.
#[verifier::external_type_specification]
#[verifier::external_body]
pub struct ExSerdeError(SerdeError);

/// What a `serde_json::Value` holds.
pub uninterp spec fn value_view(value: serde_json::Value) -> JsonView;

/// The text that `serde_json::to_string_pretty` writes for a value.
pub uninterp spec fn pretty_text(value: JsonView) -> Seq<char>;

/// The outermost layer of a `serde_json::Value`.
pub enum Layer {
    Null,
    Bool(bool),
    Number(serde_json::Number),
    String(String),
    Array(Vec<serde_json::Value>),
    Object(Vec<(String, serde_json::Value)>),
}

/// What the items of an array hold.
pub open spec fn layer_items(items: Seq<serde_json::Value>) -> Seq<JsonView> {
    Seq::new(items.len(), |i: int| value_view(items[i]))
}

/// What the members of an object hold.
pub open spec fn layer_members(members: Seq<(String, serde_json::Value)>) -> Members {
    Seq::new(members.len(), |i: int| (members[i].0@, value_view(members[i].1)))
}

/// What a layer holds, with all that is below it.
pub open spec fn layer_view(layer: Layer) -> JsonView {
    match layer {
        Layer::Null => JsonView::Null,
        Layer::Bool(b) => JsonView::Bool(b),
        Layer::Number(n) => JsonView::Number(n),
        Layer::String(s) => JsonView::String(s@),
        Layer::Array(items) => JsonView::Array(layer_items(items@)),
        Layer::Object(members) => JsonView::Object(layer_members(members@)),
    }
}

/// The keys of an object's members are in order, each of them once.
pub open spec fn layer_sorted(layer: Layer) -> bool {
    layer matches Layer::Object(members) ==> sorted(layer_members(members@))
}

/// Tells the variants of `serde_json::Value` apart. An object's members come out as
/// `serde_json::Map::into_iter` yields them: in the order of their keys, each key once.
#[verifier::external_body]
fn open_value(value: serde_json::Value) -> (layer: Layer)
    ensures
        layer_view(layer) == value_view(value),
        layer_sorted(layer),
{
    match value {
        serde_json::Value::Null => Layer::Null,
        serde_json::Value::Bool(b) => Layer::Bool(b),
        serde_json::Value::Number(n) => Layer::Number(n),
        serde_json::Value::String(s) => Layer::String(s),
        serde_json::Value::Array(items) => Layer::Array(items),
        serde_json::Value::Object(map) => Layer::Object(map.into_iter().collect()),
    }
}

/// Builds the variant of `serde_json::Value`. An object's members go into a `serde_json::Map`,
/// which `FromIterator` fills.
#[verifier::external_body]
fn close_value(layer: Layer) -> (value: serde_json::Value)
    requires
        layer_sorted(layer),
    ensures
        value_view(value) == layer_view(layer),
{
    match layer {
        Layer::Null => serde_json::Value::Null,
        Layer::Bool(b) => serde_json::Value::Bool(b),
        Layer::Number(n) => serde_json::Value::Number(n),
        Layer::String(s) => serde_json::Value::String(s),
        Layer::Array(items) => serde_json::Value::Array(items),
        Layer::Object(members) => serde_json::Value::Object(members.into_iter().collect()),
    }
}

/// Calls `serde_json::to_string_pretty`. It fails on maps whose keys are no strings and on types
/// that refuse to be written, and a `serde_json::Value` has none of these: the contract says that it
/// succeeds, and names the text, which depends on what the value holds alone.
#[verifier::external_body]
pub(crate) fn to_string_pretty(value: &serde_json::Value) -> (r: Result<String, SerdeError>)
    ensures
        r is Ok,
        r matches Ok(text) ==> text@ == pretty_text(value_view(*value)),
{
    serde_json::to_string_pretty(value)
}

/// Takes the value out of `slot` and leaves a null there.
pub(crate) fn take(slot: &mut serde_json::Value) -> (value: serde_json::Value)
    ensures
        value == *old(slot),
        value_view(*final(slot)) == JsonView::Null,
{
    let mut value = close_value(Layer::Null);
    std::mem::swap(slot, &mut value);
    value
}

impl Json {
    /// The value that a `serde_json::Value` holds.
    pub fn from_value(value: serde_json::Value) -> (json: Json)
        ensures
            json@ == value_view(value),
            well_formed(json@),
        decreases value_view(value),
    {
        let ghost whole = value_view(value);
        match open_value(value) {
            Layer::Null => Json::Null,
            Layer::Bool(b) => Json::Bool(b),
            Layer::Number(n) => Json::Number(n),
            Layer::String(s) => Json::String(s),
            Layer::Array(items) => {
                let ghost all = items@;
                assert(decreases_to!(whole => whole->Array_0));
                let mut values: Vec<Json> = Vec::new();
                for item in iter: items
                    invariant
                        iter.seq() == all,
                        whole == JsonView::Array(layer_items(all)),
                        decreases_to!(whole => layer_items(all)),
                        value_view(value) == whole,
                        values@.len() == iter.index(),
                        forall|j: int|
                            0 <= j < values@.len() ==> (#[trigger] values@[j])@ == value_view(
                                all[j],
                            ) && well_formed(values@[j]@),
                {
                    assert(decreases_to!(layer_items(all) => layer_items(all)[iter.index()]));
                    values.push(Json::from_value(item));
                }
                assert(json_views(values@) =~= layer_items(all));
                Json::Array(values)
            },
            Layer::Object(members) => {
                let ghost all = members@;
                assert(decreases_to!(whole => whole->Object_0));
                let mut entries: Vec<(String, Json)> = Vec::new();
                for member in iter: members
                    invariant
                        iter.seq() == all,
                        whole == JsonView::Object(layer_members(all)),
                        decreases_to!(whole => layer_members(all)),
                        value_view(value) == whole,
                        entries@.len() == iter.index(),
                        forall|j: int|
                            0 <= j < entries@.len() ==> (#[trigger] entries@[j]).0@ == all[j].0@
                                && entries@[j].1@ == value_view(all[j].1) && well_formed(
                                entries@[j].1@,
                            ),
                {
                    assert(decreases_to!(layer_members(all) => layer_members(all)[iter.index()]));
                    assert(decreases_to!(layer_members(all)[iter.index()]
                        => layer_members(all)[iter.index()].1));
                    let (key, value) = member;
                    entries.push((key, Json::from_value(value)));
                }
                assert(member_views(entries@) =~= layer_members(all));
                Json::Object(JsonMap::from_sorted(entries))
            },
        }
    }

    /// The `serde_json::Value` that holds this value.
    pub fn into_value(self) -> (value: serde_json::Value)
        requires
            well_formed(self@),
        ensures
            value_view(value) == self@,
        decreases self@,
    {
        let ghost whole = self@;
        match self {
            Json::Null => close_value(Layer::Null),
            Json::Bool(b) => close_value(Layer::Bool(b)),
            Json::Number(n) => close_value(Layer::Number(n)),
            Json::String(s) => close_value(Layer::String(s)),
            Json::Array(items) => {
                let ghost all = items@;
                assert(decreases_to!(whole => whole->Array_0));
                let mut values: Vec<serde_json::Value> = Vec::new();
                for item in iter: items
                    invariant
                        iter.seq() == all,
                        self@ == whole,
                        whole == JsonView::Array(json_views(all)),
                        well_formed(whole),
                        decreases_to!(whole => json_views(all)),
                        values@.len() == iter.index(),
                        forall|j: int|
                            0 <= j < values@.len() ==> value_view(#[trigger] values@[j])
                                == all[j]@,
                {
                    assert(decreases_to!(json_views(all) => json_views(all)[iter.index()]));
                    assert(well_formed(whole->Array_0[iter.index()]));
                    values.push(item.into_value());
                }
                assert(layer_items(values@) =~= json_views(all));
                close_value(Layer::Array(values))
            },
            Json::Object(map) => {
                let entries = map.into_entries();
                let ghost all = entries@;
                assert(decreases_to!(whole => whole->Object_0));
                let mut members: Vec<(String, serde_json::Value)> = Vec::new();
                for entry in iter: entries
                    invariant
                        iter.seq() == all,
                        self@ == whole,
                        whole == JsonView::Object(member_views(all)),
                        well_formed(whole),
                        decreases_to!(whole => member_views(all)),
                        members@.len() == iter.index(),
                        forall|j: int|
                            0 <= j < members@.len() ==> (#[trigger] members@[j]).0@ == all[j].0@
                                && value_view(members@[j].1) == all[j].1@,
                {
                    assert(decreases_to!(member_views(all) => member_views(all)[iter.index()]));
                    assert(decreases_to!(member_views(all)[iter.index()]
                        => member_views(all)[iter.index()].1));
                    let (key, value) = entry;
                    members.push((key, value.into_value()));
                }
                assert(layer_members(members@) =~= member_views(all));
                close_value(Layer::Object(members))
            },
        }
    }
}

} // verus!

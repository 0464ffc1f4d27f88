//! JSON values as the task discovery reads them.

use vstd::prelude::*;

verus! {

/// A JSON value as `serde_json` holds it.
#[verifier::external_type_specification]
#[verifier::external_body]
pub struct ExValue(serde_json::Value);

/// Why a text is not JSON, as `serde_json` reports it.
#[verifier::external_type_specification]
#[verifier::external_body]
pub struct ExJsonError(serde_json::Error);

/// A JSON value. What a number amounts to is not kept: no decision depends on it.
#[derive(Debug)]
pub enum Json {
    Null,
    Bool(bool),
    Number,
    Text(String),
    Array(Vec<Json>),
    /// The members of an object.
    Object(Vec<(String, Json)>),
}

/// The mathematical counterpart of [`Json`].
pub enum JsonView {
    Null,
    Bool(bool),
    Number,
    Text(Seq<char>),
    Array(Seq<JsonView>),
    Object(Seq<(Seq<char>, JsonView)>),
}

impl Json {
    pub open spec fn view(&self) -> JsonView
        decreases self,
    {
        match self {
            Json::Null => JsonView::Null,
            Json::Bool(b) => JsonView::Bool(*b),
            Json::Number => JsonView::Number,
            Json::Text(s) => JsonView::Text(s@),
            Json::Array(items) => JsonView::Array(
                Seq::new(
                    items@.len(),
                    |i: int|
                        if 0 <= i < items@.len() {
                            items@[i].view()
                        } else {
                            JsonView::Null
                        },
                ),
            ),
            Json::Object(members) => JsonView::Object(
                Seq::new(
                    members@.len(),
                    |i: int|
                        if 0 <= i < members@.len() {
                            (members@[i].0@, members@[i].1.view())
                        } else {
                            (Seq::empty(), JsonView::Null)
                        },
                ),
            ),
        }
    }
}

/// What a `serde_json` value holds, the members of an object in the order in which its
/// `serde_json::Map` hands them out.
pub uninterp spec fn value_contents(value: serde_json::Value) -> JsonView;

/// What `serde_json::from_str` makes of a text: the value that the text holds, or the error.
pub uninterp spec fn json_of_text(raw: Seq<char>) -> Result<JsonView, serde_json::Error>;

/// The outermost layer of a `serde_json` value.
enum Layer {
    Null,
    Bool(bool),
    Number,
    Text(String),
    Array(Vec<serde_json::Value>),
    Object(Vec<(String, serde_json::Value)>),
}

/// The JSON value that `layer` is the outermost layer of.
spec fn layer_contents(layer: Layer) -> JsonView {
    match layer {
        Layer::Null => JsonView::Null,
        Layer::Bool(b) => JsonView::Bool(b),
        Layer::Number => JsonView::Number,
        Layer::Text(s) => JsonView::Text(s@),
        Layer::Array(items) => JsonView::Array(
            items@.map_values(|v: serde_json::Value| value_contents(v)),
        ),
        Layer::Object(members) => JsonView::Object(
            members@.map_values(|m: (String, serde_json::Value)| (m.0@, value_contents(m.1))),
        ),
    }
}

/// Calls `serde_json::from_str` for a `serde_json::Value`. Whether it succeeds, what the value then
/// holds and what the error is otherwise depend on the text alone.
#[verifier::external_body]
fn parse_value(raw: &str) -> (parsed: Result<serde_json::Value, serde_json::Error>)
    ensures
        (match parsed {
            Ok(value) => Ok(value_contents(value)),
            Err(error) => Err(error),
        }) == json_of_text(raw@),
{
    serde_json::from_str(raw)
}

/// Takes a `serde_json::Value` apart by its variants. The members of an object come out of
/// `serde_json::Map::into_iter`, which hands each of them out once. A value holds what its layer
/// holds.
#[verifier::external_body]
fn open_value(value: serde_json::Value) -> (layer: Layer)
    ensures
        layer_contents(layer) == value_contents(value),
{
    match value {
        serde_json::Value::Null => Layer::Null,
        serde_json::Value::Bool(b) => Layer::Bool(b),
        serde_json::Value::Number(_) => Layer::Number,
        serde_json::Value::String(s) => Layer::Text(s),
        serde_json::Value::Array(items) => Layer::Array(items),
        serde_json::Value::Object(members) => Layer::Object(members.into_iter().collect()),
    }
}

/// An array is larger than each of its items.
proof fn lemma_item_smaller(items: Seq<JsonView>, i: int)
    requires
        0 <= i < items.len(),
    ensures
        decreases_to!(JsonView::Array(items) => items[i]),
{
    let whole = JsonView::Array(items);
    assert(decreases_to!(whole => whole->Array_0));
    assert(decreases_to!(items => items[i]));
}

/// An object is larger than the value of each of its members.
proof fn lemma_member_smaller(members: Seq<(Seq<char>, JsonView)>, i: int)
    requires
        0 <= i < members.len(),
    ensures
        decreases_to!(JsonView::Object(members) => members[i].1),
{
    let whole = JsonView::Object(members);
    assert(decreases_to!(whole => whole->Object_0));
    assert(decreases_to!(members => members[i]));
    assert(decreases_to!(members[i] => members[i].1));
}

/// Carries a `serde_json` value over into a [`Json`], layer by layer.
fn to_json(value: serde_json::Value) -> (json: Json)
    ensures
        json@ == value_contents(value),
    decreases value_contents(value),
{
    let ghost contents = value_contents(value);
    match open_value(value) {
        Layer::Null => Json::Null,
        Layer::Bool(b) => Json::Bool(b),
        Layer::Number => Json::Number,
        Layer::Text(s) => Json::Text(s),
        Layer::Array(items) => {
            let mut out: Vec<Json> = Vec::new();
            let ghost parts = contents->Array_0;
            for item in it: items.into_iter()
                invariant
                    contents == value_contents(value),
                    contents == JsonView::Array(parts),
                    parts == it.seq().map_values(|v: serde_json::Value| value_contents(v)),
                    out@.len() == it.index(),
                    forall|i: int| 0 <= i < it.index() ==> (#[trigger] out@[i])@ == parts[i],
            {
                proof {
                    lemma_item_smaller(parts, it.index());
                }
                out.push(to_json(item));
            }
            let json = Json::Array(out);
            assert(json@->Array_0 =~= parts);
            json
        },
        Layer::Object(members) => {
            let mut out: Vec<(String, Json)> = Vec::new();
            let ghost parts = contents->Object_0;
            for member in it: members.into_iter()
                invariant
                    contents == value_contents(value),
                    contents == JsonView::Object(parts),
                    parts == it.seq().map_values(
                        |m: (String, serde_json::Value)| (m.0@, value_contents(m.1)),
                    ),
                    out@.len() == it.index(),
                    forall|i: int|
                        0 <= i < it.index() ==> (#[trigger] out@[i]).0@ == parts[i].0
                            && out@[i].1@ == parts[i].1,
            {
                proof {
                    lemma_member_smaller(parts, it.index());
                }
                let (key, part) = member;
                out.push((key, to_json(part)));
            }
            let json = Json::Object(out);
            assert(json@->Object_0 =~= parts);
            json
        },
    }
}

/// Parses a JSON text. The error is the one that `serde_json` gives for that text.
pub fn parse_json(raw: &str) -> (parsed: Result<Json, serde_json::Error>)
    ensures
        (match parsed {
            Ok(json) => Ok(json@),
            Err(error) => Err(error),
        }) == json_of_text(raw@),
{
    match parse_value(raw) {
        Ok(value) => Ok(to_json(value)),
        Err(error) => Err(error),
    }
}

/// The view of a value holds what the value holds, item by item and member by member.
pub proof fn view_keeps_places(json: Json)
    ensures
        json is Null ==> json@ is Null,
        json is Number ==> json@ is Number,
        json matches Json::Bool(b) ==> json@ == JsonView::Bool(b),
        json matches Json::Text(s) ==> json@ == JsonView::Text(s@),
        json matches Json::Array(items) ==> (json@ matches JsonView::Array(parts) && parts.len()
            == items@.len() && forall|i: int|
            0 <= i < parts.len() ==> #[trigger] parts[i] == items@[i]@),
        json matches Json::Object(members) ==> (json@ matches JsonView::Object(parts) && parts.len()
            == members@.len() && forall|i: int|
            0 <= i < parts.len() ==> #[trigger] parts[i] == (members@[i].0@, members@[i].1@)),
{
}

} // verus!

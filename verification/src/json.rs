//! JSON documents as plain data.
//!
//! [`JsonValue`] is what the engine computes with: manifests hold templates
//! and defaults of this type, arguments are bound to it, requests and
//! responses are made of it. [`Json`] is its mathematical model, over which
//! the contracts are stated. A number is kept as the literal that writes it,
//! so no arithmetic on fractions is ever needed here. An object is a list of
//! fields; where a key stands twice, the later field is the one that counts.
//!
//! Two things are left to `serde_json`: the compact text of a whole document
//! and the reading of a document from text.

use vstd::prelude::*;
use vstd::string::*;
use crate::text::chars_eq;
use crate::text::chars_of;

verus! {

/// A JSON document as a mathematical value.
pub enum Json {
    Null,
    Bool(bool),
    /// A number, as the literal that writes it.
    Number(Seq<char>),
    String(Seq<char>),
    Array(Seq<Json>),
    /// The fields of an object, in the order in which they are kept.
    Object(Seq<(Seq<char>, Json)>),
}

/// The value of the last field of `fields` that is named `key`.
pub open spec fn field_of(fields: Seq<(Seq<char>, Json)>, key: Seq<char>) -> Option<Json>
    decreases fields.len(),
{
    if fields.len() == 0 {
        None
    } else if fields.last().0 == key {
        Some(fields.last().1)
    } else {
        field_of(fields.drop_last(), key)
    }
}

impl Json {
    /// The field `key` of an object; nothing for any other document.
    pub open spec fn field(self, key: Seq<char>) -> Option<Json> {
        match self {
            Json::Object(fields) => field_of(fields, key),
            _ => None,
        }
    }
}

/// A JSON document.
#[derive(Debug, PartialEq)]
pub enum JsonValue {
    Null,
    Bool(bool),
    /// A number, as the JSON literal that writes it: `7`, `-3`, `2.5`.
    Number(String),
    String(String),
    Array(Vec<JsonValue>),
    /// The fields of an object. Where a key stands twice, the later field
    /// counts.
    Object(Vec<(String, JsonValue)>),
}

impl JsonValue {
    /// The document as a mathematical value.
    pub open spec fn model(&self) -> Json
        decreases self,
    {
        match self {
            JsonValue::Null => Json::Null,
            JsonValue::Bool(b) => Json::Bool(*b),
            JsonValue::Number(n) => Json::Number(n@),
            JsonValue::String(s) => Json::String(s@),
            JsonValue::Array(items) => Json::Array(
                Seq::new(
                    items@.len(),
                    |i: int|
                        if 0 <= i < items@.len() {
                            items@[i].model()
                        } else {
                            Json::Null
                        },
                ),
            ),
            JsonValue::Object(fields) => Json::Object(
                Seq::new(
                    fields@.len(),
                    |i: int|
                        if 0 <= i < fields@.len() {
                            (fields@[i].0@, fields@[i].1.model())
                        } else {
                            (Seq::empty(), Json::Null)
                        },
                ),
            ),
        }
    }
}

impl View for JsonValue {
    type V = Json;

    open spec fn view(&self) -> Json {
        self.model()
    }
}

/// The models of the documents in `items`.
pub open spec fn items_view(items: Seq<JsonValue>) -> Seq<Json> {
    Seq::new(items.len(), |i: int| items[i]@)
}

/// The models of the fields in `fields`.
pub open spec fn fields_view(fields: Seq<(String, JsonValue)>) -> Seq<(Seq<char>, Json)> {
    Seq::new(fields.len(), |i: int| (fields[i].0@, fields[i].1@))
}

/// The model of an array is made of the models of its items.
pub proof fn lemma_array_view(items: Vec<JsonValue>)
    ensures
        JsonValue::Array(items)@ == Json::Array(items_view(items@)),
{
    assert(JsonValue::Array(items)@->Array_0 =~= items_view(items@));
}

/// The model of an object is made of the models of its fields.
pub proof fn lemma_object_view(fields: Vec<(String, JsonValue)>)
    ensures
        JsonValue::Object(fields)@ == Json::Object(fields_view(fields@)),
{
    assert(JsonValue::Object(fields)@->Object_0 =~= fields_view(fields@));
}

/// A copy of the documents in `items`.
pub fn copy_items(items: &Vec<JsonValue>) -> (r: Vec<JsonValue>)
    ensures
        items_view(r@) == items_view(items@),
{
    let mut out: Vec<JsonValue> = Vec::new();
    let mut i: usize = 0;
    while i < items.len()
        invariant
            i <= items.len(),
            out@.len() == i,
            forall|j: int| 0 <= j < i ==> out@[j]@ == items@[j]@,
        decreases items.len() - i,
    {
        out.push(items[i].clone());
        i += 1;
    }
    assert(items_view(out@) =~= items_view(items@));
    out
}

/// A copy of the fields in `fields`.
pub fn copy_fields(fields: &Vec<(String, JsonValue)>) -> (r: Vec<(String, JsonValue)>)
    ensures
        fields_view(r@) == fields_view(fields@),
{
    let mut out: Vec<(String, JsonValue)> = Vec::new();
    let mut i: usize = 0;
    while i < fields.len()
        invariant
            i <= fields.len(),
            out@.len() == i,
            forall|j: int|
                0 <= j < i ==> out@[j].0@ == fields@[j].0@ && out@[j].1@ == fields@[j].1@,
        decreases fields.len() - i,
    {
        out.push((fields[i].0.clone(), fields[i].1.clone()));
        i += 1;
    }
    assert(fields_view(out@) =~= fields_view(fields@));
    out
}

impl Clone for JsonValue {
    fn clone(&self) -> (r: JsonValue)
        ensures
            r@ == self@,
        decreases self,
    {
        match self {
            JsonValue::Null => JsonValue::Null,
            JsonValue::Bool(b) => JsonValue::Bool(*b),
            JsonValue::Number(n) => JsonValue::Number(n.clone()),
            JsonValue::String(s) => JsonValue::String(s.clone()),
            JsonValue::Array(items) => {
                let mut out: Vec<JsonValue> = Vec::new();
                let mut i: usize = 0;
                while i < items.len()
                    invariant
                        self is Array,
                        self->Array_0 == *items,
                        i <= items.len(),
                        out@.len() == i,
                        forall|j: int| 0 <= j < i ==> out@[j]@ == items@[j]@,
                    decreases items.len() - i,
                {
                    out.push(items[i].clone());
                    i += 1;
                }
                proof {
                    lemma_array_view(out);
                    lemma_array_view(*items);
                    assert(items_view(out@) =~= items_view(items@));
                }
                JsonValue::Array(out)
            },
            JsonValue::Object(fields) => {
                let mut out: Vec<(String, JsonValue)> = Vec::new();
                let mut i: usize = 0;
                while i < fields.len()
                    invariant
                        self is Object,
                        self->Object_0 == *fields,
                        i <= fields.len(),
                        out@.len() == i,
                        forall|j: int|
                            0 <= j < i ==> out@[j].0@ == fields@[j].0@ && out@[j].1@
                                == fields@[j].1@,
                    decreases fields.len() - i,
                {
                    out.push((fields[i].0.clone(), fields[i].1.clone()));
                    i += 1;
                }
                proof {
                    lemma_object_view(out);
                    lemma_object_view(*fields);
                    assert(fields_view(out@) =~= fields_view(fields@));
                }
                JsonValue::Object(out)
            },
        }
    }
}

impl JsonValue {
    /// The field `key` of an object; nothing for any other document.
    pub fn get(&self, key: &str) -> (r: Option<&JsonValue>)
        ensures
            match r {
                Some(v) => self@.field(key@) == Some(v@),
                None => self@.field(key@) is None,
            },
    {
        match self {
            JsonValue::Object(fields) => {
                let wanted = chars_of(key);
                let ghost model = fields_view(fields@);
                proof {
                    lemma_object_view(*fields);
                }
                let mut j: usize = fields.len();
                assert(model.take(j as int) == model);
                while j > 0
                    invariant
                        j <= fields.len(),
                        wanted@ == key@,
                        model == fields_view(fields@),
                        self@ == Json::Object(model),
                        field_of(model, key@) == field_of(model.take(j as int), key@),
                    decreases j,
                {
                    let name = chars_of(fields[j - 1].0.as_str());
                    assert(model.take(j as int).last() == model[j - 1]);
                    if chars_eq(&name, &wanted) {
                        return Some(&fields[j - 1].1);
                    }
                    assert(model.take(j as int).drop_last() == model.take(j - 1));
                    j -= 1;
                }
                None
            },
            _ => None,
        }
    }
}

/// The compact JSON text of a document, as `serde_json` writes it.
pub uninterp spec fn json_text(v: Json) -> Seq<char>;

/// The document that a JSON text holds, as `serde_json` reads it; nothing
/// for a text that is no JSON.
pub uninterp spec fn json_parsed(raw: Seq<char>) -> Option<Json>;

/// `serde_json::Value`, which the two conversions below hand to
/// `serde_json` and take from it. Nothing of what it holds is visible to
/// the proofs.
#[verifier::external_type_specification]
#[verifier::external_body]
pub struct ExSerdeValue(serde_json::Value);

/// Builds the `serde_json::Value` that `v` stands for, variant by variant.
/// A number is read back from its literal by `serde_json::from_str`; a
/// literal that is no JSON number gives `null`. The fields of an object go
/// into `serde_json`'s map in their order, so that a later field replaces
/// an earlier one of the same key. Nothing is claimed of the result.
#[verifier::external_body]
fn to_serde(v: &JsonValue) -> serde_json::Value {
    match v {
        JsonValue::Null => serde_json::Value::Null,
        JsonValue::Bool(b) => serde_json::Value::Bool(*b),
        JsonValue::Number(n) => serde_json::from_str::<serde_json::Number>(n).map_or(
            serde_json::Value::Null,
            serde_json::Value::Number,
        ),
        JsonValue::String(s) => serde_json::Value::String(s.clone()),
        JsonValue::Array(items) => serde_json::Value::Array(items.iter().map(to_serde).collect()),
        JsonValue::Object(fields) => serde_json::Value::Object(
            fields.iter().map(|f| (f.0.clone(), to_serde(&f.1))).collect(),
        ),
    }
}

/// Copies a `serde_json::Value` into a [`JsonValue`], variant by variant. A
/// number becomes the literal that `serde_json` writes for it; the fields
/// of an object come in the order of `serde_json`'s map. Nothing is claimed
/// of the result.
#[verifier::external_body]
fn from_serde(v: &serde_json::Value) -> JsonValue {
    match v {
        serde_json::Value::Null => JsonValue::Null,
        serde_json::Value::Bool(b) => JsonValue::Bool(*b),
        serde_json::Value::Number(n) => JsonValue::Number(n.to_string()),
        serde_json::Value::String(s) => JsonValue::String(s.clone()),
        serde_json::Value::Array(items) => JsonValue::Array(items.iter().map(from_serde).collect()),
        serde_json::Value::Object(map) => JsonValue::Object(
            map.iter().map(|(k, v)| (k.clone(), from_serde(v))).collect(),
        ),
    }
}

/// `serde_json::Value`'s `to_string`: the compact JSON text of the document.
/// The text depends on the document alone, which is all the contract says:
/// it gives the text its name.
#[verifier::external_body]
pub(crate) fn render_json(v: &JsonValue) -> (r: String)
    ensures
        r@ == json_text(v@),
{
    to_serde(v).to_string()
}

/// `serde_json::from_str` at `serde_json::Value`: the document that the text
/// holds, or nothing where `serde_json` reports an error. What is read
/// depends on the text alone, which is all the contract says: it gives the
/// reading its name.
#[verifier::external_body]
pub(crate) fn read_json(raw: &str) -> (r: Option<JsonValue>)
    ensures
        match r {
            Some(v) => json_parsed(raw@) == Some(v@),
            None => json_parsed(raw@) is None,
        },
{
    serde_json::from_str::<serde_json::Value>(raw).ok().map(|v| from_serde(&v))
}

} // verus!

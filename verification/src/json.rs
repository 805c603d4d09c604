//! Documents: the values that a program is written down as, and their text.

use vstd::prelude::*;

verus! {

/// A document. A number that is no unsigned integer of 64 bits is kept as the number
/// of `serde_json` that it was read as.
#[derive(Debug, PartialEq, Eq)]
pub enum Json {
    Null,
    Bool(bool),
    Number(u64),
    Decimal(serde_json::Number),
    Text(String),
    Array(Vec<Json>),
    Object(Vec<JsonField>),
}

/// A member of an object: a key and the value under it.
#[derive(Debug, PartialEq, Eq)]
pub struct JsonField {
    pub key: String,
    pub value: Json,
}

pub enum JsonView {
    Null,
    Bool(bool),
    Number(u64),
    Decimal(serde_json::Number),
    Text(Seq<char>),
    Array(Seq<JsonView>),
    Object(Seq<JsonFieldView>),
}

pub struct JsonFieldView {
    pub key: Seq<char>,
    pub value: JsonView,
}

pub open spec fn json_view(j: Json) -> JsonView
    decreases j, 0nat,
{
    match j {
        Json::Null => JsonView::Null,
        Json::Bool(b) => JsonView::Bool(b),
        Json::Number(n) => JsonView::Number(n),
        Json::Decimal(number) => JsonView::Decimal(number),
        Json::Text(text) => JsonView::Text(text@),
        Json::Array(items) => JsonView::Array(jsons_view(items@)),
        Json::Object(fields) => JsonView::Object(json_fields_view(fields@)),
    }
}

pub open spec fn jsons_view(items: Seq<Json>) -> Seq<JsonView>
    decreases items, 1nat,
{
    Seq::new(items.len(), |i: int| if 0 <= i < items.len() { json_view(items[i]) } else { arbitrary() })
}

pub open spec fn json_field_view(f: JsonField) -> JsonFieldView
    decreases f, 0nat,
{
    JsonFieldView { key: f.key@, value: json_view(f.value) }
}

pub open spec fn json_fields_view(fields: Seq<JsonField>) -> Seq<JsonFieldView>
    decreases fields, 1nat,
{
    Seq::new(
        fields.len(),
        |i: int| if 0 <= i < fields.len() { json_field_view(fields[i]) } else { arbitrary() },
    )
}

impl View for Json {
    type V = JsonView;

    open spec fn view(&self) -> JsonView {
        json_view(*self)
    }
}

impl View for JsonField {
    type V = JsonFieldView;

    open spec fn view(&self) -> JsonFieldView {
        json_field_view(*self)
    }
}

/// The field with the key `key` and the value `value`.
pub open spec fn field(key: Seq<char>, value: JsonView) -> JsonFieldView {
    JsonFieldView { key, value }
}

#[verifier::external_type_specification]
#[verifier::external_body]
pub struct ExValue(serde_json::Value);

#[verifier::external_type_specification]
#[verifier::external_body]
pub struct ExError(serde_json::Error);

#[verifier::external_type_specification]
#[verifier::external_body]
pub struct ExNumber(serde_json::Number);

/// The text that `serde_json::to_string_pretty` writes for a document.
pub uninterp spec fn rendered(document: JsonView) -> Seq<char>;

/// The document that `serde_json::from_str` reads from a text, or `None` where it
/// reads none.
pub uninterp spec fn parsed(text: Seq<char>) -> Option<JsonView>;

/// The value of `serde_json` for the document `json`: each kind of document becomes
/// the variant of `serde_json::Value` of that kind, with the same parts.
#[verifier::external_body]
fn to_value(json: &Json) -> serde_json::Value {
    match json {
        Json::Null => serde_json::Value::Null,
        Json::Bool(b) => serde_json::Value::Bool(*b),
        Json::Number(n) => serde_json::Value::from(*n),
        Json::Decimal(number) => serde_json::Value::Number(number.clone()),
        Json::Text(text) => serde_json::Value::String(text.clone()),
        Json::Array(items) => serde_json::Value::Array(items.iter().map(to_value).collect()),
        Json::Object(fields) => serde_json::Value::Object(
            fields.iter().map(|f| (f.key.clone(), to_value(&f.value))).collect(),
        ),
    }
}

/// The document for a value of `serde_json`: each variant of `serde_json::Value`
/// becomes the kind of document of that variant, the members of an object in the
/// order in which the value holds them.
#[verifier::external_body]
fn from_value(value: serde_json::Value) -> Json {
    match value {
        serde_json::Value::Null => Json::Null,
        serde_json::Value::Bool(b) => Json::Bool(b),
        serde_json::Value::Number(n) => match n.as_u64() {
            Some(n) => Json::Number(n),
            None => Json::Decimal(n),
        },
        serde_json::Value::String(text) => Json::Text(text),
        serde_json::Value::Array(items) => Json::Array(items.into_iter().map(from_value).collect()),
        serde_json::Value::Object(fields) => Json::Object(
            fields.into_iter().map(|(key, value)| JsonField { key, value: from_value(value) }).collect(),
        ),
    }
}

/// Calls `serde_json::to_string_pretty` on the value for `json`. It returns a text:
/// the value is written into memory, where no write fails, and a value holds nothing
/// that cannot be written. The text is a function of the document alone, and is known
/// here by the name [`rendered`] only.
#[verifier::external_body]
pub(crate) fn render(json: &Json) -> (r: Result<String, serde_json::Error>)
    ensures
        r is Ok,
        r matches Ok(text) ==> text@ == rendered(json@),
{
    serde_json::to_string_pretty(&to_value(json))
}

/// Calls `serde_json::from_str` for a `serde_json::Value` on `text`. Whether it
/// returns a value, and the document for it, is a function of the text alone, and is
/// known here by the name [`parsed`] only.
#[verifier::external_body]
pub(crate) fn parse(text: &str) -> (r: Result<Json, serde_json::Error>)
    ensures
        match r {
            Ok(json) => parsed(text@) == Some(json@),
            Err(_) => parsed(text@) is None,
        },
{
    serde_json::from_str::<serde_json::Value>(text).map(from_value)
}

/// Calls `to_string` on an error of `serde_json`: the error in words. Nothing is
/// claimed of the words.
#[verifier::external_body]
pub(crate) fn describe(error: &serde_json::Error) -> String {
    error.to_string()
}

} // verus!

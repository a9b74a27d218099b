//! JSON documents as venues send them.
use crate::error::AdapterError;
use crate::ticker::Bits64;
use serde_json::Value;
use vstd::prelude::*;

verus! {

/// A number in a document: a whole number of 64 bits, or a double-precision number.
#[derive(Debug, Clone, Copy, PartialEq, Eq, Structural)]
pub enum JsonNumber {
    PosInt(u64),
    NegInt(i64),
    Real(Bits64),
}

/// A document in the model.
pub enum JsonView {
    Null,
    Bool(bool),
    Number(JsonNumber),
    Text(Seq<char>),
    Array(Seq<JsonView>),
    Object(Map<Seq<char>, JsonView>),
}

impl JsonView {
    /// What an object has under a key; null where it has nothing, or is no object.
    pub open spec fn member(self, key: Seq<char>) -> JsonView {
        match self {
            JsonView::Object(members) => if members.contains_key(key) {
                members[key]
            } else {
                JsonView::Null
            },
            _ => JsonView::Null,
        }
    }

    pub open spec fn as_text(self) -> Option<Seq<char>> {
        match self {
            JsonView::Text(text) => Some(text),
            _ => None,
        }
    }

    pub open spec fn as_items(self) -> Option<Seq<JsonView>> {
        match self {
            JsonView::Array(items) => Some(items),
            _ => None,
        }
    }

    /// An item of an array; none where there are not as many, or it is no array.
    pub open spec fn item(self, i: int) -> Option<JsonView> {
        match self {
            JsonView::Array(items) => if 0 <= i < items.len() {
                Some(items[i])
            } else {
                None
            },
            _ => None,
        }
    }

    pub open spec fn as_u64(self) -> Option<u64> {
        match self {
            JsonView::Number(JsonNumber::PosInt(n)) => Some(n),
            _ => None,
        }
    }

    pub open spec fn as_i64(self) -> Option<i64> {
        match self {
            JsonView::Number(JsonNumber::PosInt(n)) => if n <= i64::MAX {
                Some(n as i64)
            } else {
                None
            },
            JsonView::Number(JsonNumber::NegInt(n)) => Some(n),
            _ => None,
        }
    }

    /// A number in double precision.
    pub open spec fn as_double(self) -> Option<Bits64> {
        match self {
            JsonView::Number(JsonNumber::PosInt(n)) => Some(double_of_integer(n as int)),
            JsonView::Number(JsonNumber::NegInt(n)) => Some(double_of_integer(n as int)),
            JsonView::Number(JsonNumber::Real(bits)) => Some(bits),
            _ => None,
        }
    }
}

#[verifier::external_type_specification]
#[verifier::external_body]
pub struct ExValue(Value);

/// What a document holds.
pub uninterp spec fn json(value: Value) -> JsonView;

/// The double-precision number next to a whole number.
pub uninterp spec fn double_of_integer(n: int) -> Bits64;

/// The document that `serde_json` reads from a text, or what it says is wrong with it.
pub uninterp spec fn serde_document(text: Seq<char>) -> Result<JsonView, Seq<char>>;

/// The document that `sonic_rs` reads from a text, or what it says is wrong with it.
pub uninterp spec fn sonic_document(text: Seq<char>) -> Result<JsonView, Seq<char>>;

pub open spec fn json_list(list: Seq<Value>) -> Seq<JsonView> {
    list.map_values(|v: Value| json(v))
}

/// A document that was read, or a message, in the model.
pub open spec fn document_view(document: Result<Value, String>) -> Result<JsonView, Seq<char>> {
    match document {
        Ok(value) => Ok(json(value)),
        Err(message) => Err(message@),
    }
}

/// `serde_json::from_str` into a `Value`, with its error as text. It goes by the text alone.
#[verifier::external_body]
pub(crate) fn serde_from_str(text: &str) -> (r: Result<Value, String>)
    ensures
        document_view(r) == serde_document(text@),
{
    serde_json::from_str::<Value>(text).map_err(|e| e.to_string())
}

/// `sonic_rs::from_str` into a `Value`, with its error as text. It goes by the text alone.
#[verifier::external_body]
pub(crate) fn sonic_from_str(text: &str) -> (r: Result<Value, String>)
    ensures
        document_view(r) == sonic_document(text@),
{
    sonic_rs::from_str::<Value>(text).map_err(|e| e.to_string())
}

/// Indexing of a `Value` by a key: the member, and null where there is none.
#[verifier::external_body]
pub(crate) fn value_member<'a>(value: &'a Value, key: &str) -> (r: &'a Value)
    ensures
        json(*r) == json(*value).member(key@),
{
    &value[key]
}

/// `Value::as_str`: the text of a string, and none of anything else.
#[verifier::external_body]
pub(crate) fn value_as_str(value: &Value) -> (r: Option<&str>)
    ensures
        match r {
            Some(text) => json(*value).as_text() == Some(text@),
            None => json(*value).as_text() is None,
        },
{
    value.as_str()
}

/// `Value::as_array`: the items of an array in order, and none of anything else.
#[verifier::external_body]
pub(crate) fn value_as_array(value: &Value) -> (r: Option<&Vec<Value>>)
    ensures
        match r {
            Some(items) => json(*value).as_items() == Some(json_list(items@)),
            None => json(*value).as_items() is None,
        },
{
    value.as_array()
}

/// `Value::as_u64`: a whole number that is not negative, and none of anything else.
#[verifier::external_body]
pub(crate) fn value_as_u64(value: &Value) -> (r: Option<u64>)
    ensures
        r == json(*value).as_u64(),
{
    value.as_u64()
}

/// `Value::as_i64`: a whole number that fits, and none of anything else.
#[verifier::external_body]
pub(crate) fn value_as_i64(value: &Value) -> (r: Option<i64>)
    ensures
        r == json(*value).as_i64(),
{
    value.as_i64()
}

/// `Value::as_f64`: a number in double precision, by its bits, and none of anything else.
/// Which double a whole number becomes is named, not stated.
#[verifier::external_body]
pub(crate) fn value_as_double(value: &Value) -> (r: Option<Bits64>)
    ensures
        match json(*value) {
            JsonView::Number(JsonNumber::PosInt(n)) => r == Some(double_of_integer(n as int)),
            JsonView::Number(JsonNumber::NegInt(n)) => r == Some(double_of_integer(n as int)),
            JsonView::Number(JsonNumber::Real(bits)) => r == Some(bits),
            _ => r is None,
        },
{
    value.as_f64().map(|x| Bits64(x.to_bits()))
}

/// The text that an item has under a key.
pub fn text_member(item: &Value, key: &str) -> (r: Option<String>)
    ensures
        crate::text::text_view(r) == json(*item).member(key@).as_text(),
{
    match value_as_str(value_member(item, key)) {
        Some(text) => Some(text.to_string()),
        None => None,
    }
}

pub open spec fn item_view(item: Option<&Value>) -> Option<JsonView> {
    match item {
        Some(value) => Some(json(*value)),
        None => None,
    }
}

/// An item of an array.
pub fn list_item<'a>(value: &'a Value, i: usize) -> (r: Option<&'a Value>)
    ensures
        item_view(r) == json(*value).item(i as int),
{
    match value_as_array(value) {
        Some(items) => if i < items.len() {
            Some(&items[i])
        } else {
            None
        },
        None => None,
    }
}

/// The items of a list, or a parse error with the message where there is no list.
pub open spec fn is_list_of(
    r: Result<&Vec<Value>, AdapterError>,
    value: JsonView,
    message: Seq<char>,
) -> bool {
    match r {
        Ok(items) => value.as_items() == Some(json_list(items@)),
        Err(e) => value.as_items() is None && e@ == crate::error::AdapterErrorView::ParseError(
            message,
        ),
    }
}

/// The list that a document has under a key; a parse error with the message, where that is
/// no list.
pub fn list_member<'a>(document: &'a Value, key: &str, message: &str) -> (r: Result<
    &'a Vec<Value>,
    AdapterError,
>)
    ensures
        is_list_of(r, json(*document).member(key@), message@),
{
    match value_as_array(value_member(document, key)) {
        Some(items) => Ok(items),
        None => Err(AdapterError::parse(message)),
    }
}

/// The list that a document is; a parse error with the message, where it is no list.
pub fn document_list<'a>(document: &'a Value, message: &str) -> (r: Result<
    &'a Vec<Value>,
    AdapterError,
>)
    ensures
        is_list_of(r, json(*document), message@),
{
    match value_as_array(document) {
        Some(items) => Ok(items),
        None => Err(AdapterError::parse(message)),
    }
}

/// A list is handed out whole and in its order, and only what is no list gives an error, with
/// the message that goes with it.
pub proof fn law_lists_are_handed_out_whole(
    r: Result<&Vec<Value>, AdapterError>,
    value: JsonView,
    message: Seq<char>,
    i: int,
)
    requires
        is_list_of(r, value, message),
    ensures
        value is Array <==> r is Ok,
        r matches Ok(items) ==> (0 <= i < items@.len() ==> value.item(i) == Some(json(items@[i])))
            && value.item(items@.len() as int) is None,
        r matches Err(e) ==> e@ == crate::error::AdapterErrorView::ParseError(message),
{
    if let Ok(items) = r {
        assert(json_list(items@).len() == items@.len());
        if 0 <= i < items@.len() {
            assert(json_list(items@)[i] == json(items@[i]));
        }
    }
}

/// A key of an object leads to what was put under it last, and another key is not changed by
/// that. What is no object has nothing under any key.
pub proof fn law_members_are_found_by_key(
    members: Map<Seq<char>, JsonView>,
    key: Seq<char>,
    value: JsonView,
    other: Seq<char>,
)
    ensures
        JsonView::Object(members.insert(key, value)).member(key) == value,
        other != key ==> JsonView::Object(members.insert(key, value)).member(other)
            == JsonView::Object(members).member(other),
        JsonView::Object(Map::empty()).member(key) is Null,
        !(value is Object) ==> value.member(key) is Null,
{
}

/// A value is read only as what it is: a text as a text, a list as a list, and a number as a
/// whole number only where it is one and fits.
pub proof fn law_values_are_read_as_what_they_are(value: JsonView)
    ensures
        value.as_text() matches Some(text) ==> value == JsonView::Text(text),
        value is Text ==> value.as_text() is Some,
        value.as_items() matches Some(items) ==> value == JsonView::Array(items),
        value is Array ==> value.as_items() is Some,
        value.as_u64() matches Some(n) ==> value == JsonView::Number(JsonNumber::PosInt(n)),
        value matches JsonView::Number(JsonNumber::PosInt(n)) ==> value.as_u64() == Some(n) && (
        value.as_i64() is Some <==> n <= 9_223_372_036_854_775_807),
        value.as_i64() matches Some(n) ==> value == JsonView::Number(JsonNumber::NegInt(n))
            || value == JsonView::Number(JsonNumber::PosInt(n as u64)),
        value matches JsonView::Number(JsonNumber::NegInt(n)) ==> value.as_i64() == Some(n),
        value.as_double() is Some <==> value is Number,
        value matches JsonView::Number(JsonNumber::Real(bits)) ==> value.as_double() == Some(bits),
{
}

} // verus!

//! JSON documents as trees of plain values, and the reading of such a tree
//! from the bytes of a response.
use vstd::prelude::*;
use vstd::string::*;
use crate::domain::F1Error;
use crate::model::views;

verus! {

/// A JSON document. A number is kept as the text that writes it, an object as
/// its fields in the order in which they are held.
#[derive(Debug)]
pub enum Json {
    Null,
    Bool(bool),
    Number(String),
    Text(String),
    Array(Vec<Json>),
    Object(Vec<(String, Json)>),
}

/// The mathematical value of a [`Json`] tree.
pub enum JsonValue {
    Null,
    Bool(bool),
    Number(Seq<char>),
    Text(Seq<char>),
    Array(Seq<JsonValue>),
    Object(Seq<(Seq<char>, JsonValue)>),
}

impl View for Json {
    type V = JsonValue;

    open spec fn view(&self) -> JsonValue
        decreases self,
    {
        match self {
            Json::Null => JsonValue::Null,
            Json::Bool(b) => JsonValue::Bool(*b),
            Json::Number(n) => JsonValue::Number(n@),
            Json::Text(s) => JsonValue::Text(s@),
            Json::Array(items) => JsonValue::Array(
                Seq::new(
                    items@.len(),
                    |i: int|
                        if 0 <= i < items@.len() {
                            items@[i]@
                        } else {
                            JsonValue::Null
                        },
                ),
            ),
            Json::Object(fields) => JsonValue::Object(
                Seq::new(
                    fields@.len(),
                    |i: int|
                        if 0 <= i < fields@.len() {
                            (fields@[i].0@, fields@[i].1@)
                        } else {
                            (Seq::empty(), JsonValue::Null)
                        },
                ),
            ),
        }
    }
}

/// The value of the first of `fields` that is named `key`.
pub open spec fn first_named(fields: Seq<(Seq<char>, JsonValue)>, key: Seq<char>) -> Option<
    JsonValue,
>
    decreases fields.len(),
{
    if fields.len() == 0 {
        None
    } else if fields[0].0 == key {
        Some(fields[0].1)
    } else {
        first_named(fields.drop_first(), key)
    }
}

impl JsonValue {
    /// The field `key` of an object; `None` for an object without it and for
    /// what is no object.
    pub open spec fn member(self, key: Seq<char>) -> Option<JsonValue> {
        match self {
            JsonValue::Object(fields) => first_named(fields, key),
            _ => None,
        }
    }

    /// The element at `index` of an array; `None` for an index past its end
    /// and for what is no array.
    pub open spec fn element(self, index: int) -> Option<JsonValue> {
        match self {
            JsonValue::Array(items) => if 0 <= index < items.len() {
                Some(items[index])
            } else {
                None
            },
            _ => None,
        }
    }

    /// The field `key` of an object, and null where [`JsonValue::member`] finds none.
    pub open spec fn field(self, key: Seq<char>) -> JsonValue {
        match self.member(key) {
            Some(value) => value,
            None => JsonValue::Null,
        }
    }

    /// The element at `index` of an array, and null where [`JsonValue::element`] finds none.
    pub open spec fn item(self, index: int) -> JsonValue {
        match self.element(index) {
            Some(value) => value,
            None => JsonValue::Null,
        }
    }

    /// The characters of a text; `None` for any other value.
    pub open spec fn text(self) -> Option<Seq<char>> {
        match self {
            JsonValue::Text(s) => Some(s),
            _ => None,
        }
    }

    /// The elements of an array; `None` for any other value.
    pub open spec fn items(self) -> Option<Seq<JsonValue>> {
        match self {
            JsonValue::Array(items) => Some(items),
            _ => None,
        }
    }
}

/// The value behind a reference that may be absent, null where it is.
pub open spec fn value_or_null(found: Option<&Json>) -> JsonValue {
    match found {
        Some(json) => json@,
        None => JsonValue::Null,
    }
}

impl Json {
    /// The field `key` of an object.
    pub fn member(&self, key: &str) -> (found: Option<&Json>)
        ensures
            match found {
                Some(json) => self@.member(key@) == Some(json@),
                None => self@.member(key@).is_none(),
            },
            value_or_null(found) == self@.field(key@),
    {
        match self {
            Json::Object(fields) => {
                let wanted = String::from_str(key);
                let ghost all = self@->Object_0;
                assert(all.skip(0) == all);
                let mut i: usize = 0;
                while i < fields.len()
                    invariant
                        i <= fields.len(),
                        wanted@ == key@,
                        self@ == JsonValue::Object(all),
                        all.len() == fields@.len(),
                        forall|j: int|
                            0 <= j < fields@.len() ==> all[j] == (
                                fields@[j].0@,
                                fields@[j].1@,
                            ),
                        first_named(all, key@) == first_named(all.skip(i as int), key@),
                    decreases fields.len() - i,
                {
                    proof {
                        assert(all.skip(i as int)[0] == all[i as int]);
                        assert(all.skip(i as int).drop_first() == all.skip(i as int + 1));
                    }
                    if fields[i].0 == wanted {
                        return Some(&fields[i].1);
                    }
                    i += 1;
                }
                None
            },
            _ => None,
        }
    }

    /// The element at `index` of an array.
    pub fn element(&self, index: usize) -> (found: Option<&Json>)
        ensures
            match found {
                Some(json) => self@.element(index as int) == Some(json@),
                None => self@.element(index as int).is_none(),
            },
            value_or_null(found) == self@.item(index as int),
    {
        match self {
            Json::Array(items) => {
                if index < items.len() {
                    Some(&items[index])
                } else {
                    None
                }
            },
            _ => None,
        }
    }

    /// The characters of a text.
    pub fn as_str(&self) -> (text: Option<&str>)
        ensures
            match text {
                Some(s) => self@.text() == Some(s@),
                None => self@.text().is_none(),
            },
    {
        match self {
            Json::Text(s) => Some(s.as_str()),
            _ => None,
        }
    }

    /// Whether the value is an object.
    pub fn is_object(&self) -> (object: bool)
        ensures
            object == (self@ is Object),
    {
        match self {
            Json::Object(_) => true,
            _ => false,
        }
    }

    /// The elements of an array.
    pub fn as_array(&self) -> (items: Option<&Vec<Json>>)
        ensures
            match items {
                Some(v) => self@.items() == Some(views(v@)),
                None => self@.items().is_none(),
            },
    {
        match self {
            Json::Array(items) => {
                assert(self@->Array_0 =~= views(items@));
                Some(items)
            },
            _ => None,
        }
    }
}

/// The error of the JSON reader, carried through unread.
#[verifier::external_type_specification]
#[verifier::external_body]
pub struct ExJsonError(serde_json::Error);

/// The JSON reader's own tree, carried from the reader to [`tree_of`].
#[verifier::external_type_specification]
#[verifier::external_body]
pub struct ExJsonTree(serde_json::Value);

/// The document that `bytes` spell as JSON text; `None` where they spell none.
pub uninterp spec fn document_of(bytes: Seq<u8>) -> Option<JsonValue>;

/// Moves a tree of `serde_json::Value` into a [`Json`], variant by variant:
/// a number becomes the text that `serde_json` writes for it, an object its
/// fields in the order in which `serde_json::Map` walks them. Nothing is
/// claimed of the result here; [`read_document`] names it.
#[verifier::external_body]
fn tree_of(value: serde_json::Value) -> Json {
    match value {
        serde_json::Value::Null => Json::Null,
        serde_json::Value::Bool(b) => Json::Bool(b),
        serde_json::Value::Number(n) => Json::Number(n.to_string()),
        serde_json::Value::String(s) => Json::Text(s),
        serde_json::Value::Array(items) => Json::Array(items.into_iter().map(tree_of).collect()),
        serde_json::Value::Object(fields) => Json::Object(
            fields.into_iter().map(|(key, value)| (key, tree_of(value))).collect(),
        ),
    }
}

/// Reads `bytes` with `serde_json::from_slice` and moves the tree it gives
/// into a [`Json`]. The contract claims that the outcome depends on the bytes
/// alone, and gives it the name [`document_of`]: the reader fails exactly
/// where `document_of` is `None`. What the document is for given bytes is
/// left to `serde_json`.
#[verifier::external_body]
fn read_document(bytes: &Vec<u8>) -> (document: Result<Json, serde_json::Error>)
    ensures
        match document {
            Ok(json) => document_of(bytes@) == Some(json@),
            Err(_) => document_of(bytes@).is_none(),
        },
{
    serde_json::from_slice::<serde_json::Value>(bytes).map(tree_of)
}

impl Json {
    /// Reads a JSON document from the bytes of a response.
    pub fn parse(bytes: &Vec<u8>) -> (document: Result<Json, F1Error>)
        ensures
            match document {
                Ok(json) => document_of(bytes@) == Some(json@),
                Err(error) => error == F1Error::JsonDeserialization && document_of(bytes@).is_none(),
            },
    {
        match read_document(bytes) {
            Ok(json) => Ok(json),
            Err(_) => Err(F1Error::JsonDeserialization),
        }
    }
}

impl Clone for Json {
    /// A copy with the same value.
    fn clone(&self) -> (copy: Json)
        ensures
            copy@ == self@,
        decreases self,
    {
        match self {
            Json::Null => Json::Null,
            Json::Bool(b) => Json::Bool(*b),
            Json::Number(n) => Json::Number(n.clone()),
            Json::Text(s) => Json::Text(s.clone()),
            Json::Array(items) => {
                let mut copies: Vec<Json> = Vec::new();
                let mut i: usize = 0;
                while i < items.len()
                    invariant
                        i <= items.len(),
                        *self matches Json::Array(inner) && inner == *items,
                        copies@.len() == i,
                        forall|j: int| 0 <= j < i ==> copies@[j]@ == items@[j]@,
                    decreases items.len() - i,
                {
                    assert(decreases_to!(self => *items));
                    assert(decreases_to!(*items => items[i as int]));
                    copies.push(items[i].clone());
                    i += 1;
                }
                let copy = Json::Array(copies);
                assert(copy@->Array_0 =~= self@->Array_0);
                copy
            },
            Json::Object(fields) => {
                let mut copies: Vec<(String, Json)> = Vec::new();
                let mut i: usize = 0;
                while i < fields.len()
                    invariant
                        i <= fields.len(),
                        *self matches Json::Object(inner) && inner == *fields,
                        copies@.len() == i,
                        forall|j: int|
                            0 <= j < i ==> copies@[j].0@ == fields@[j].0@ && copies@[j].1@
                                == fields@[j].1@,
                    decreases fields.len() - i,
                {
                    assert(decreases_to!(self => *fields));
                    assert(decreases_to!(*fields => fields[i as int]));
                    assert(decreases_to!(fields[i as int] => fields[i as int].1));
                    copies.push((fields[i].0.clone(), fields[i].1.clone()));
                    i += 1;
                }
                let copy = Json::Object(copies);
                assert(copy@->Object_0 =~= self@->Object_0);
                copy
            },
        }
    }
}

} // verus!

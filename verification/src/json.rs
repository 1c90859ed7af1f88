//! An in-memory JSON document and its mathematical model.
//!
//! Floating-point numbers are carried by their IEEE 754 binary64 bit pattern, so
//! that every value in a document is a plain integer, boolean, string or
//! collection of those.

use vstd::prelude::*;

verus! {

/// A JSON number: an unsigned integer, a signed integer, or the bit pattern of
/// a binary64 floating-point value.
#[derive(Clone, Copy, Debug, PartialEq, Eq, Structural)]
pub enum Number {
    PosInt(u64),
    NegInt(i64),
    Float(u64),
}

/// The fields of a JSON object, in document order.
pub type Fields = Seq<(Seq<char>, JsonModel)>;

/// The mathematical value of a JSON document.
pub enum JsonModel {
    Null,
    Bool(bool),
    Number(Number),
    Text(Seq<char>),
    Array(Seq<JsonModel>),
    Object(Fields),
}

/// A JSON document held in memory.
#[derive(Debug, PartialEq)]
pub enum Json {
    Null,
    Bool(bool),
    Number(Number),
    Text(String),
    Array(Vec<Json>),
    Object(Vec<(String, Json)>),
}

/// The keys of a list of fields, in order.
pub open spec fn field_keys(fields: Fields) -> Seq<Seq<char>> {
    Seq::new(fields.len(), |i: int| fields[i].0)
}

/// The keys of two lists of fields, one after the other, are the keys of
/// the first and then the keys of the second.
pub proof fn lemma_keys_appended(first: Fields, second: Fields)
    ensures
        field_keys(first + second) == field_keys(first) + field_keys(second),
{
    assert(field_keys(first + second) =~= field_keys(first) + field_keys(second));
}

/// The index of the first field at or after `start` whose key is `key`.
pub open spec fn position_from(fields: Fields, key: Seq<char>, start: int) -> Option<int>
    decreases fields.len() - start,
{
    if start < 0 || start >= fields.len() {
        None
    } else if fields[start].0 == key {
        Some(start)
    } else {
        position_from(fields, key, start + 1)
    }
}

/// The index of the first field whose key is `key`.
pub open spec fn position(fields: Fields, key: Seq<char>) -> Option<int> {
    position_from(fields, key, 0)
}

/// The value of the first field whose key is `key`.
pub open spec fn lookup(fields: Fields, key: Seq<char>) -> Option<JsonModel> {
    match position(fields, key) {
        Some(i) => if 0 <= i < fields.len() {
            Some(fields[i].1)
        } else {
            None
        },
        None => None,
    }
}

/// `position_from` answers with the first matching index at or after `start`,
/// and with `None` exactly when no field from `start` on has the key.
pub proof fn lemma_position_from(fields: Fields, key: Seq<char>, start: int)
    requires
        0 <= start,
    ensures
        match position_from(fields, key, start) {
            Some(i) => {
                &&& start <= i < fields.len()
                &&& fields[i].0 == key
                &&& forall|k: int| start <= k < i ==> fields[k].0 != key
            },
            None => forall|k: int| start <= k < fields.len() ==> fields[k].0 != key,
        },
    decreases fields.len() - start,
{
    if start < fields.len() && fields[start].0 != key {
        lemma_position_from(fields, key, start + 1);
    }
}

/// The model of a list of object fields.
pub open spec fn fields_model(fields: Seq<(String, Json)>) -> Fields
    decreases fields,
{
    Seq::new(
        fields.len(),
        |i: int|
            if 0 <= i < fields.len() {
                (fields[i].0@, fields[i].1@)
            } else {
                (Seq::empty(), JsonModel::Null)
            },
    )
}

/// The model of a list of array items.
pub open spec fn items_model(items: Seq<Json>) -> Seq<JsonModel>
    decreases items,
{
    Seq::new(
        items.len(),
        |i: int|
            if 0 <= i < items.len() {
                items[i]@
            } else {
                JsonModel::Null
            },
    )
}

impl View for Json {
    type V = JsonModel;

    open spec fn view(&self) -> JsonModel
        decreases self,
    {
        match self {
            Json::Null => JsonModel::Null,
            Json::Bool(b) => JsonModel::Bool(*b),
            Json::Number(n) => JsonModel::Number(*n),
            Json::Text(s) => JsonModel::Text(s@),
            Json::Array(items) => JsonModel::Array(items_model(items@)),
            Json::Object(fields) => JsonModel::Object(fields_model(fields@)),
        }
    }
}

impl JsonModel {
    /// The value under `key`, where this document is an object that has such a
    /// field.
    pub open spec fn field(self, key: Seq<char>) -> Option<JsonModel> {
        match self {
            JsonModel::Object(fields) => lookup(fields, key),
            _ => None,
        }
    }
}

/// `==` on `str` (`PartialEq::eq`) answers whether the two slices hold the
/// same characters in the same order.
pub assume_specification[ <str as PartialEq>::eq ](a: &str, b: &str) -> (r: bool)
    ensures
        r == (a@ == b@),
;

/// Whether two string slices hold the same characters.
pub fn same(a: &str, b: &str) -> (r: bool)
    ensures
        r == (a@ == b@),
{
    *a == *b
}

/// Appends a field to the fields of an object.
pub fn push_field(fields: &mut Vec<(String, Json)>, key: &str, value: Json)
    ensures
        fields_model(final(fields)@) == fields_model(old(fields)@).push((key@, value@)),
{
    let ghost before = fields_model(fields@);
    let ghost added = value@;
    fields.push((key.to_owned(), value));
    assert(fields_model(fields@) =~= before.push((key@, added)));
}

/// Adding nothing to a list of fields leaves it as it is.
pub proof fn lemma_nothing_added(start: Fields)
    ensures
        start + Seq::<(Seq<char>, JsonModel)>::empty() == start,
{
    assert(start + Seq::<(Seq<char>, JsonModel)>::empty() =~= start);
}

/// A field that is pushed after `start + done` extends `done`.
pub proof fn lemma_added(
    start: Fields,
    done: Fields,
    key: Seq<char>,
    value: JsonModel,
) -> (added: Fields)
    ensures
        added == done.push((key, value)),
        (start + done).push((key, value)) == start + added,
{
    let added = done.push((key, value));
    assert((start + done).push((key, value)) =~= start + added);
    added
}

/// Fields that are appended in two steps are appended as one list.
pub proof fn lemma_appended(start: Fields, first: Fields, second: Fields)
    ensures
        (start + first) + second == start + (first + second),
{
    assert((start + first) + second =~= start + (first + second));
}

/// Finds the first field named `key`.
pub fn find_field<'a>(fields: &'a Vec<(String, Json)>, key: &str) -> (r: Option<&'a Json>)
    ensures
        match r {
            Some(v) => lookup(fields_model(fields@), key@) == Some(v@),
            None => lookup(fields_model(fields@), key@) is None,
        },
{
    let ghost model = fields_model(fields@);
    let mut i: usize = 0;
    while i < fields.len()
        invariant
            0 <= i <= fields.len(),
            model == fields_model(fields@),
            position(model, key@) == position_from(model, key@, i as int),
        decreases fields.len() - i,
    {
        if same(fields[i].0.as_str(), key) {
            return Some(&fields[i].1);
        }
        i += 1;
    }
    None
}

impl Json {
    /// The value under `key`, where this document is an object that has such a
    /// field; the first one, where several fields share the key.
    pub fn get<'a>(&'a self, key: &str) -> (r: Option<&'a Json>)
        ensures
            match r {
                Some(v) => self@.field(key@) == Some(v@),
                None => self@.field(key@) is None,
            },
    {
        match self {
            Json::Object(fields) => find_field(fields, key),
            _ => None,
        }
    }

    /// A deep copy of the document.
    pub fn copy(&self) -> (r: Json)
        ensures
            r@ == self@,
        decreases self,
    {
        match self {
            Json::Null => Json::Null,
            Json::Bool(b) => Json::Bool(*b),
            Json::Number(n) => Json::Number(*n),
            Json::Text(s) => Json::Text(s.clone()),
            Json::Array(items) => {
                let mut copied: Vec<Json> = Vec::new();
                let mut i: usize = 0;
                while i < items.len()
                    invariant
                        0 <= i <= items.len(),
                        copied.len() == i,
                        *self == Json::Array(*items),
                        forall|k: int| 0 <= k < i ==> copied[k]@ == items[k]@,
                    decreases items.len() - i,
                {
                    assert(decreases_to!(*self => self->Array_0));
                    copied.push(items[i].copy());
                    i += 1;
                }
                assert(items_model(copied@) =~= items_model(items@));
                Json::Array(copied)
            },
            Json::Object(fields) => {
                let mut copied: Vec<(String, Json)> = Vec::new();
                let mut i: usize = 0;
                while i < fields.len()
                    invariant
                        0 <= i <= fields.len(),
                        copied.len() == i,
                        *self == Json::Object(*fields),
                        forall|k: int|
                            0 <= k < i ==> copied[k].0@ == fields[k].0@ && copied[k].1@
                                == fields[k].1@,
                    decreases fields.len() - i,
                {
                    assert(decreases_to!(*self => self->Object_0));
                    copied.push((fields[i].0.clone(), fields[i].1.copy()));
                    i += 1;
                }
                assert(fields_model(copied@) =~= fields_model(fields@));
                Json::Object(copied)
            },
        }
    }
}

} // verus!

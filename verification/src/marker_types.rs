//! The plain values that properties hold.

use vstd::prelude::*;
use crate::error::{CodecError, ErrorKind};
use crate::json::{fields_model, position, position_from, Fields, Json, JsonModel};
use crate::schema::{
    normal_language_map, normal_plain, put, Normal, NormalFields, Plain,
};

verus! {

pub type URI = String;

pub type LanguageTag = String;

pub type MIMEType = String;

pub type RFC5988 = String;

pub type RadiusAltitudeUnit = String;

pub type Duration = String;

/// A text in several languages: each language tag once, with its text, in the
/// order in which the tags first came.
#[derive(Debug, PartialEq, Eq)]
pub struct LocalizedString {
    entries: Vec<(String, String)>,
}

/// The object fields that a list of tags and texts is written as.
pub open spec fn strings_model(entries: Seq<(String, String)>) -> Fields {
    Seq::new(entries.len(), |i: int| (entries[i].0@, JsonModel::Text(entries[i].1@)))
}

/// Once a field has failed, reading further fields changes nothing.
proof fn lemma_language_map_failure_stays(fields: Fields, k: nat, m: nat)
    requires
        k <= m <= fields.len(),
        normal_language_map(fields, k) is Err,
    ensures
        normal_language_map(fields, m) == normal_language_map(fields, k),
    decreases m,
{
    if m > k {
        lemma_language_map_failure_stays(fields, k, (m - 1) as nat);
    }
}

/// Puts a text under its tag: in place of the text that the tag had, or at
/// the end.
fn put_entry(entries: &mut Vec<(String, String)>, key: String, value: String)
    ensures
        strings_model(final(entries)@) == put(
            strings_model(old(entries)@),
            key@,
            JsonModel::Text(value@),
        ),
{
    let ghost before = strings_model(entries@);
    let mut i: usize = 0;
    while i < entries.len()
        invariant
            0 <= i <= entries.len(),
            before == strings_model(entries@),
            before == strings_model(old(entries)@),
            position(before, key@) == position_from(before, key@, i as int),
        decreases entries.len() - i,
    {
        if entries[i].0 == key {
            entries[i] = (key, value);
            assert(strings_model(entries@) =~= before.update(
                i as int,
                (key@, JsonModel::Text(value@)),
            ));
            return ;
        }
        i += 1;
    }
    entries.push((key, value));
    assert(strings_model(entries@) =~= before.push((key@, JsonModel::Text(value@))));
}

impl LocalizedString {
    /// The object that the texts are written as.
    pub closed spec fn wire(&self) -> JsonModel {
        JsonModel::Object(strings_model(self.entries@))
    }

    /// Reads an object whose values are strings. Where a tag occurs more than
    /// once, its last text is kept.
    pub fn decode(j: &Json) -> (r: Result<LocalizedString, CodecError>)
        ensures
            match r {
                Ok(map) => normal_plain(Plain::LanguageMap, j@) == Normal::Ok(map.wire()),
                Err(e) => normal_plain(Plain::LanguageMap, j@) == Normal::Err(e@),
            },
    {
        match j {
            Json::Object(fields) => {
                let ghost model = fields_model(fields@);
                let mut entries: Vec<(String, String)> = Vec::new();
                let mut k: usize = 0;
                assert(strings_model(entries@) =~= Seq::empty());
                while k < fields.len()
                    invariant
                        0 <= k <= fields.len(),
                        model == fields_model(fields@),
                        j@ == JsonModel::Object(model),
                        normal_language_map(model, k as nat) == NormalFields::Ok(
                            strings_model(entries@),
                        ),
                    decreases fields.len() - k,
                {
                    match &fields[k].1 {
                        Json::Text(text) => {
                            put_entry(&mut entries, fields[k].0.clone(), text.clone());
                        },
                        _ => {
                            proof {
                                lemma_language_map_failure_stays(
                                    model,
                                    (k + 1) as nat,
                                    model.len(),
                                );
                            }
                            return Err(
                                CodecError::at_root(ErrorKind::FieldTypeMismatch).within(
                                    fields[k].0.as_str(),
                                ),
                            );
                        },
                    }
                    k += 1;
                }
                Ok(LocalizedString { entries })
            },
            _ => Err(CodecError::at_root(ErrorKind::FieldTypeMismatch)),
        }
    }

    /// Writes the texts as an object, tag by tag.
    pub fn encode(&self) -> (r: Json)
        ensures
            r@ == self.wire(),
    {
        let mut fields: Vec<(String, Json)> = Vec::new();
        let mut k: usize = 0;
        while k < self.entries.len()
            invariant
                0 <= k <= self.entries.len(),
                fields.len() == k,
                forall|i: int|
                    0 <= i < k ==> fields[i].0@ == self.entries[i].0@ && fields[i].1@
                        == JsonModel::Text(self.entries[i].1@),
            decreases self.entries.len() - k,
        {
            fields.push((self.entries[k].0.clone(), Json::Text(self.entries[k].1.clone())));
            k += 1;
        }
        assert(fields_model(fields@) =~= strings_model(self.entries@));
        Json::Object(fields)
    }

    /// The number of language tags.
    pub fn len(&self) -> (r: usize)
        ensures
            self.wire() matches JsonModel::Object(fields) && r == fields.len(),
    {
        self.entries.len()
    }
}

} // verus!

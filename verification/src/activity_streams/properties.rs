//! The values of properties, and how each is read from and written to a
//! document.

use vstd::prelude::*;
pub use crate::bounded::{Percentage, PositiveFloat};
use crate::document::{signed_as_float, unsigned_as_float};
use crate::error::{CodecError, ErrorKind, Failure};
use crate::instant::DateTime;
use crate::document::parsed;
use crate::envelope::Payload;
use crate::json::{
    field_keys, fields_model, items_model, lemma_added, lemma_appended, lemma_keys_appended,
    lemma_nothing_added, push_field, same, Fields, Json, JsonModel, Number,
};
use crate::names::lemma_tag_signatures;
use crate::marker_types::{
    Duration, LanguageTag, LocalizedString, MIMEType, RadiusAltitudeUnit, RFC5988, URI,
};
use crate::schema::{
    candidates, closed_field, collection_field, count_field, discriminator, first_accepting, float,
    float_bits, images_field, lemma_items_failure_stays, lemma_normal_field,
    instant_field, language_map_field, links_field, normal_field, normal_item, normal_items,
    layout_keys, layout_of, present_value, tagged_fields, Normal, NormalItems,
    normal_plain, normal_shape, normal_tagged, object_field, objects_field, page_field,
    percentage_field,
    positive_float_field, real_field, relations_field, tagged_object_field, tagged_objects_field,
    text_field, type_key, Family, Item, Plain,
};
use crate::stable::{lemma_item_output, lemma_stable_items};
use crate::util::FoldedSlice;
use crate::error::Union;
use super::objects::{Collection, CollectionPage, OrderedCollection, OrderedCollectionPage};
use super::{MaybeImage, MaybeLink, MaybeObject, TaggedLink, TaggedObject};

verus! {

/// The value of a field that is present and not null.
pub fn present<'a>(j: &'a Json, key: &str) -> (r: Option<&'a Json>)
    ensures
        match r {
            Some(value) => present_value(j@, key@) == Some(value@),
            None => present_value(j@, key@) is None,
        },
{
    match j.get(key) {
        Some(value) => match value {
            Json::Null => None,
            _ => Some(value),
        },
        None => None,
    }
}

/// The bit pattern of a number read as floating point.
pub fn number_bits(number: &Number) -> (r: u64)
    ensures
        r == float_bits(*number),
{
    match number {
        Number::PosInt(n) => unsigned_as_float(*n),
        Number::NegInt(n) => signed_as_float(*n),
        Number::Float(bits) => *bits,
    }
}

/// Reads a string.
pub fn decode_text(j: &Json) -> (r: Result<String, CodecError>)
    ensures
        match r {
            Ok(text) => normal_plain(Plain::Text, j@) == Ok::<JsonModel, Failure>(
                JsonModel::Text(text@),
            ),
            Err(e) => normal_plain(Plain::Text, j@) == Err::<JsonModel, Failure>(e@),
        },
{
    match j {
        Json::Text(text) => Ok(text.clone()),
        _ => Err(CodecError::at_root(ErrorKind::FieldTypeMismatch)),
    }
}

/// Reads an unsigned integer.
pub fn decode_count(j: &Json) -> (r: Result<u64, CodecError>)
    ensures
        match r {
            Ok(n) => normal_plain(Plain::Count, j@) == Ok::<JsonModel, Failure>(
                JsonModel::Number(Number::PosInt(n)),
            ),
            Err(e) => normal_plain(Plain::Count, j@) == Err::<JsonModel, Failure>(e@),
        },
{
    match j {
        Json::Number(Number::PosInt(n)) => Ok(*n),
        _ => Err(CodecError::at_root(ErrorKind::FieldTypeMismatch)),
    }
}

/// Reads any number as the bit pattern of a floating-point number.
pub fn decode_real(j: &Json) -> (r: Result<u64, CodecError>)
    ensures
        match r {
            Ok(bits) => normal_plain(Plain::Real, j@) == Ok::<JsonModel, Failure>(float(bits)),
            Err(e) => normal_plain(Plain::Real, j@) == Err::<JsonModel, Failure>(e@),
        },
{
    match j {
        Json::Number(number) => Ok(number_bits(number)),
        _ => Err(CodecError::at_root(ErrorKind::FieldTypeMismatch)),
    }
}

/// Reads a number and checks that it is a percentage.
pub fn decode_percentage(j: &Json) -> (r: Result<Percentage, CodecError>)
    ensures
        match r {
            Ok(p) => normal_plain(Plain::Percentage, j@) == Ok::<JsonModel, Failure>(float(p@)),
            Err(e) => normal_plain(Plain::Percentage, j@) == Err::<JsonModel, Failure>(e@),
        },
{
    match j {
        Json::Number(number) => Percentage::new(number_bits(number)),
        _ => Err(CodecError::at_root(ErrorKind::FieldTypeMismatch)),
    }
}

/// Reads a number and checks that it is zero or more.
pub fn decode_positive_float(j: &Json) -> (r: Result<PositiveFloat, CodecError>)
    ensures
        match r {
            Ok(p) => normal_plain(Plain::PositiveFloat, j@) == Ok::<JsonModel, Failure>(float(p@)),
            Err(e) => normal_plain(Plain::PositiveFloat, j@) == Err::<JsonModel, Failure>(e@),
        },
{
    match j {
        Json::Number(number) => PositiveFloat::new(number_bits(number)),
        _ => Err(CodecError::at_root(ErrorKind::FieldTypeMismatch)),
    }
}

/// Reads a date and time.
pub fn decode_instant(j: &Json) -> (r: Result<DateTime, CodecError>)
    ensures
        match r {
            Ok(d) => d@.text() is Some && normal_plain(Plain::Instant, j@) == Ok::<
                JsonModel,
                Failure,
            >(JsonModel::Text(d@.text().unwrap())),
            Err(e) => normal_plain(Plain::Instant, j@) == Err::<JsonModel, Failure>(e@),
        },
{
    match j {
        Json::Text(text) => match DateTime::parse(text.as_str()) {
            Some(d) => Ok(d),
            None => Err(CodecError::at_root(ErrorKind::FieldTypeMismatch)),
        },
        _ => Err(CodecError::at_root(ErrorKind::FieldTypeMismatch)),
    }
}

/// Reads a boolean.
pub fn decode_flag(j: &Json) -> (r: Result<bool, CodecError>)
    ensures
        match r {
            Ok(b) => normal_plain(Plain::Flag, j@) == Ok::<JsonModel, Failure>(JsonModel::Bool(b)),
            Err(e) => normal_plain(Plain::Flag, j@) == Err::<JsonModel, Failure>(e@),
        },
{
    match j {
        Json::Bool(b) => Ok(*b),
        _ => Err(CodecError::at_root(ErrorKind::FieldTypeMismatch)),
    }
}


/// Writes a string.
pub fn encode_text(text: &String) -> (r: Json)
    ensures
        r@ == JsonModel::Text(text@),
{
    Json::Text(text.clone())
}

/// Writes a string slice.
pub fn encode_text_slice(text: &str) -> (r: Json)
    ensures
        r@ == JsonModel::Text(text@),
{
    Json::Text(text.to_owned())
}

/// What closed a question: an object, a link, a date or a plain yes or no.
///
/// The shapes are tried in the order in which the variants stand, and the first
/// that fits decides.
#[derive(Debug, PartialEq)]
pub enum MaybeClosed {
    URI(URI),
    TaggedLink(TaggedLink),
    TaggedObject(TaggedObject),
    Date(DateTime),
    Bool(bool),
}

impl MaybeClosed {
    /// The place of the variant in the order in which the shapes are tried.
    pub open spec fn rank(&self) -> nat {
        match self {
            MaybeClosed::URI(_) => 0,
            MaybeClosed::TaggedLink(_) => 1,
            MaybeClosed::TaggedObject(_) => 2,
            MaybeClosed::Date(_) => 3,
            MaybeClosed::Bool(_) => 4,
        }
    }

    /// The document that the value is written as.
    #[verifier::opaque]
    pub open spec fn wire(&self) -> JsonModel
        decreases self, 0nat,
    {
        match self {
            MaybeClosed::URI(v) => JsonModel::Text(v@),
            MaybeClosed::TaggedLink(v) => JsonModel::Object(v.wire_fields()),
            MaybeClosed::TaggedObject(v) => JsonModel::Object(v.wire_fields()),
            MaybeClosed::Date(v) => JsonModel::Text(v@.text().unwrap()),
            MaybeClosed::Bool(v) => JsonModel::Bool(*v),
        }
    }

    /// Reads the value: the first variant whose shape fits the document.
    pub fn decode(j: &Json) -> (r: Result<MaybeClosed, CodecError>)
        ensures
            match r {
                Ok(value) => {
                    &&& normal_item(Item::Choice(Union::Closed), j@) == Normal::Ok(value.wire())
                    &&& first_accepting(candidates(Union::Closed), j@, 0) == Some(value.rank())
                },
                Err(e) => normal_item(Item::Choice(Union::Closed), j@) == Normal::Err(e@),
            },
        decreases j@, 6nat, 0nat,
    {
        proof {
            reveal(MaybeClosed::wire);
            reveal(TaggedLink::wire_fields);
            reveal(TaggedObject::wire_fields);
            reveal_with_fuel(first_accepting, 6);
        }
        match decode_text(j) {
            Ok(v) => {
                return Ok(MaybeClosed::URI(v));
            },
            Err(_) => {},
        }
        match TaggedLink::decode(j) {
            Ok(v) => {
                return Ok(MaybeClosed::TaggedLink(v));
            },
            Err(_) => {},
        }
        match TaggedObject::decode(j) {
            Ok(v) => {
                return Ok(MaybeClosed::TaggedObject(v));
            },
            Err(_) => {},
        }
        match decode_instant(j) {
            Ok(v) => {
                return Ok(MaybeClosed::Date(v));
            },
            Err(_) => {},
        }
        match decode_flag(j) {
            Ok(v) => {
                return Ok(MaybeClosed::Bool(v));
            },
            Err(_) => {},
        }
        Err(CodecError::at_root(ErrorKind::NoMatchingVariant(Union::Closed)))
    }

    /// Writes the value in the shape of its variant.
    pub fn encode(&self) -> (r: Json)
        ensures
            r@ == self.wire(),
        decreases self,
    {
        proof {
            reveal(MaybeClosed::wire);
            reveal(TaggedLink::wire_fields);
            reveal(TaggedObject::wire_fields);
        }
        match self {
            MaybeClosed::URI(v) => encode_text(v),
            MaybeClosed::TaggedLink(v) => v.encode(),
            MaybeClosed::TaggedObject(v) => v.encode(),
            MaybeClosed::Date(v) => Json::Text(v.to_text()),
            MaybeClosed::Bool(v) => Json::Bool(*v),
        }
    }
}

/// A collection, given by its identifier, by a link or in full.
///
/// The shapes are tried in the order in which the variants stand, and the first
/// that fits decides.
#[derive(Debug, PartialEq)]
pub enum MaybeCollection {
    URI(URI),
    TaggedLink(TaggedLink),
    TaggedCollection(TaggedCollection),
}

impl MaybeCollection {
    /// The place of the variant in the order in which the shapes are tried.
    pub open spec fn rank(&self) -> nat {
        match self {
            MaybeCollection::URI(_) => 0,
            MaybeCollection::TaggedLink(_) => 1,
            MaybeCollection::TaggedCollection(_) => 2,
        }
    }

    /// The document that the value is written as.
    #[verifier::opaque]
    pub open spec fn wire(&self) -> JsonModel
        decreases self, 0nat,
    {
        match self {
            MaybeCollection::URI(v) => JsonModel::Text(v@),
            MaybeCollection::TaggedLink(v) => JsonModel::Object(v.wire_fields()),
            MaybeCollection::TaggedCollection(v) => JsonModel::Object(v.wire_fields()),
        }
    }

    /// Reads the value: the first variant whose shape fits the document.
    pub fn decode(j: &Json) -> (r: Result<MaybeCollection, CodecError>)
        ensures
            match r {
                Ok(value) => {
                    &&& normal_item(Item::Choice(Union::Collection), j@) == Normal::Ok(value.wire())
                    &&& first_accepting(candidates(Union::Collection), j@, 0) == Some(value.rank())
                },
                Err(e) => normal_item(Item::Choice(Union::Collection), j@) == Normal::Err(e@),
            },
        decreases j@, 6nat, 0nat,
    {
        proof {
            reveal(MaybeCollection::wire);
            reveal(TaggedLink::wire_fields);
            reveal(TaggedCollection::wire_fields);
            reveal_with_fuel(first_accepting, 4);
        }
        match decode_text(j) {
            Ok(v) => {
                return Ok(MaybeCollection::URI(v));
            },
            Err(_) => {},
        }
        match TaggedLink::decode(j) {
            Ok(v) => {
                return Ok(MaybeCollection::TaggedLink(v));
            },
            Err(_) => {},
        }
        match TaggedCollection::decode(j) {
            Ok(v) => {
                return Ok(MaybeCollection::TaggedCollection(v));
            },
            Err(_) => {},
        }
        Err(CodecError::at_root(ErrorKind::NoMatchingVariant(Union::Collection)))
    }

    /// Writes the value in the shape of its variant.
    pub fn encode(&self) -> (r: Json)
        ensures
            r@ == self.wire(),
        decreases self,
    {
        proof {
            reveal(MaybeCollection::wire);
            reveal(TaggedLink::wire_fields);
            reveal(TaggedCollection::wire_fields);
        }
        match self {
            MaybeCollection::URI(v) => encode_text(v),
            MaybeCollection::TaggedLink(v) => v.encode(),
            MaybeCollection::TaggedCollection(v) => v.encode(),
        }
    }
}

/// A collection or a page of one, told apart by its discriminator.
#[derive(Debug, PartialEq)]
pub enum TaggedCollection {
    Collection(Collection),
    OrderedCollection(OrderedCollection),
    CollectionPage(CollectionPage),
    OrderedCollectionPage(OrderedCollectionPage),
}

impl TaggedCollection {
    /// The discriminator of the variant.
    pub open spec fn tag_model(&self) -> Seq<char> {
        match self {
            TaggedCollection::Collection(_) => "Collection"@,
            TaggedCollection::OrderedCollection(_) => "OrderedCollection"@,
            TaggedCollection::CollectionPage(_) => "CollectionPage"@,
            TaggedCollection::OrderedCollectionPage(_) => "OrderedCollectionPage"@,
        }
    }

    /// The fields that the value is written as: the discriminator first, then
    /// the fields of the variant.
    #[verifier::opaque]
    pub open spec fn wire_fields(&self) -> Fields
        decreases self, 3nat,
    {
        match self {
            TaggedCollection::Collection(v) => tagged_fields("Collection"@, v.wire_fields()),
            TaggedCollection::OrderedCollection(v) => tagged_fields(
                "OrderedCollection"@,
                v.wire_fields(),
            ),
            TaggedCollection::CollectionPage(v) => tagged_fields(
                "CollectionPage"@,
                v.wire_fields(),
            ),
            TaggedCollection::OrderedCollectionPage(v) => tagged_fields(
                "OrderedCollectionPage"@,
                v.wire_fields(),
            ),
        }
    }

    /// The document that the value is written as.
    pub open spec fn wire(&self) -> JsonModel {
        JsonModel::Object(self.wire_fields())
    }

    /// The discriminator of the variant.
    pub fn tag(&self) -> (r: &'static str)
        ensures
            r@ == self.tag_model(),
    {
        match self {
            TaggedCollection::Collection(_) => "Collection",
            TaggedCollection::OrderedCollection(_) => "OrderedCollection",
            TaggedCollection::CollectionPage(_) => "CollectionPage",
            TaggedCollection::OrderedCollectionPage(_) => "OrderedCollectionPage",
        }
    }

    /// The value is written flat: under the discriminator and then under the
    /// keys of the layout that the discriminator selects.
    pub proof fn law_written_flat(&self)
        ensures
            layout_of(Family::Collection, self.tag_model()) matches Some(layout) && field_keys(
                self.wire_fields(),
            ) == seq![type_key()] + layout_keys(layout),
    {
        reveal(TaggedCollection::wire_fields);
        lemma_tag_signatures();
        match self {
            TaggedCollection::Collection(v) => {
                v.law_written_flat();
                lemma_keys_appended(discriminator("Collection"@), v.wire_fields());
                assert(field_keys(discriminator("Collection"@)) =~= seq![type_key()]);
            },
            TaggedCollection::OrderedCollection(v) => {
                v.law_written_flat();
                lemma_keys_appended(discriminator("OrderedCollection"@), v.wire_fields());
                assert(field_keys(discriminator("OrderedCollection"@)) =~= seq![type_key()]);
            },
            TaggedCollection::CollectionPage(v) => {
                v.law_written_flat();
                lemma_keys_appended(discriminator("CollectionPage"@), v.wire_fields());
                assert(field_keys(discriminator("CollectionPage"@)) =~= seq![type_key()]);
            },
            TaggedCollection::OrderedCollectionPage(v) => {
                v.law_written_flat();
                lemma_keys_appended(discriminator("OrderedCollectionPage"@), v.wire_fields());
                assert(field_keys(discriminator("OrderedCollectionPage"@)) =~= seq![type_key()]);
            },
        }
    }

    /// Reads the variant that the discriminator names. A document without a
    /// discriminator and one with a discriminator that the family does not know
    /// are refused.
    pub fn decode(j: &Json) -> (r: Result<TaggedCollection, CodecError>)
        ensures
            match r {
                Ok(value) => normal_plain(Plain::Tagged(Family::Collection), j@) == Normal::Ok(
                    value.wire(),
                ),
                Err(e) => normal_plain(Plain::Tagged(Family::Collection), j@) == Normal::Err(e@),
            },
        decreases j@, 3nat, 0nat,
    {
        proof {
            reveal(TaggedCollection::wire_fields);
        }
        match j {
            Json::Object(_) => {},
            _ => {
                return Err(CodecError::at_root(ErrorKind::FieldTypeMismatch));
            },
        }
        let tag = match j.get("type") {
            Some(Json::Text(tag)) => tag,
            Some(_) => {
                return Err(CodecError::at_root(ErrorKind::FieldTypeMismatch).within("type"));
            },
            None => {
                return Err(CodecError::at_root(ErrorKind::MissingDiscriminator));
            },
        };
        if same(tag.as_str(), "Collection") {
            match Collection::decode(j) {
                Ok(v) => Ok(TaggedCollection::Collection(v)),
                Err(e) => Err(e),
            }
        } else if same(tag.as_str(), "OrderedCollection") {
            match OrderedCollection::decode(j) {
                Ok(v) => Ok(TaggedCollection::OrderedCollection(v)),
                Err(e) => Err(e),
            }
        } else if same(tag.as_str(), "CollectionPage") {
            match CollectionPage::decode(j) {
                Ok(v) => Ok(TaggedCollection::CollectionPage(v)),
                Err(e) => Err(e),
            }
        } else if same(tag.as_str(), "OrderedCollectionPage") {
            match OrderedCollectionPage::decode(j) {
                Ok(v) => Ok(TaggedCollection::OrderedCollectionPage(v)),
                Err(e) => Err(e),
            }
        } else {
            Err(CodecError::at_root(ErrorKind::UnknownVariant(tag.clone())))
        }
    }

    /// Appends the discriminator and the fields of the variant to the fields
    /// of an object.
    pub fn encode_into(&self, out: &mut Vec<(String, Json)>)
        ensures
            fields_model(final(out)@) == fields_model(old(out)@) + self.wire_fields(),
        decreases self,
    {
        proof {
            reveal(TaggedCollection::wire_fields);
        }
        let ghost start = fields_model(out@);
        push_field(out, "type", encode_text_slice(self.tag()));
        proof {
            lemma_nothing_added(start);
            lemma_added(start, Seq::empty(), type_key(), JsonModel::Text(self.tag_model()));
        }
        match self {
            TaggedCollection::Collection(v) => {
                v.encode_into(out);
                proof {
                    lemma_appended(start, discriminator("Collection"@), v.wire_fields());
                }
            },
            TaggedCollection::OrderedCollection(v) => {
                v.encode_into(out);
                proof {
                    lemma_appended(start, discriminator("OrderedCollection"@), v.wire_fields());
                }
            },
            TaggedCollection::CollectionPage(v) => {
                v.encode_into(out);
                proof {
                    lemma_appended(start, discriminator("CollectionPage"@), v.wire_fields());
                }
            },
            TaggedCollection::OrderedCollectionPage(v) => {
                v.encode_into(out);
                proof {
                    lemma_appended(start, discriminator("OrderedCollectionPage"@), v.wire_fields());
                }
            },
        }
    }

    /// Writes the discriminator, then the fields of the variant.
    pub fn encode(&self) -> (r: Json)
        ensures
            r@ == self.wire(),
        decreases self,
    {
        proof {
            reveal(TaggedCollection::wire_fields);
        }
        let mut fields: Vec<(String, Json)> = Vec::new();
        push_field(&mut fields, "type", encode_text_slice(self.tag()));
        assert(fields_model(fields@) =~= discriminator(self.tag_model()));
        match self {
            TaggedCollection::Collection(v) => v.encode_into(&mut fields),
            TaggedCollection::OrderedCollection(v) => v.encode_into(&mut fields),
            TaggedCollection::CollectionPage(v) => v.encode_into(&mut fields),
            TaggedCollection::OrderedCollectionPage(v) => v.encode_into(&mut fields),
        }
        Json::Object(fields)
    }

    /// Reads the value from JSON text.
    pub fn parse(text: &str) -> (r: Result<TaggedCollection, CodecError>)
        ensures
            match r {
                Ok(value) => parsed(text@) matches Ok(document) && normal_plain(
                    Plain::Tagged(Family::Collection),
                    document,
                ) == Normal::Ok(value.wire()),
                Err(e) => match parsed(text@) {
                    Ok(document) => normal_plain(Plain::Tagged(Family::Collection), document)
                        == Normal::Err(e@),
                    Err(f) => e@ == f,
                },
            },
    {
        match Json::parse(text) {
            Ok(document) => TaggedCollection::decode(&document),
            Err(e) => Err(e),
        }
    }
}

impl Payload for TaggedCollection {
    open spec fn payload_fields(&self) -> Fields {
        self.wire_fields()
    }

    open spec fn payload_normal(j: JsonModel) -> Result<Fields, Failure> {
        normal_tagged(Family::Collection, j)
    }

    fn read_payload(j: &Json) -> (r: Result<TaggedCollection, CodecError>) {
        proof {
            assert(normal_plain(Plain::Tagged(Family::Collection), j@) == match normal_tagged(
                Family::Collection,
                j@,
            ) {
                Ok(fields) => Normal::Ok(JsonModel::Object(fields)),
                Err(e) => Err(e),
            });
        }
        match TaggedCollection::decode(j) {
            Ok(value) => Ok(value),
            Err(e) => Err(e),
        }
    }

    fn write_payload(&self, out: &mut Vec<(String, Json)>) {
        self.encode_into(out)
    }
}

/// A page of a collection, given by its identifier, by a link or in full.
///
/// The shapes are tried in the order in which the variants stand, and the first
/// that fits decides.
#[derive(Debug, PartialEq)]
pub enum MaybeCollectionPage {
    URI(URI),
    TaggedLink(TaggedLink),
    Tagged(TaggedCollectionPage),
}

impl MaybeCollectionPage {
    /// The place of the variant in the order in which the shapes are tried.
    pub open spec fn rank(&self) -> nat {
        match self {
            MaybeCollectionPage::URI(_) => 0,
            MaybeCollectionPage::TaggedLink(_) => 1,
            MaybeCollectionPage::Tagged(_) => 2,
        }
    }

    /// The document that the value is written as.
    #[verifier::opaque]
    pub open spec fn wire(&self) -> JsonModel
        decreases self, 0nat,
    {
        match self {
            MaybeCollectionPage::URI(v) => JsonModel::Text(v@),
            MaybeCollectionPage::TaggedLink(v) => JsonModel::Object(v.wire_fields()),
            MaybeCollectionPage::Tagged(v) => JsonModel::Object(v.wire_fields()),
        }
    }

    /// Reads the value: the first variant whose shape fits the document.
    pub fn decode(j: &Json) -> (r: Result<MaybeCollectionPage, CodecError>)
        ensures
            match r {
                Ok(value) => {
                    &&& normal_item(Item::Choice(Union::CollectionPage), j@) == Normal::Ok(
                        value.wire(),
                    )
                    &&& first_accepting(candidates(Union::CollectionPage), j@, 0) == Some(
                        value.rank(),
                    )
                },
                Err(e) => normal_item(Item::Choice(Union::CollectionPage), j@) == Normal::Err(e@),
            },
        decreases j@, 6nat, 0nat,
    {
        proof {
            reveal(MaybeCollectionPage::wire);
            reveal(TaggedLink::wire_fields);
            reveal(TaggedCollectionPage::wire_fields);
            reveal_with_fuel(first_accepting, 4);
        }
        match decode_text(j) {
            Ok(v) => {
                return Ok(MaybeCollectionPage::URI(v));
            },
            Err(_) => {},
        }
        match TaggedLink::decode(j) {
            Ok(v) => {
                return Ok(MaybeCollectionPage::TaggedLink(v));
            },
            Err(_) => {},
        }
        match TaggedCollectionPage::decode(j) {
            Ok(v) => {
                return Ok(MaybeCollectionPage::Tagged(v));
            },
            Err(_) => {},
        }
        Err(CodecError::at_root(ErrorKind::NoMatchingVariant(Union::CollectionPage)))
    }

    /// Writes the value in the shape of its variant.
    pub fn encode(&self) -> (r: Json)
        ensures
            r@ == self.wire(),
        decreases self,
    {
        proof {
            reveal(MaybeCollectionPage::wire);
            reveal(TaggedLink::wire_fields);
            reveal(TaggedCollectionPage::wire_fields);
        }
        match self {
            MaybeCollectionPage::URI(v) => encode_text(v),
            MaybeCollectionPage::TaggedLink(v) => v.encode(),
            MaybeCollectionPage::Tagged(v) => v.encode(),
        }
    }
}

/// A page of a collection, told apart by its discriminator.
#[derive(Debug, PartialEq)]
pub enum TaggedCollectionPage {
    CollectionPage(CollectionPage),
    OrderedCollectionPage(OrderedCollectionPage),
}

impl TaggedCollectionPage {
    /// The discriminator of the variant.
    pub open spec fn tag_model(&self) -> Seq<char> {
        match self {
            TaggedCollectionPage::CollectionPage(_) => "CollectionPage"@,
            TaggedCollectionPage::OrderedCollectionPage(_) => "OrderedCollectionPage"@,
        }
    }

    /// The fields that the value is written as: the discriminator first, then
    /// the fields of the variant.
    #[verifier::opaque]
    pub open spec fn wire_fields(&self) -> Fields
        decreases self, 3nat,
    {
        match self {
            TaggedCollectionPage::CollectionPage(v) => tagged_fields(
                "CollectionPage"@,
                v.wire_fields(),
            ),
            TaggedCollectionPage::OrderedCollectionPage(v) => tagged_fields(
                "OrderedCollectionPage"@,
                v.wire_fields(),
            ),
        }
    }

    /// The document that the value is written as.
    pub open spec fn wire(&self) -> JsonModel {
        JsonModel::Object(self.wire_fields())
    }

    /// The discriminator of the variant.
    pub fn tag(&self) -> (r: &'static str)
        ensures
            r@ == self.tag_model(),
    {
        match self {
            TaggedCollectionPage::CollectionPage(_) => "CollectionPage",
            TaggedCollectionPage::OrderedCollectionPage(_) => "OrderedCollectionPage",
        }
    }

    /// The value is written flat: under the discriminator and then under the
    /// keys of the layout that the discriminator selects.
    pub proof fn law_written_flat(&self)
        ensures
            layout_of(Family::CollectionPage, self.tag_model()) matches Some(layout) && field_keys(
                self.wire_fields(),
            ) == seq![type_key()] + layout_keys(layout),
    {
        reveal(TaggedCollectionPage::wire_fields);
        lemma_tag_signatures();
        match self {
            TaggedCollectionPage::CollectionPage(v) => {
                v.law_written_flat();
                lemma_keys_appended(discriminator("CollectionPage"@), v.wire_fields());
                assert(field_keys(discriminator("CollectionPage"@)) =~= seq![type_key()]);
            },
            TaggedCollectionPage::OrderedCollectionPage(v) => {
                v.law_written_flat();
                lemma_keys_appended(discriminator("OrderedCollectionPage"@), v.wire_fields());
                assert(field_keys(discriminator("OrderedCollectionPage"@)) =~= seq![type_key()]);
            },
        }
    }

    /// Reads the variant that the discriminator names. A document without a
    /// discriminator and one with a discriminator that the family does not know
    /// are refused.
    pub fn decode(j: &Json) -> (r: Result<TaggedCollectionPage, CodecError>)
        ensures
            match r {
                Ok(value) => normal_plain(Plain::Tagged(Family::CollectionPage), j@) == Normal::Ok(
                    value.wire(),
                ),
                Err(e) => normal_plain(Plain::Tagged(Family::CollectionPage), j@) == Normal::Err(
                    e@,
                ),
            },
        decreases j@, 3nat, 0nat,
    {
        proof {
            reveal(TaggedCollectionPage::wire_fields);
        }
        match j {
            Json::Object(_) => {},
            _ => {
                return Err(CodecError::at_root(ErrorKind::FieldTypeMismatch));
            },
        }
        let tag = match j.get("type") {
            Some(Json::Text(tag)) => tag,
            Some(_) => {
                return Err(CodecError::at_root(ErrorKind::FieldTypeMismatch).within("type"));
            },
            None => {
                return Err(CodecError::at_root(ErrorKind::MissingDiscriminator));
            },
        };
        if same(tag.as_str(), "CollectionPage") {
            match CollectionPage::decode(j) {
                Ok(v) => Ok(TaggedCollectionPage::CollectionPage(v)),
                Err(e) => Err(e),
            }
        } else if same(tag.as_str(), "OrderedCollectionPage") {
            match OrderedCollectionPage::decode(j) {
                Ok(v) => Ok(TaggedCollectionPage::OrderedCollectionPage(v)),
                Err(e) => Err(e),
            }
        } else {
            Err(CodecError::at_root(ErrorKind::UnknownVariant(tag.clone())))
        }
    }

    /// Appends the discriminator and the fields of the variant to the fields
    /// of an object.
    pub fn encode_into(&self, out: &mut Vec<(String, Json)>)
        ensures
            fields_model(final(out)@) == fields_model(old(out)@) + self.wire_fields(),
        decreases self,
    {
        proof {
            reveal(TaggedCollectionPage::wire_fields);
        }
        let ghost start = fields_model(out@);
        push_field(out, "type", encode_text_slice(self.tag()));
        proof {
            lemma_nothing_added(start);
            lemma_added(start, Seq::empty(), type_key(), JsonModel::Text(self.tag_model()));
        }
        match self {
            TaggedCollectionPage::CollectionPage(v) => {
                v.encode_into(out);
                proof {
                    lemma_appended(start, discriminator("CollectionPage"@), v.wire_fields());
                }
            },
            TaggedCollectionPage::OrderedCollectionPage(v) => {
                v.encode_into(out);
                proof {
                    lemma_appended(start, discriminator("OrderedCollectionPage"@), v.wire_fields());
                }
            },
        }
    }

    /// Writes the discriminator, then the fields of the variant.
    pub fn encode(&self) -> (r: Json)
        ensures
            r@ == self.wire(),
        decreases self,
    {
        proof {
            reveal(TaggedCollectionPage::wire_fields);
        }
        let mut fields: Vec<(String, Json)> = Vec::new();
        push_field(&mut fields, "type", encode_text_slice(self.tag()));
        assert(fields_model(fields@) =~= discriminator(self.tag_model()));
        match self {
            TaggedCollectionPage::CollectionPage(v) => v.encode_into(&mut fields),
            TaggedCollectionPage::OrderedCollectionPage(v) => v.encode_into(&mut fields),
        }
        Json::Object(fields)
    }

    /// Reads the value from JSON text.
    pub fn parse(text: &str) -> (r: Result<TaggedCollectionPage, CodecError>)
        ensures
            match r {
                Ok(value) => parsed(text@) matches Ok(document) && normal_plain(
                    Plain::Tagged(Family::CollectionPage),
                    document,
                ) == Normal::Ok(value.wire()),
                Err(e) => match parsed(text@) {
                    Ok(document) => normal_plain(Plain::Tagged(Family::CollectionPage), document)
                        == Normal::Err(e@),
                    Err(f) => e@ == f,
                },
            },
    {
        match Json::parse(text) {
            Ok(document) => TaggedCollectionPage::decode(&document),
            Err(e) => Err(e),
        }
    }
}

impl Payload for TaggedCollectionPage {
    open spec fn payload_fields(&self) -> Fields {
        self.wire_fields()
    }

    open spec fn payload_normal(j: JsonModel) -> Result<Fields, Failure> {
        normal_tagged(Family::CollectionPage, j)
    }

    fn read_payload(j: &Json) -> (r: Result<TaggedCollectionPage, CodecError>) {
        proof {
            assert(normal_plain(Plain::Tagged(Family::CollectionPage), j@) == match normal_tagged(
                Family::CollectionPage,
                j@,
            ) {
                Ok(fields) => Normal::Ok(JsonModel::Object(fields)),
                Err(e) => Err(e),
            });
        }
        match TaggedCollectionPage::decode(j) {
            Ok(value) => Ok(value),
            Err(e) => Err(e),
        }
    }

    fn write_payload(&self, out: &mut Vec<(String, Json)>) {
        self.encode_into(out)
    }
}

pub type PropActor = FoldedSlice<MaybeObject>;

pub type PropAttachment = FoldedSlice<MaybeObject>;

pub type PropAttributedTo = FoldedSlice<MaybeObject>;

pub type PropAudience = FoldedSlice<MaybeObject>;

pub type PropBCC = FoldedSlice<MaybeObject>;

pub type PropBTO = FoldedSlice<MaybeObject>;

pub type PropCC = FoldedSlice<MaybeObject>;

pub type PropContext = FoldedSlice<MaybeObject>;

pub type PropCurrent = Box<MaybeCollectionPage>;

pub type PropFirst = Box<MaybeCollectionPage>;

pub type PropGenerator = FoldedSlice<MaybeObject>;

pub type PropIcon = FoldedSlice<MaybeImage>;

pub type PropImage = FoldedSlice<MaybeImage>;

pub type PropInReplyTo = FoldedSlice<MaybeObject>;

pub type PropInstrument = FoldedSlice<MaybeObject>;

pub type PropLast = Box<MaybeCollectionPage>;

pub type PropLocation = FoldedSlice<MaybeObject>;

pub type PropItems = FoldedSlice<MaybeObject>;

pub type PropOneOf = FoldedSlice<MaybeObject>;

pub type PropAnyOf = FoldedSlice<MaybeObject>;

pub type PropClosed = Box<MaybeClosed>;

pub type PropOrigin = FoldedSlice<MaybeObject>;

pub type PropNext = Box<MaybeCollectionPage>;

pub type PropObject = FoldedSlice<MaybeObject>;

pub type PropPrev = Box<MaybeCollectionPage>;

pub type PropPreview = FoldedSlice<MaybeObject>;

pub type PropResult = FoldedSlice<MaybeObject>;

pub type PropReplies = Box<MaybeCollection>;

pub type PropTag = FoldedSlice<MaybeObject>;

pub type PropTarget = FoldedSlice<MaybeObject>;

pub type PropTo = FoldedSlice<MaybeObject>;

pub type PropUrl = FoldedSlice<MaybeLink>;

pub type PropAccuracy = Percentage;

pub type PropAltitude = u64;

pub type PropContent = String;

pub type PropContentMap = LocalizedString;

pub type PropName = String;

pub type PropNameMap = LocalizedString;

pub type PropDuration = Duration;

pub type PropHeight = u64;

pub type PropHref = URI;

pub type PropHrefLang = LanguageTag;

pub type PropPartOf = Box<MaybeCollection>;

pub type PropLatitude = u64;

pub type PropLongitude = u64;

pub type PropMediaType = MIMEType;

pub type PropEndTime = DateTime;

pub type PropPublished = DateTime;

pub type PropStartTime = DateTime;

pub type PropRadius = PositiveFloat;

pub type PropRel = FoldedSlice<RFC5988>;

pub type PropStartIndex = u64;

pub type PropSummary = String;

pub type PropSummaryMap = LocalizedString;

pub type PropTotalItems = u64;

pub type PropUnits = RadiusAltitudeUnit;

pub type PropUpdated = DateTime;

pub type PropWidth = u64;

pub type PropSubject = Box<MaybeObject>;

pub type PropRelationship = FoldedSlice<TaggedObject>;

pub type PropDescribes = Box<TaggedObject>;

pub type PropFormerType = FoldedSlice<TaggedObject>;

pub type PropDeleted = DateTime;

/// The document of a field that may hold a string: `Null` where it holds
/// nothing.
#[verifier::opaque]
pub open spec fn text_wire(value: Option<String>) -> JsonModel
    decreases value, 2nat,
{
    match value {
        Some(v) => JsonModel::Text(v@),
        None => JsonModel::Null,
    }
}

/// Reads the field `key` as a string, where it is present and not null.
pub fn read_text(j: &Json, key: &str) -> (r: Result<Option<String>, CodecError>)
    ensures
        match r {
            Ok(value) => normal_field(text_field(), j@, key@) == Normal::Ok(text_wire(value)),
            Err(e) => normal_field(text_field(), j@, key@) == Normal::Err(e@),
        },
{
    proof {
        reveal(text_wire);
        lemma_normal_field(text_field(), j@, key@);
    }
    match present(j, key) {
        Some(value) => match decode_text(value) {
            Ok(v) => Ok(Some(v)),
            Err(e) => Err(e.within(key)),
        },
        None => Ok(None),
    }
}

/// Writes the value of a field that may hold a string.
pub fn write_text(value: &Option<String>) -> (r: Json)
    ensures
        r@ == text_wire(*value),
{
    proof {
        reveal(text_wire);
    }
    match value {
        Some(v) => encode_text(v),
        None => Json::Null,
    }
}

/// The document of a field that may hold an unsigned integer: `Null` where it holds
/// nothing.
#[verifier::opaque]
pub open spec fn count_wire(value: Option<u64>) -> JsonModel
    decreases value, 2nat,
{
    match value {
        Some(v) => JsonModel::Number(Number::PosInt(v)),
        None => JsonModel::Null,
    }
}

/// Reads the field `key` as an unsigned integer, where it is present and not null.
pub fn read_count(j: &Json, key: &str) -> (r: Result<Option<u64>, CodecError>)
    ensures
        match r {
            Ok(value) => normal_field(count_field(), j@, key@) == Normal::Ok(count_wire(value)),
            Err(e) => normal_field(count_field(), j@, key@) == Normal::Err(e@),
        },
{
    proof {
        reveal(count_wire);
        lemma_normal_field(count_field(), j@, key@);
    }
    match present(j, key) {
        Some(value) => match decode_count(value) {
            Ok(v) => Ok(Some(v)),
            Err(e) => Err(e.within(key)),
        },
        None => Ok(None),
    }
}

/// Writes the value of a field that may hold an unsigned integer.
pub fn write_count(value: &Option<u64>) -> (r: Json)
    ensures
        r@ == count_wire(*value),
{
    proof {
        reveal(count_wire);
    }
    match value {
        Some(v) => Json::Number(Number::PosInt(*v)),
        None => Json::Null,
    }
}

/// The document of a field that may hold a floating-point number: `Null` where it holds
/// nothing.
#[verifier::opaque]
pub open spec fn real_wire(value: Option<u64>) -> JsonModel
    decreases value, 2nat,
{
    match value {
        Some(v) => float(v),
        None => JsonModel::Null,
    }
}

/// Reads the field `key` as a floating-point number, where it is present and not null.
pub fn read_real(j: &Json, key: &str) -> (r: Result<Option<u64>, CodecError>)
    ensures
        match r {
            Ok(value) => normal_field(real_field(), j@, key@) == Normal::Ok(real_wire(value)),
            Err(e) => normal_field(real_field(), j@, key@) == Normal::Err(e@),
        },
{
    proof {
        reveal(real_wire);
        lemma_normal_field(real_field(), j@, key@);
    }
    match present(j, key) {
        Some(value) => match decode_real(value) {
            Ok(v) => Ok(Some(v)),
            Err(e) => Err(e.within(key)),
        },
        None => Ok(None),
    }
}

/// Writes the value of a field that may hold a floating-point number.
pub fn write_real(value: &Option<u64>) -> (r: Json)
    ensures
        r@ == real_wire(*value),
{
    proof {
        reveal(real_wire);
    }
    match value {
        Some(v) => Json::Number(Number::Float(*v)),
        None => Json::Null,
    }
}

/// The document of a field that may hold a percentage: `Null` where it holds
/// nothing.
#[verifier::opaque]
pub open spec fn percentage_wire(value: Option<Percentage>) -> JsonModel
    decreases value, 2nat,
{
    match value {
        Some(v) => float(v@),
        None => JsonModel::Null,
    }
}

/// Reads the field `key` as a percentage, where it is present and not null.
pub fn read_percentage(j: &Json, key: &str) -> (r: Result<Option<Percentage>, CodecError>)
    ensures
        match r {
            Ok(value) => normal_field(percentage_field(), j@, key@) == Normal::Ok(
                percentage_wire(value),
            ),
            Err(e) => normal_field(percentage_field(), j@, key@) == Normal::Err(e@),
        },
{
    proof {
        reveal(percentage_wire);
        lemma_normal_field(percentage_field(), j@, key@);
    }
    match present(j, key) {
        Some(value) => match decode_percentage(value) {
            Ok(v) => Ok(Some(v)),
            Err(e) => Err(e.within(key)),
        },
        None => Ok(None),
    }
}

/// Writes the value of a field that may hold a percentage.
pub fn write_percentage(value: &Option<Percentage>) -> (r: Json)
    ensures
        r@ == percentage_wire(*value),
{
    proof {
        reveal(percentage_wire);
    }
    match value {
        Some(v) => Json::Number(Number::Float(v.get())),
        None => Json::Null,
    }
}

/// The document of a field that may hold a number that is zero or more: `Null` where it holds
/// nothing.
#[verifier::opaque]
pub open spec fn positive_float_wire(value: Option<PositiveFloat>) -> JsonModel
    decreases value, 2nat,
{
    match value {
        Some(v) => float(v@),
        None => JsonModel::Null,
    }
}

/// Reads the field `key` as a number that is zero or more, where it is present and not null.
pub fn read_positive_float(j: &Json, key: &str) -> (r: Result<Option<PositiveFloat>, CodecError>)
    ensures
        match r {
            Ok(value) => normal_field(positive_float_field(), j@, key@) == Normal::Ok(
                positive_float_wire(value),
            ),
            Err(e) => normal_field(positive_float_field(), j@, key@) == Normal::Err(e@),
        },
{
    proof {
        reveal(positive_float_wire);
        lemma_normal_field(positive_float_field(), j@, key@);
    }
    match present(j, key) {
        Some(value) => match decode_positive_float(value) {
            Ok(v) => Ok(Some(v)),
            Err(e) => Err(e.within(key)),
        },
        None => Ok(None),
    }
}

/// Writes the value of a field that may hold a number that is zero or more.
pub fn write_positive_float(value: &Option<PositiveFloat>) -> (r: Json)
    ensures
        r@ == positive_float_wire(*value),
{
    proof {
        reveal(positive_float_wire);
    }
    match value {
        Some(v) => Json::Number(Number::Float(v.get())),
        None => Json::Null,
    }
}

/// The document of a field that may hold a date and time: `Null` where it holds
/// nothing.
#[verifier::opaque]
pub open spec fn instant_wire(value: Option<DateTime>) -> JsonModel
    decreases value, 2nat,
{
    match value {
        Some(v) => JsonModel::Text(v@.text().unwrap()),
        None => JsonModel::Null,
    }
}

/// Reads the field `key` as a date and time, where it is present and not null.
pub fn read_instant(j: &Json, key: &str) -> (r: Result<Option<DateTime>, CodecError>)
    ensures
        match r {
            Ok(value) => normal_field(instant_field(), j@, key@) == Normal::Ok(instant_wire(value)),
            Err(e) => normal_field(instant_field(), j@, key@) == Normal::Err(e@),
        },
{
    proof {
        reveal(instant_wire);
        lemma_normal_field(instant_field(), j@, key@);
    }
    match present(j, key) {
        Some(value) => match decode_instant(value) {
            Ok(v) => Ok(Some(v)),
            Err(e) => Err(e.within(key)),
        },
        None => Ok(None),
    }
}

/// Writes the value of a field that may hold a date and time.
pub fn write_instant(value: &Option<DateTime>) -> (r: Json)
    ensures
        r@ == instant_wire(*value),
{
    proof {
        reveal(instant_wire);
    }
    match value {
        Some(v) => Json::Text(v.to_text()),
        None => Json::Null,
    }
}

/// The document of a field that may hold a text in several languages: `Null` where it holds
/// nothing.
#[verifier::opaque]
pub open spec fn language_map_wire(value: Option<LocalizedString>) -> JsonModel
    decreases value, 2nat,
{
    match value {
        Some(v) => v.wire(),
        None => JsonModel::Null,
    }
}

/// Reads the field `key` as a text in several languages, where it is present and not null.
pub fn read_language_map(j: &Json, key: &str) -> (r: Result<Option<LocalizedString>, CodecError>)
    ensures
        match r {
            Ok(value) => normal_field(language_map_field(), j@, key@) == Normal::Ok(
                language_map_wire(value),
            ),
            Err(e) => normal_field(language_map_field(), j@, key@) == Normal::Err(e@),
        },
{
    proof {
        reveal(language_map_wire);
        lemma_normal_field(language_map_field(), j@, key@);
    }
    match present(j, key) {
        Some(value) => match LocalizedString::decode(value) {
            Ok(v) => Ok(Some(v)),
            Err(e) => Err(e.within(key)),
        },
        None => Ok(None),
    }
}

/// Writes the value of a field that may hold a text in several languages.
pub fn write_language_map(value: &Option<LocalizedString>) -> (r: Json)
    ensures
        r@ == language_map_wire(*value),
{
    proof {
        reveal(language_map_wire);
    }
    match value {
        Some(v) => v.encode(),
        None => Json::Null,
    }
}

/// The documents of a sequence of strings, item by item.
#[verifier::opaque]
pub open spec fn relations_items(values: Seq<RFC5988>) -> Seq<JsonModel>
    decreases values, 0nat,
{
    Seq::new(
        values.len(),
        |i: int|
            if 0 <= i < values.len() {
                JsonModel::Text(values[i]@)
            } else {
                JsonModel::Null
            },
    )
}

/// The document of one or more strings: the bare item where there is one,
/// an array otherwise.
#[verifier::opaque]
pub open spec fn relations_value_wire(folded: FoldedSlice<RFC5988>) -> JsonModel
    decreases folded, 1nat,
{
    match folded {
        FoldedSlice::One(v) => JsonModel::Text((*v)@),
        FoldedSlice::Many(vs) => JsonModel::Array(relations_items(vs@)),
    }
}

/// Reads one or more strings: a bare value as one item, an array item by
/// item. An array of one item is folded into that item; an empty array is
/// refused.
pub fn decode_relations(j: &Json) -> (r: Result<FoldedSlice<RFC5988>, CodecError>)
    ensures
        match r {
            Ok(folded) => folded.wf() && normal_shape(relations_field(), j@) == Normal::Ok(
                relations_value_wire(folded),
            ),
            Err(e) => normal_shape(relations_field(), j@) == Normal::Err(e@),
        },
    decreases j@, 8nat, 0nat,
{
    proof {
        reveal(relations_items);
        reveal(relations_value_wire);
    }
    match j {
        Json::Array(items) => {
            if items.len() == 0 {
                return Err(CodecError::at_root(ErrorKind::EmptyCollection));
            }
            let mut values: Vec<RFC5988> = Vec::new();
            let mut k: usize = 0;
            assert(relations_items(values@) =~= Seq::empty());
            while k < items.len()
                invariant
                    0 <= k <= items.len(),
                    j@ == JsonModel::Array(items_model(items@)),
                    values.len() == k,
                    normal_items(Item::Plain(Plain::Text), j@, k as nat) == NormalItems::Ok(
                        relations_items(values@),
                    ),
                decreases items.len() - k,
            {
                proof {
                    reveal(relations_items);
                }
                assert(items_model(items@)[k as int] == items[k as int]@);
                match decode_text(&items[k]) {
                    Ok(v) => {
                        let ghost before = values@;
                        let ghost added = JsonModel::Text(v@);
                        values.push(v);
                        assert(relations_items(values@) =~= relations_items(before).push(added));
                        assert(
                            normal_item(Item::Plain(Plain::Text), items[k as int]@) == Normal::Ok(
                                added,
                            )
                        );
                        assert(
                            normal_items(Item::Plain(Plain::Text), j@, (k + 1) as nat)
                                == NormalItems::Ok(relations_items(before).push(added))
                        );
                    },
                    Err(e) => {
                        assert(
                            normal_item(Item::Plain(Plain::Text), items[k as int]@) == Normal::Err(
                                e@,
                            )
                        );
                        assert(
                            normal_items(Item::Plain(Plain::Text), j@, (k + 1) as nat)
                                == NormalItems::Err(e@)
                        );
                        proof {
                            lemma_items_failure_stays(
                                Item::Plain(Plain::Text),
                                j@,
                                (k + 1) as nat,
                                items.len() as nat,
                            );
                        }
                        return Err(e);
                    },
                }
                k += 1;
            }
            if values.len() == 1 {
                let ghost single = values@[0];
                let v = values.pop().unwrap();
                assert(v == single);
                Ok(FoldedSlice::One(Box::new(v)))
            } else {
                Ok(FoldedSlice::Many(values))
            }
        },
        _ => match decode_text(j) {
            Ok(v) => Ok(FoldedSlice::One(Box::new(v))),
            Err(e) => Err(e),
        },
    }
}

/// A well-formed container of strings reads back as itself: what it
/// is written as decodes to the same document, a single item bare and two or
/// more as an array.
pub proof fn law_relations_read_back(folded: FoldedSlice<RFC5988>)
    requires
        folded.wf(),
    ensures
        normal_shape(relations_field(), relations_value_wire(folded)) == Normal::Ok(
            relations_value_wire(folded),
        ),
{
    reveal(relations_items);
    reveal(relations_value_wire);
    match folded {
        FoldedSlice::One(v) => {
            assert(folded@[0] == *v);
            lemma_item_output(Item::Plain(Plain::Text), JsonModel::Text((*v)@));
        },
        FoldedSlice::Many(vs) => {
            let values = relations_items(vs@);
            assert forall|i: int| 0 <= i < values.len() implies normal_item(
                Item::Plain(Plain::Text),
                #[trigger] values[i],
            ) == Normal::Ok(values[i]) by {
                assert(values[i] == JsonModel::Text(folded@[i]@));
            }
            lemma_stable_items(Item::Plain(Plain::Text), values, values.len());
            assert(values.subrange(0, values.len() as int) =~= values);
        },
    }
}

/// Writes one or more strings: one item bare, a sequence as an array.
pub fn encode_relations(folded: &FoldedSlice<RFC5988>) -> (r: Json)
    ensures
        r@ == relations_value_wire(*folded),
    decreases folded,
{
    proof {
        reveal(relations_items);
        reveal(relations_value_wire);
    }
    match folded {
        FoldedSlice::One(v) => encode_text(&**v),
        FoldedSlice::Many(values) => {
            let mut items: Vec<Json> = Vec::new();
            let mut k: usize = 0;
            while k < values.len()
                invariant
                    0 <= k <= values.len(),
                    items.len() == k,
                    *folded == FoldedSlice::Many(*values),
                    forall|i: int| 0 <= i < k ==> items[i]@ == JsonModel::Text(values[i]@),
                decreases values.len() - k,
            {
                proof {
                    reveal(relations_items);
                }
                assert(decreases_to!(*folded => folded->Many_0));
                items.push(encode_text(&values[k]));
                k += 1;
            }
            assert(items_model(items@) =~= relations_items(values@));
            Json::Array(items)
        },
    }
}

/// The document of a field that may hold one or more strings: `Null` where it holds
/// nothing.
#[verifier::opaque]
pub open spec fn relations_wire(value: Option<FoldedSlice<RFC5988>>) -> JsonModel
    decreases value, 2nat,
{
    match value {
        Some(v) => relations_value_wire(v),
        None => JsonModel::Null,
    }
}

/// Reads the field `key` as one or more strings, where it is present and not null.
pub fn read_relations(j: &Json, key: &str) -> (r: Result<Option<FoldedSlice<RFC5988>>, CodecError>)
    ensures
        match r {
            Ok(value) => normal_field(relations_field(), j@, key@) == Normal::Ok(
                relations_wire(value),
            ),
            Err(e) => normal_field(relations_field(), j@, key@) == Normal::Err(e@),
        },
{
    proof {
        reveal(relations_wire);
        reveal(relations_value_wire);
        lemma_normal_field(relations_field(), j@, key@);
    }
    match present(j, key) {
        Some(value) => match decode_relations(value) {
            Ok(v) => Ok(Some(v)),
            Err(e) => Err(e.within(key)),
        },
        None => Ok(None),
    }
}

/// Writes the value of a field that may hold one or more strings.
pub fn write_relations(value: &Option<FoldedSlice<RFC5988>>) -> (r: Json)
    ensures
        r@ == relations_wire(*value),
{
    proof {
        reveal(relations_wire);
        reveal(relations_value_wire);
    }
    match value {
        Some(v) => encode_relations(v),
        None => Json::Null,
    }
}

/// The document of a field that may hold one tagged object: `Null` where it holds
/// nothing.
#[verifier::opaque]
pub open spec fn tagged_object_wire(value: Option<Box<TaggedObject>>) -> JsonModel
    decreases value, 2nat,
{
    match value {
        Some(v) => JsonModel::Object(v.wire_fields()),
        None => JsonModel::Null,
    }
}

/// Reads the field `key` as one tagged object, where it is present and not null.
pub fn read_tagged_object(j: &Json, key: &str) -> (r: Result<Option<Box<TaggedObject>>, CodecError>)
    ensures
        match r {
            Ok(value) => normal_field(tagged_object_field(), j@, key@) == Normal::Ok(
                tagged_object_wire(value),
            ),
            Err(e) => normal_field(tagged_object_field(), j@, key@) == Normal::Err(e@),
        },
    decreases j@, 0nat, 0nat,
{
    proof {
        reveal(tagged_object_wire);
        reveal(TaggedObject::wire_fields);
        lemma_normal_field(tagged_object_field(), j@, key@);
    }
    match present(j, key) {
        Some(value) => match TaggedObject::decode(value) {
            Ok(v) => Ok(Some(Box::new(v))),
            Err(e) => Err(e.within(key)),
        },
        None => Ok(None),
    }
}

/// Writes the value of a field that may hold one tagged object.
pub fn write_tagged_object(value: &Option<Box<TaggedObject>>) -> (r: Json)
    ensures
        r@ == tagged_object_wire(*value),
    decreases value,
{
    proof {
        reveal(tagged_object_wire);
        reveal(TaggedObject::wire_fields);
    }
    match value {
        Some(v) => v.encode(),
        None => Json::Null,
    }
}

/// The documents of a sequence of tagged objects, item by item.
#[verifier::opaque]
pub open spec fn tagged_objects_items(values: Seq<TaggedObject>) -> Seq<JsonModel>
    decreases values, 0nat,
{
    Seq::new(
        values.len(),
        |i: int|
            if 0 <= i < values.len() {
                JsonModel::Object(values[i].wire_fields())
            } else {
                JsonModel::Null
            },
    )
}

/// The document of one or more tagged objects: the bare item where there is one,
/// an array otherwise.
#[verifier::opaque]
pub open spec fn tagged_objects_value_wire(folded: FoldedSlice<TaggedObject>) -> JsonModel
    decreases folded, 1nat,
{
    match folded {
        FoldedSlice::One(v) => JsonModel::Object((*v).wire_fields()),
        FoldedSlice::Many(vs) => JsonModel::Array(tagged_objects_items(vs@)),
    }
}

/// Reads one or more tagged objects: a bare value as one item, an array item by
/// item. An array of one item is folded into that item; an empty array is
/// refused.
pub fn decode_tagged_objects(j: &Json) -> (r: Result<FoldedSlice<TaggedObject>, CodecError>)
    ensures
        match r {
            Ok(folded) => folded.wf() && normal_shape(tagged_objects_field(), j@) == Normal::Ok(
                tagged_objects_value_wire(folded),
            ),
            Err(e) => normal_shape(tagged_objects_field(), j@) == Normal::Err(e@),
        },
    decreases j@, 8nat, 0nat,
{
    proof {
        reveal(tagged_objects_items);
        reveal(tagged_objects_value_wire);
        reveal(TaggedObject::wire_fields);
    }
    match j {
        Json::Array(items) => {
            if items.len() == 0 {
                return Err(CodecError::at_root(ErrorKind::EmptyCollection));
            }
            let mut values: Vec<TaggedObject> = Vec::new();
            let mut k: usize = 0;
            assert(tagged_objects_items(values@) =~= Seq::empty());
            while k < items.len()
                invariant
                    0 <= k <= items.len(),
                    j@ == JsonModel::Array(items_model(items@)),
                    values.len() == k,
                    normal_items(Item::Plain(Plain::Tagged(Family::Object)), j@, k as nat)
                        == NormalItems::Ok(tagged_objects_items(values@)),
                decreases items.len() - k,
            {
                proof {
                    reveal(tagged_objects_items);
                    reveal(TaggedObject::wire_fields);
                }
                assert(items_model(items@)[k as int] == items[k as int]@);
                match TaggedObject::decode(&items[k]) {
                    Ok(v) => {
                        let ghost before = values@;
                        let ghost added = JsonModel::Object(v.wire_fields());
                        values.push(v);
                        assert(
                            tagged_objects_items(values@) =~= tagged_objects_items(before).push(
                                added,
                            )
                        );
                        assert(
                            normal_item(
                                Item::Plain(Plain::Tagged(Family::Object)),
                                items[k as int]@,
                            )
                                == Normal::Ok(added)
                        );
                        assert(
                            normal_items(
                                Item::Plain(Plain::Tagged(Family::Object)),
                                j@,
                                (k + 1) as nat,
                            )
                                == NormalItems::Ok(tagged_objects_items(before).push(added))
                        );
                    },
                    Err(e) => {
                        assert(
                            normal_item(
                                Item::Plain(Plain::Tagged(Family::Object)),
                                items[k as int]@,
                            )
                                == Normal::Err(e@)
                        );
                        assert(
                            normal_items(
                                Item::Plain(Plain::Tagged(Family::Object)),
                                j@,
                                (k + 1) as nat,
                            )
                                == NormalItems::Err(e@)
                        );
                        proof {
                            lemma_items_failure_stays(
                                Item::Plain(Plain::Tagged(Family::Object)),
                                j@,
                                (k + 1) as nat,
                                items.len() as nat,
                            );
                        }
                        return Err(e);
                    },
                }
                k += 1;
            }
            if values.len() == 1 {
                let ghost single = values@[0];
                let v = values.pop().unwrap();
                assert(v == single);
                Ok(FoldedSlice::One(Box::new(v)))
            } else {
                Ok(FoldedSlice::Many(values))
            }
        },
        _ => match TaggedObject::decode(j) {
            Ok(v) => Ok(FoldedSlice::One(Box::new(v))),
            Err(e) => Err(e),
        },
    }
}

/// A well-formed container of tagged objects reads back as itself, where each of its
/// items does: what it
/// is written as decodes to the same document, a single item bare and two or
/// more as an array.
pub proof fn law_tagged_objects_read_back(folded: FoldedSlice<TaggedObject>)
    requires
        folded.wf(),
        forall|i: int|
            0 <= i < folded@.len() ==> normal_item(
                Item::Plain(Plain::Tagged(Family::Object)),
                JsonModel::Object((#[trigger] folded@[i]).wire_fields()),
            ) == Normal::Ok(JsonModel::Object(folded@[i].wire_fields())),
    ensures
        normal_shape(tagged_objects_field(), tagged_objects_value_wire(folded)) == Normal::Ok(
            tagged_objects_value_wire(folded),
        ),
{
    reveal(tagged_objects_items);
    reveal(tagged_objects_value_wire);
        reveal(TaggedObject::wire_fields);
    match folded {
        FoldedSlice::One(v) => {
            assert(folded@[0] == *v);
            lemma_item_output(
                Item::Plain(Plain::Tagged(Family::Object)),
                JsonModel::Object((*v).wire_fields()),
            );
        },
        FoldedSlice::Many(vs) => {
            let values = tagged_objects_items(vs@);
            assert forall|i: int| 0 <= i < values.len() implies normal_item(
                Item::Plain(Plain::Tagged(Family::Object)),
                #[trigger] values[i],
            ) == Normal::Ok(values[i]) by {
                assert(values[i] == JsonModel::Object(folded@[i].wire_fields()));
            }
            lemma_stable_items(Item::Plain(Plain::Tagged(Family::Object)), values, values.len());
            assert(values.subrange(0, values.len() as int) =~= values);
        },
    }
}

/// Writes one or more tagged objects: one item bare, a sequence as an array.
pub fn encode_tagged_objects(folded: &FoldedSlice<TaggedObject>) -> (r: Json)
    ensures
        r@ == tagged_objects_value_wire(*folded),
    decreases folded,
{
    proof {
        reveal(tagged_objects_items);
        reveal(tagged_objects_value_wire);
        reveal(TaggedObject::wire_fields);
    }
    match folded {
        FoldedSlice::One(v) => TaggedObject::encode(&**v),
        FoldedSlice::Many(values) => {
            let mut items: Vec<Json> = Vec::new();
            let mut k: usize = 0;
            while k < values.len()
                invariant
                    0 <= k <= values.len(),
                    items.len() == k,
                    *folded == FoldedSlice::Many(*values),
                    forall|i: int| 0 <= i < k ==> items[i]@ == JsonModel::Object(
                        values[i].wire_fields(),
                    ),
                decreases values.len() - k,
            {
                proof {
                    reveal(tagged_objects_items);
                    reveal(TaggedObject::wire_fields);
                }
                assert(decreases_to!(*folded => folded->Many_0));
                items.push(TaggedObject::encode(&values[k]));
                k += 1;
            }
            assert(items_model(items@) =~= tagged_objects_items(values@));
            Json::Array(items)
        },
    }
}

/// The document of a field that may hold one or more tagged objects: `Null` where it holds
/// nothing.
#[verifier::opaque]
pub open spec fn tagged_objects_wire(value: Option<FoldedSlice<TaggedObject>>) -> JsonModel
    decreases value, 2nat,
{
    match value {
        Some(v) => tagged_objects_value_wire(v),
        None => JsonModel::Null,
    }
}

/// Reads the field `key` as one or more tagged objects, where it is present and not null.
pub fn read_tagged_objects(j: &Json, key: &str) -> (r: Result<
    Option<FoldedSlice<TaggedObject>>,
    CodecError,
>)
    ensures
        match r {
            Ok(value) => normal_field(tagged_objects_field(), j@, key@) == Normal::Ok(
                tagged_objects_wire(value),
            ),
            Err(e) => normal_field(tagged_objects_field(), j@, key@) == Normal::Err(e@),
        },
    decreases j@, 0nat, 0nat,
{
    proof {
        reveal(tagged_objects_wire);
        reveal(tagged_objects_value_wire);
        lemma_normal_field(tagged_objects_field(), j@, key@);
    }
    match present(j, key) {
        Some(value) => match decode_tagged_objects(value) {
            Ok(v) => Ok(Some(v)),
            Err(e) => Err(e.within(key)),
        },
        None => Ok(None),
    }
}

/// Writes the value of a field that may hold one or more tagged objects.
pub fn write_tagged_objects(value: &Option<FoldedSlice<TaggedObject>>) -> (r: Json)
    ensures
        r@ == tagged_objects_wire(*value),
    decreases value,
{
    proof {
        reveal(tagged_objects_wire);
        reveal(tagged_objects_value_wire);
    }
    match value {
        Some(v) => encode_tagged_objects(v),
        None => Json::Null,
    }
}

/// The document of a field that may hold one object: `Null` where it holds
/// nothing.
#[verifier::opaque]
pub open spec fn object_wire(value: Option<Box<MaybeObject>>) -> JsonModel
    decreases value, 2nat,
{
    match value {
        Some(v) => v.wire(),
        None => JsonModel::Null,
    }
}

/// Reads the field `key` as one object, where it is present and not null.
pub fn read_object(j: &Json, key: &str) -> (r: Result<Option<Box<MaybeObject>>, CodecError>)
    ensures
        match r {
            Ok(value) => normal_field(object_field(), j@, key@) == Normal::Ok(object_wire(value)),
            Err(e) => normal_field(object_field(), j@, key@) == Normal::Err(e@),
        },
    decreases j@, 0nat, 0nat,
{
    proof {
        reveal(object_wire);
        reveal(MaybeObject::wire);
        lemma_normal_field(object_field(), j@, key@);
    }
    match present(j, key) {
        Some(value) => match MaybeObject::decode(value) {
            Ok(v) => Ok(Some(Box::new(v))),
            Err(e) => Err(e.within(key)),
        },
        None => Ok(None),
    }
}

/// Writes the value of a field that may hold one object.
pub fn write_object(value: &Option<Box<MaybeObject>>) -> (r: Json)
    ensures
        r@ == object_wire(*value),
    decreases value,
{
    proof {
        reveal(object_wire);
        reveal(MaybeObject::wire);
    }
    match value {
        Some(v) => v.encode(),
        None => Json::Null,
    }
}

/// The documents of a sequence of objects, item by item.
#[verifier::opaque]
pub open spec fn objects_items(values: Seq<MaybeObject>) -> Seq<JsonModel>
    decreases values, 0nat,
{
    Seq::new(
        values.len(),
        |i: int|
            if 0 <= i < values.len() {
                values[i].wire()
            } else {
                JsonModel::Null
            },
    )
}

/// The document of one or more objects: the bare item where there is one,
/// an array otherwise.
#[verifier::opaque]
pub open spec fn objects_value_wire(folded: FoldedSlice<MaybeObject>) -> JsonModel
    decreases folded, 1nat,
{
    match folded {
        FoldedSlice::One(v) => (*v).wire(),
        FoldedSlice::Many(vs) => JsonModel::Array(objects_items(vs@)),
    }
}

/// Reads one or more objects: a bare value as one item, an array item by
/// item. An array of one item is folded into that item; an empty array is
/// refused.
pub fn decode_objects(j: &Json) -> (r: Result<FoldedSlice<MaybeObject>, CodecError>)
    ensures
        match r {
            Ok(folded) => folded.wf() && normal_shape(objects_field(), j@) == Normal::Ok(
                objects_value_wire(folded),
            ),
            Err(e) => normal_shape(objects_field(), j@) == Normal::Err(e@),
        },
    decreases j@, 8nat, 0nat,
{
    proof {
        reveal(objects_items);
        reveal(objects_value_wire);
        reveal(MaybeObject::wire);
    }
    match j {
        Json::Array(items) => {
            if items.len() == 0 {
                return Err(CodecError::at_root(ErrorKind::EmptyCollection));
            }
            let mut values: Vec<MaybeObject> = Vec::new();
            let mut k: usize = 0;
            assert(objects_items(values@) =~= Seq::empty());
            while k < items.len()
                invariant
                    0 <= k <= items.len(),
                    j@ == JsonModel::Array(items_model(items@)),
                    values.len() == k,
                    normal_items(Item::Choice(Union::Object), j@, k as nat) == NormalItems::Ok(
                        objects_items(values@),
                    ),
                decreases items.len() - k,
            {
                proof {
                    reveal(objects_items);
                    reveal(MaybeObject::wire);
                }
                assert(items_model(items@)[k as int] == items[k as int]@);
                match MaybeObject::decode(&items[k]) {
                    Ok(v) => {
                        let ghost before = values@;
                        let ghost added = v.wire();
                        values.push(v);
                        assert(objects_items(values@) =~= objects_items(before).push(added));
                        assert(
                            normal_item(Item::Choice(Union::Object), items[k as int]@)
                                == Normal::Ok(added)
                        );
                        assert(
                            normal_items(Item::Choice(Union::Object), j@, (k + 1) as nat)
                                == NormalItems::Ok(objects_items(before).push(added))
                        );
                    },
                    Err(e) => {
                        assert(
                            normal_item(Item::Choice(Union::Object), items[k as int]@)
                                == Normal::Err(e@)
                        );
                        assert(
                            normal_items(Item::Choice(Union::Object), j@, (k + 1) as nat)
                                == NormalItems::Err(e@)
                        );
                        proof {
                            lemma_items_failure_stays(
                                Item::Choice(Union::Object),
                                j@,
                                (k + 1) as nat,
                                items.len() as nat,
                            );
                        }
                        return Err(e);
                    },
                }
                k += 1;
            }
            if values.len() == 1 {
                let ghost single = values@[0];
                let v = values.pop().unwrap();
                assert(v == single);
                Ok(FoldedSlice::One(Box::new(v)))
            } else {
                Ok(FoldedSlice::Many(values))
            }
        },
        _ => match MaybeObject::decode(j) {
            Ok(v) => Ok(FoldedSlice::One(Box::new(v))),
            Err(e) => Err(e),
        },
    }
}

/// A well-formed container of objects reads back as itself, where each of its
/// items does: what it
/// is written as decodes to the same document, a single item bare and two or
/// more as an array.
pub proof fn law_objects_read_back(folded: FoldedSlice<MaybeObject>)
    requires
        folded.wf(),
        forall|i: int|
            0 <= i < folded@.len() ==> normal_item(
                Item::Choice(Union::Object),
                (#[trigger] folded@[i]).wire(),
            ) == Normal::Ok(folded@[i].wire()),
    ensures
        normal_shape(objects_field(), objects_value_wire(folded)) == Normal::Ok(
            objects_value_wire(folded),
        ),
{
    reveal(objects_items);
    reveal(objects_value_wire);
        reveal(MaybeObject::wire);
    match folded {
        FoldedSlice::One(v) => {
            assert(folded@[0] == *v);
            lemma_item_output(Item::Choice(Union::Object), (*v).wire());
        },
        FoldedSlice::Many(vs) => {
            let values = objects_items(vs@);
            assert forall|i: int| 0 <= i < values.len() implies normal_item(
                Item::Choice(Union::Object),
                #[trigger] values[i],
            ) == Normal::Ok(values[i]) by {
                assert(values[i] == folded@[i].wire());
            }
            lemma_stable_items(Item::Choice(Union::Object), values, values.len());
            assert(values.subrange(0, values.len() as int) =~= values);
        },
    }
}

/// Writes one or more objects: one item bare, a sequence as an array.
pub fn encode_objects(folded: &FoldedSlice<MaybeObject>) -> (r: Json)
    ensures
        r@ == objects_value_wire(*folded),
    decreases folded,
{
    proof {
        reveal(objects_items);
        reveal(objects_value_wire);
        reveal(MaybeObject::wire);
    }
    match folded {
        FoldedSlice::One(v) => MaybeObject::encode(&**v),
        FoldedSlice::Many(values) => {
            let mut items: Vec<Json> = Vec::new();
            let mut k: usize = 0;
            while k < values.len()
                invariant
                    0 <= k <= values.len(),
                    items.len() == k,
                    *folded == FoldedSlice::Many(*values),
                    forall|i: int| 0 <= i < k ==> items[i]@ == values[i].wire(),
                decreases values.len() - k,
            {
                proof {
                    reveal(objects_items);
                    reveal(MaybeObject::wire);
                }
                assert(decreases_to!(*folded => folded->Many_0));
                items.push(MaybeObject::encode(&values[k]));
                k += 1;
            }
            assert(items_model(items@) =~= objects_items(values@));
            Json::Array(items)
        },
    }
}

/// The document of a field that may hold one or more objects: `Null` where it holds
/// nothing.
#[verifier::opaque]
pub open spec fn objects_wire(value: Option<FoldedSlice<MaybeObject>>) -> JsonModel
    decreases value, 2nat,
{
    match value {
        Some(v) => objects_value_wire(v),
        None => JsonModel::Null,
    }
}

/// Reads the field `key` as one or more objects, where it is present and not null.
pub fn read_objects(j: &Json, key: &str) -> (r: Result<
    Option<FoldedSlice<MaybeObject>>,
    CodecError,
>)
    ensures
        match r {
            Ok(value) => normal_field(objects_field(), j@, key@) == Normal::Ok(objects_wire(value)),
            Err(e) => normal_field(objects_field(), j@, key@) == Normal::Err(e@),
        },
    decreases j@, 0nat, 0nat,
{
    proof {
        reveal(objects_wire);
        reveal(objects_value_wire);
        lemma_normal_field(objects_field(), j@, key@);
    }
    match present(j, key) {
        Some(value) => match decode_objects(value) {
            Ok(v) => Ok(Some(v)),
            Err(e) => Err(e.within(key)),
        },
        None => Ok(None),
    }
}

/// Writes the value of a field that may hold one or more objects.
pub fn write_objects(value: &Option<FoldedSlice<MaybeObject>>) -> (r: Json)
    ensures
        r@ == objects_wire(*value),
    decreases value,
{
    proof {
        reveal(objects_wire);
        reveal(objects_value_wire);
    }
    match value {
        Some(v) => encode_objects(v),
        None => Json::Null,
    }
}

/// The documents of a sequence of images, item by item.
#[verifier::opaque]
pub open spec fn images_items(values: Seq<MaybeImage>) -> Seq<JsonModel>
    decreases values, 0nat,
{
    Seq::new(
        values.len(),
        |i: int|
            if 0 <= i < values.len() {
                values[i].wire()
            } else {
                JsonModel::Null
            },
    )
}

/// The document of one or more images: the bare item where there is one,
/// an array otherwise.
#[verifier::opaque]
pub open spec fn images_value_wire(folded: FoldedSlice<MaybeImage>) -> JsonModel
    decreases folded, 1nat,
{
    match folded {
        FoldedSlice::One(v) => (*v).wire(),
        FoldedSlice::Many(vs) => JsonModel::Array(images_items(vs@)),
    }
}

/// Reads one or more images: a bare value as one item, an array item by
/// item. An array of one item is folded into that item; an empty array is
/// refused.
pub fn decode_images(j: &Json) -> (r: Result<FoldedSlice<MaybeImage>, CodecError>)
    ensures
        match r {
            Ok(folded) => folded.wf() && normal_shape(images_field(), j@) == Normal::Ok(
                images_value_wire(folded),
            ),
            Err(e) => normal_shape(images_field(), j@) == Normal::Err(e@),
        },
    decreases j@, 8nat, 0nat,
{
    proof {
        reveal(images_items);
        reveal(images_value_wire);
        reveal(MaybeImage::wire);
    }
    match j {
        Json::Array(items) => {
            if items.len() == 0 {
                return Err(CodecError::at_root(ErrorKind::EmptyCollection));
            }
            let mut values: Vec<MaybeImage> = Vec::new();
            let mut k: usize = 0;
            assert(images_items(values@) =~= Seq::empty());
            while k < items.len()
                invariant
                    0 <= k <= items.len(),
                    j@ == JsonModel::Array(items_model(items@)),
                    values.len() == k,
                    normal_items(Item::Choice(Union::Image), j@, k as nat) == NormalItems::Ok(
                        images_items(values@),
                    ),
                decreases items.len() - k,
            {
                proof {
                    reveal(images_items);
                    reveal(MaybeImage::wire);
                }
                assert(items_model(items@)[k as int] == items[k as int]@);
                match MaybeImage::decode(&items[k]) {
                    Ok(v) => {
                        let ghost before = values@;
                        let ghost added = v.wire();
                        values.push(v);
                        assert(images_items(values@) =~= images_items(before).push(added));
                        assert(
                            normal_item(Item::Choice(Union::Image), items[k as int]@) == Normal::Ok(
                                added,
                            )
                        );
                        assert(
                            normal_items(Item::Choice(Union::Image), j@, (k + 1) as nat)
                                == NormalItems::Ok(images_items(before).push(added))
                        );
                    },
                    Err(e) => {
                        assert(
                            normal_item(Item::Choice(Union::Image), items[k as int]@)
                                == Normal::Err(e@)
                        );
                        assert(
                            normal_items(Item::Choice(Union::Image), j@, (k + 1) as nat)
                                == NormalItems::Err(e@)
                        );
                        proof {
                            lemma_items_failure_stays(
                                Item::Choice(Union::Image),
                                j@,
                                (k + 1) as nat,
                                items.len() as nat,
                            );
                        }
                        return Err(e);
                    },
                }
                k += 1;
            }
            if values.len() == 1 {
                let ghost single = values@[0];
                let v = values.pop().unwrap();
                assert(v == single);
                Ok(FoldedSlice::One(Box::new(v)))
            } else {
                Ok(FoldedSlice::Many(values))
            }
        },
        _ => match MaybeImage::decode(j) {
            Ok(v) => Ok(FoldedSlice::One(Box::new(v))),
            Err(e) => Err(e),
        },
    }
}

/// A well-formed container of images reads back as itself, where each of its
/// items does: what it
/// is written as decodes to the same document, a single item bare and two or
/// more as an array.
pub proof fn law_images_read_back(folded: FoldedSlice<MaybeImage>)
    requires
        folded.wf(),
        forall|i: int|
            0 <= i < folded@.len() ==> normal_item(
                Item::Choice(Union::Image),
                (#[trigger] folded@[i]).wire(),
            ) == Normal::Ok(folded@[i].wire()),
    ensures
        normal_shape(images_field(), images_value_wire(folded)) == Normal::Ok(
            images_value_wire(folded),
        ),
{
    reveal(images_items);
    reveal(images_value_wire);
        reveal(MaybeImage::wire);
    match folded {
        FoldedSlice::One(v) => {
            assert(folded@[0] == *v);
            lemma_item_output(Item::Choice(Union::Image), (*v).wire());
        },
        FoldedSlice::Many(vs) => {
            let values = images_items(vs@);
            assert forall|i: int| 0 <= i < values.len() implies normal_item(
                Item::Choice(Union::Image),
                #[trigger] values[i],
            ) == Normal::Ok(values[i]) by {
                assert(values[i] == folded@[i].wire());
            }
            lemma_stable_items(Item::Choice(Union::Image), values, values.len());
            assert(values.subrange(0, values.len() as int) =~= values);
        },
    }
}

/// Writes one or more images: one item bare, a sequence as an array.
pub fn encode_images(folded: &FoldedSlice<MaybeImage>) -> (r: Json)
    ensures
        r@ == images_value_wire(*folded),
    decreases folded,
{
    proof {
        reveal(images_items);
        reveal(images_value_wire);
        reveal(MaybeImage::wire);
    }
    match folded {
        FoldedSlice::One(v) => MaybeImage::encode(&**v),
        FoldedSlice::Many(values) => {
            let mut items: Vec<Json> = Vec::new();
            let mut k: usize = 0;
            while k < values.len()
                invariant
                    0 <= k <= values.len(),
                    items.len() == k,
                    *folded == FoldedSlice::Many(*values),
                    forall|i: int| 0 <= i < k ==> items[i]@ == values[i].wire(),
                decreases values.len() - k,
            {
                proof {
                    reveal(images_items);
                    reveal(MaybeImage::wire);
                }
                assert(decreases_to!(*folded => folded->Many_0));
                items.push(MaybeImage::encode(&values[k]));
                k += 1;
            }
            assert(items_model(items@) =~= images_items(values@));
            Json::Array(items)
        },
    }
}

/// The document of a field that may hold one or more images: `Null` where it holds
/// nothing.
#[verifier::opaque]
pub open spec fn images_wire(value: Option<FoldedSlice<MaybeImage>>) -> JsonModel
    decreases value, 2nat,
{
    match value {
        Some(v) => images_value_wire(v),
        None => JsonModel::Null,
    }
}

/// Reads the field `key` as one or more images, where it is present and not null.
pub fn read_images(j: &Json, key: &str) -> (r: Result<Option<FoldedSlice<MaybeImage>>, CodecError>)
    ensures
        match r {
            Ok(value) => normal_field(images_field(), j@, key@) == Normal::Ok(images_wire(value)),
            Err(e) => normal_field(images_field(), j@, key@) == Normal::Err(e@),
        },
    decreases j@, 0nat, 0nat,
{
    proof {
        reveal(images_wire);
        reveal(images_value_wire);
        lemma_normal_field(images_field(), j@, key@);
    }
    match present(j, key) {
        Some(value) => match decode_images(value) {
            Ok(v) => Ok(Some(v)),
            Err(e) => Err(e.within(key)),
        },
        None => Ok(None),
    }
}

/// Writes the value of a field that may hold one or more images.
pub fn write_images(value: &Option<FoldedSlice<MaybeImage>>) -> (r: Json)
    ensures
        r@ == images_wire(*value),
    decreases value,
{
    proof {
        reveal(images_wire);
        reveal(images_value_wire);
    }
    match value {
        Some(v) => encode_images(v),
        None => Json::Null,
    }
}

/// The documents of a sequence of links, item by item.
#[verifier::opaque]
pub open spec fn links_items(values: Seq<MaybeLink>) -> Seq<JsonModel>
    decreases values, 0nat,
{
    Seq::new(
        values.len(),
        |i: int|
            if 0 <= i < values.len() {
                values[i].wire()
            } else {
                JsonModel::Null
            },
    )
}

/// The document of one or more links: the bare item where there is one,
/// an array otherwise.
#[verifier::opaque]
pub open spec fn links_value_wire(folded: FoldedSlice<MaybeLink>) -> JsonModel
    decreases folded, 1nat,
{
    match folded {
        FoldedSlice::One(v) => (*v).wire(),
        FoldedSlice::Many(vs) => JsonModel::Array(links_items(vs@)),
    }
}

/// Reads one or more links: a bare value as one item, an array item by
/// item. An array of one item is folded into that item; an empty array is
/// refused.
pub fn decode_links(j: &Json) -> (r: Result<FoldedSlice<MaybeLink>, CodecError>)
    ensures
        match r {
            Ok(folded) => folded.wf() && normal_shape(links_field(), j@) == Normal::Ok(
                links_value_wire(folded),
            ),
            Err(e) => normal_shape(links_field(), j@) == Normal::Err(e@),
        },
    decreases j@, 8nat, 0nat,
{
    proof {
        reveal(links_items);
        reveal(links_value_wire);
        reveal(MaybeLink::wire);
    }
    match j {
        Json::Array(items) => {
            if items.len() == 0 {
                return Err(CodecError::at_root(ErrorKind::EmptyCollection));
            }
            let mut values: Vec<MaybeLink> = Vec::new();
            let mut k: usize = 0;
            assert(links_items(values@) =~= Seq::empty());
            while k < items.len()
                invariant
                    0 <= k <= items.len(),
                    j@ == JsonModel::Array(items_model(items@)),
                    values.len() == k,
                    normal_items(Item::Choice(Union::Link), j@, k as nat) == NormalItems::Ok(
                        links_items(values@),
                    ),
                decreases items.len() - k,
            {
                proof {
                    reveal(links_items);
                    reveal(MaybeLink::wire);
                }
                assert(items_model(items@)[k as int] == items[k as int]@);
                match MaybeLink::decode(&items[k]) {
                    Ok(v) => {
                        let ghost before = values@;
                        let ghost added = v.wire();
                        values.push(v);
                        assert(links_items(values@) =~= links_items(before).push(added));
                        assert(
                            normal_item(Item::Choice(Union::Link), items[k as int]@) == Normal::Ok(
                                added,
                            )
                        );
                        assert(
                            normal_items(Item::Choice(Union::Link), j@, (k + 1) as nat)
                                == NormalItems::Ok(links_items(before).push(added))
                        );
                    },
                    Err(e) => {
                        assert(
                            normal_item(Item::Choice(Union::Link), items[k as int]@) == Normal::Err(
                                e@,
                            )
                        );
                        assert(
                            normal_items(Item::Choice(Union::Link), j@, (k + 1) as nat)
                                == NormalItems::Err(e@)
                        );
                        proof {
                            lemma_items_failure_stays(
                                Item::Choice(Union::Link),
                                j@,
                                (k + 1) as nat,
                                items.len() as nat,
                            );
                        }
                        return Err(e);
                    },
                }
                k += 1;
            }
            if values.len() == 1 {
                let ghost single = values@[0];
                let v = values.pop().unwrap();
                assert(v == single);
                Ok(FoldedSlice::One(Box::new(v)))
            } else {
                Ok(FoldedSlice::Many(values))
            }
        },
        _ => match MaybeLink::decode(j) {
            Ok(v) => Ok(FoldedSlice::One(Box::new(v))),
            Err(e) => Err(e),
        },
    }
}

/// A well-formed container of links reads back as itself, where each of its
/// items does: what it
/// is written as decodes to the same document, a single item bare and two or
/// more as an array.
pub proof fn law_links_read_back(folded: FoldedSlice<MaybeLink>)
    requires
        folded.wf(),
        forall|i: int|
            0 <= i < folded@.len() ==> normal_item(
                Item::Choice(Union::Link),
                (#[trigger] folded@[i]).wire(),
            ) == Normal::Ok(folded@[i].wire()),
    ensures
        normal_shape(links_field(), links_value_wire(folded)) == Normal::Ok(
            links_value_wire(folded),
        ),
{
    reveal(links_items);
    reveal(links_value_wire);
        reveal(MaybeLink::wire);
    match folded {
        FoldedSlice::One(v) => {
            assert(folded@[0] == *v);
            lemma_item_output(Item::Choice(Union::Link), (*v).wire());
        },
        FoldedSlice::Many(vs) => {
            let values = links_items(vs@);
            assert forall|i: int| 0 <= i < values.len() implies normal_item(
                Item::Choice(Union::Link),
                #[trigger] values[i],
            ) == Normal::Ok(values[i]) by {
                assert(values[i] == folded@[i].wire());
            }
            lemma_stable_items(Item::Choice(Union::Link), values, values.len());
            assert(values.subrange(0, values.len() as int) =~= values);
        },
    }
}

/// Writes one or more links: one item bare, a sequence as an array.
pub fn encode_links(folded: &FoldedSlice<MaybeLink>) -> (r: Json)
    ensures
        r@ == links_value_wire(*folded),
    decreases folded,
{
    proof {
        reveal(links_items);
        reveal(links_value_wire);
        reveal(MaybeLink::wire);
    }
    match folded {
        FoldedSlice::One(v) => MaybeLink::encode(&**v),
        FoldedSlice::Many(values) => {
            let mut items: Vec<Json> = Vec::new();
            let mut k: usize = 0;
            while k < values.len()
                invariant
                    0 <= k <= values.len(),
                    items.len() == k,
                    *folded == FoldedSlice::Many(*values),
                    forall|i: int| 0 <= i < k ==> items[i]@ == values[i].wire(),
                decreases values.len() - k,
            {
                proof {
                    reveal(links_items);
                    reveal(MaybeLink::wire);
                }
                assert(decreases_to!(*folded => folded->Many_0));
                items.push(MaybeLink::encode(&values[k]));
                k += 1;
            }
            assert(items_model(items@) =~= links_items(values@));
            Json::Array(items)
        },
    }
}

/// The document of a field that may hold one or more links: `Null` where it holds
/// nothing.
#[verifier::opaque]
pub open spec fn links_wire(value: Option<FoldedSlice<MaybeLink>>) -> JsonModel
    decreases value, 2nat,
{
    match value {
        Some(v) => links_value_wire(v),
        None => JsonModel::Null,
    }
}

/// Reads the field `key` as one or more links, where it is present and not null.
pub fn read_links(j: &Json, key: &str) -> (r: Result<Option<FoldedSlice<MaybeLink>>, CodecError>)
    ensures
        match r {
            Ok(value) => normal_field(links_field(), j@, key@) == Normal::Ok(links_wire(value)),
            Err(e) => normal_field(links_field(), j@, key@) == Normal::Err(e@),
        },
    decreases j@, 0nat, 0nat,
{
    proof {
        reveal(links_wire);
        reveal(links_value_wire);
        lemma_normal_field(links_field(), j@, key@);
    }
    match present(j, key) {
        Some(value) => match decode_links(value) {
            Ok(v) => Ok(Some(v)),
            Err(e) => Err(e.within(key)),
        },
        None => Ok(None),
    }
}

/// Writes the value of a field that may hold one or more links.
pub fn write_links(value: &Option<FoldedSlice<MaybeLink>>) -> (r: Json)
    ensures
        r@ == links_wire(*value),
    decreases value,
{
    proof {
        reveal(links_wire);
        reveal(links_value_wire);
    }
    match value {
        Some(v) => encode_links(v),
        None => Json::Null,
    }
}

/// The document of a field that may hold a collection: `Null` where it holds
/// nothing.
#[verifier::opaque]
pub open spec fn collection_wire(value: Option<Box<MaybeCollection>>) -> JsonModel
    decreases value, 2nat,
{
    match value {
        Some(v) => v.wire(),
        None => JsonModel::Null,
    }
}

/// Reads the field `key` as a collection, where it is present and not null.
pub fn read_collection(j: &Json, key: &str) -> (r: Result<Option<Box<MaybeCollection>>, CodecError>)
    ensures
        match r {
            Ok(value) => normal_field(collection_field(), j@, key@) == Normal::Ok(
                collection_wire(value),
            ),
            Err(e) => normal_field(collection_field(), j@, key@) == Normal::Err(e@),
        },
    decreases j@, 0nat, 0nat,
{
    proof {
        reveal(collection_wire);
        reveal(MaybeCollection::wire);
        lemma_normal_field(collection_field(), j@, key@);
    }
    match present(j, key) {
        Some(value) => match MaybeCollection::decode(value) {
            Ok(v) => Ok(Some(Box::new(v))),
            Err(e) => Err(e.within(key)),
        },
        None => Ok(None),
    }
}

/// Writes the value of a field that may hold a collection.
pub fn write_collection(value: &Option<Box<MaybeCollection>>) -> (r: Json)
    ensures
        r@ == collection_wire(*value),
    decreases value,
{
    proof {
        reveal(collection_wire);
        reveal(MaybeCollection::wire);
    }
    match value {
        Some(v) => v.encode(),
        None => Json::Null,
    }
}

/// The document of a field that may hold a page of a collection: `Null` where it holds
/// nothing.
#[verifier::opaque]
pub open spec fn page_wire(value: Option<Box<MaybeCollectionPage>>) -> JsonModel
    decreases value, 2nat,
{
    match value {
        Some(v) => v.wire(),
        None => JsonModel::Null,
    }
}

/// Reads the field `key` as a page of a collection, where it is present and not null.
pub fn read_page(j: &Json, key: &str) -> (r: Result<Option<Box<MaybeCollectionPage>>, CodecError>)
    ensures
        match r {
            Ok(value) => normal_field(page_field(), j@, key@) == Normal::Ok(page_wire(value)),
            Err(e) => normal_field(page_field(), j@, key@) == Normal::Err(e@),
        },
    decreases j@, 0nat, 0nat,
{
    proof {
        reveal(page_wire);
        reveal(MaybeCollectionPage::wire);
        lemma_normal_field(page_field(), j@, key@);
    }
    match present(j, key) {
        Some(value) => match MaybeCollectionPage::decode(value) {
            Ok(v) => Ok(Some(Box::new(v))),
            Err(e) => Err(e.within(key)),
        },
        None => Ok(None),
    }
}

/// Writes the value of a field that may hold a page of a collection.
pub fn write_page(value: &Option<Box<MaybeCollectionPage>>) -> (r: Json)
    ensures
        r@ == page_wire(*value),
    decreases value,
{
    proof {
        reveal(page_wire);
        reveal(MaybeCollectionPage::wire);
    }
    match value {
        Some(v) => v.encode(),
        None => Json::Null,
    }
}

/// The document of a field that may hold what closed a question: `Null` where it holds
/// nothing.
#[verifier::opaque]
pub open spec fn closed_wire(value: Option<Box<MaybeClosed>>) -> JsonModel
    decreases value, 2nat,
{
    match value {
        Some(v) => v.wire(),
        None => JsonModel::Null,
    }
}

/// Reads the field `key` as what closed a question, where it is present and not null.
pub fn read_closed(j: &Json, key: &str) -> (r: Result<Option<Box<MaybeClosed>>, CodecError>)
    ensures
        match r {
            Ok(value) => normal_field(closed_field(), j@, key@) == Normal::Ok(closed_wire(value)),
            Err(e) => normal_field(closed_field(), j@, key@) == Normal::Err(e@),
        },
    decreases j@, 0nat, 0nat,
{
    proof {
        reveal(closed_wire);
        reveal(MaybeClosed::wire);
        lemma_normal_field(closed_field(), j@, key@);
    }
    match present(j, key) {
        Some(value) => match MaybeClosed::decode(value) {
            Ok(v) => Ok(Some(Box::new(v))),
            Err(e) => Err(e.within(key)),
        },
        None => Ok(None),
    }
}

/// Writes the value of a field that may hold what closed a question.
pub fn write_closed(value: &Option<Box<MaybeClosed>>) -> (r: Json)
    ensures
        r@ == closed_wire(*value),
    decreases value,
{
    proof {
        reveal(closed_wire);
        reveal(MaybeClosed::wire);
    }
    match value {
        Some(v) => v.encode(),
        None => Json::Null,
    }
}

} // verus!

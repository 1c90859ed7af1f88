//! The wire grammar of the vocabulary, and what every document means under it.
//!
//! A *shape* says which JSON values a position accepts. [`normal_shape`] gives,
//! for a shape and a document, the canonical document that the value decodes
//! to and encodes as again, or the failure that decoding reports. The
//! executable decoders and encoders are specified against these functions.

use vstd::prelude::*;
use crate::bounded::{is_non_negative, is_percentage, violation};
use crate::document::float_of_int;
use crate::error::{Bound, Failure, FailureKind, Union};
use crate::instant::{instant_read, Instant};
use crate::json::{lemma_position_from, position, Fields, JsonModel, Number};

verus! {

/// A family of records that is told apart by the discriminator field.
#[derive(Clone, Copy, Debug, PartialEq, Eq)]
pub enum Family {
    Object,
    Link,
    Image,
    Collection,
    CollectionPage,
}

/// The field sets that records are made of.
#[derive(Clone, Copy, Debug, PartialEq, Eq)]
pub enum Layout {
    Object,
    Link,
    Activity,
    Collection,
    OrderedCollection,
    CollectionPage,
    OrderedCollectionPage,
    Question,
    Relationship,
    Place,
    Profile,
    Tombstone,
}

/// A shape that is recognised without trying alternatives.
#[derive(Clone, Copy, Debug, PartialEq, Eq)]
pub enum Plain {
    /// Any string.
    Text,
    /// An unsigned integer.
    Count,
    /// Any number, read as floating point.
    Real,
    /// A number from zero to one hundred.
    Percentage,
    /// A number that is zero or more.
    PositiveFloat,
    /// A date and time as RFC 3339 text.
    Instant,
    /// An object whose values are strings.
    LanguageMap,
    /// A boolean.
    Flag,
    /// A record with a discriminator.
    Tagged(Family),
}

/// The shape of one value.
pub enum Item {
    Plain(Plain),
    /// The first of a union's candidates that fits.
    Choice(Union),
}

/// The shape of a field's value: one item, or one or more of them.
pub enum Shape {
    One(Item),
    Folded(Item),
}

/// What a document decodes to: its canonical form, or the failure that
/// decoding reports.
pub type Normal = Result<JsonModel, Failure>;

/// What an object decodes to as a record: the fields of the canonical form,
/// or the failure that decoding reports.
pub type NormalFields = Result<Fields, Failure>;

/// What the items of an array decode to.
pub type NormalItems = Result<Seq<JsonModel>, Failure>;

/// The key of the discriminator.
pub open spec fn type_key() -> Seq<char> {
    "type"@
}

/// The key of the context in an envelope.
pub open spec fn context_key() -> Seq<char> {
    "@context"@
}

pub open spec fn text_field() -> Shape {
    Shape::One(Item::Plain(Plain::Text))
}

pub open spec fn count_field() -> Shape {
    Shape::One(Item::Plain(Plain::Count))
}

pub open spec fn real_field() -> Shape {
    Shape::One(Item::Plain(Plain::Real))
}

pub open spec fn percentage_field() -> Shape {
    Shape::One(Item::Plain(Plain::Percentage))
}

pub open spec fn positive_float_field() -> Shape {
    Shape::One(Item::Plain(Plain::PositiveFloat))
}

pub open spec fn instant_field() -> Shape {
    Shape::One(Item::Plain(Plain::Instant))
}

pub open spec fn language_map_field() -> Shape {
    Shape::One(Item::Plain(Plain::LanguageMap))
}

pub open spec fn relations_field() -> Shape {
    Shape::Folded(Item::Plain(Plain::Text))
}

pub open spec fn tagged_object_field() -> Shape {
    Shape::One(Item::Plain(Plain::Tagged(Family::Object)))
}

pub open spec fn tagged_objects_field() -> Shape {
    Shape::Folded(Item::Plain(Plain::Tagged(Family::Object)))
}

pub open spec fn object_field() -> Shape {
    Shape::One(Item::Choice(Union::Object))
}

pub open spec fn objects_field() -> Shape {
    Shape::Folded(Item::Choice(Union::Object))
}

pub open spec fn images_field() -> Shape {
    Shape::Folded(Item::Choice(Union::Image))
}

pub open spec fn links_field() -> Shape {
    Shape::Folded(Item::Choice(Union::Link))
}

pub open spec fn collection_field() -> Shape {
    Shape::One(Item::Choice(Union::Collection))
}

pub open spec fn page_field() -> Shape {
    Shape::One(Item::Choice(Union::CollectionPage))
}

pub open spec fn closed_field() -> Shape {
    Shape::One(Item::Choice(Union::Closed))
}

/// The fields that a layout declares itself, in their order.
#[verifier::opaque]
pub open spec fn own(layout: Layout) -> Seq<(Seq<char>, Shape)> {
    match layout {
        Layout::Object => seq![
            ("attachment"@, objects_field()),
            ("attributedTo"@, objects_field()),
            ("audience"@, objects_field()),
            ("content"@, text_field()),
            ("contentMap"@, language_map_field()),
            ("context"@, objects_field()),
            ("name"@, text_field()),
            ("nameMap"@, language_map_field()),
            ("endTime"@, instant_field()),
            ("generator"@, objects_field()),
            ("icon"@, images_field()),
            ("image"@, images_field()),
            ("inReplyTo"@, objects_field()),
            ("location"@, objects_field()),
            ("preview"@, objects_field()),
            ("published"@, instant_field()),
            ("replies"@, collection_field()),
            ("startTime"@, instant_field()),
            ("summary"@, text_field()),
            ("summaryMap"@, language_map_field()),
            ("tag"@, objects_field()),
            ("updated"@, instant_field()),
            ("url"@, links_field()),
            ("to"@, objects_field()),
            ("bto"@, objects_field()),
            ("cc"@, objects_field()),
            ("bcc"@, objects_field()),
            ("mediaType"@, text_field()),
            ("duration"@, text_field()),
        ],
        Layout::Link => seq![
            ("href"@, text_field()),
            ("rel"@, relations_field()),
            ("mediaType"@, text_field()),
            ("name"@, text_field()),
            ("nameMap"@, language_map_field()),
            ("hreflang"@, text_field()),
            ("height"@, count_field()),
            ("width"@, count_field()),
            ("preview"@, objects_field()),
        ],
        Layout::Activity => seq![
            ("actor"@, objects_field()),
            ("object"@, objects_field()),
            ("target"@, objects_field()),
            ("result"@, objects_field()),
            ("origin"@, objects_field()),
            ("instrument"@, objects_field()),
        ],
        Layout::Collection => seq![
            ("totalItems"@, count_field()),
            ("current"@, page_field()),
            ("first"@, page_field()),
            ("last"@, page_field()),
            ("items"@, objects_field()),
        ],
        Layout::OrderedCollection => seq![
            ("totalItems"@, count_field()),
            ("current"@, page_field()),
            ("first"@, page_field()),
            ("last"@, page_field()),
            ("items"@, objects_field()),
            ("orderedItems"@, objects_field()),
        ],
        Layout::CollectionPage => seq![
            ("partOf"@, collection_field()),
            ("next"@, page_field()),
            ("prev"@, page_field()),
        ],
        Layout::OrderedCollectionPage => seq![
            ("startIndex"@, count_field()),
            ("partOf"@, collection_field()),
            ("next"@, page_field()),
            ("prev"@, page_field()),
        ],
        Layout::Question => seq![
            ("oneOf"@, objects_field()),
            ("anyOf"@, objects_field()),
            ("closed"@, closed_field()),
        ],
        Layout::Relationship => seq![
            ("subject"@, object_field()),
            ("object"@, objects_field()),
            ("relationship"@, tagged_objects_field()),
        ],
        Layout::Place => seq![
            ("accuracy"@, percentage_field()),
            ("altitude"@, real_field()),
            ("latitude"@, real_field()),
            ("longitude"@, real_field()),
            ("radius"@, positive_float_field()),
            ("units"@, text_field()),
        ],
        Layout::Profile => seq![("describes"@, tagged_object_field())],
        Layout::Tombstone => seq![
            ("formerType"@, tagged_objects_field()),
            ("deleted"@, instant_field()),
        ],
    }
}

/// The layout whose fields a layout takes over, after its own.
pub open spec fn base(layout: Layout) -> Option<Layout> {
    match layout {
        Layout::Object => None,
        Layout::Link => None,
        Layout::Activity => Some(Layout::Object),
        Layout::Collection => Some(Layout::Object),
        Layout::OrderedCollection => Some(Layout::Object),
        Layout::CollectionPage => Some(Layout::Collection),
        Layout::OrderedCollectionPage => Some(Layout::OrderedCollection),
        Layout::Question => Some(Layout::Activity),
        Layout::Relationship => Some(Layout::Object),
        Layout::Place => Some(Layout::Object),
        Layout::Profile => Some(Layout::Object),
        Layout::Tombstone => Some(Layout::Object),
    }
}

/// How many layouts a layout takes fields over from, one after the other.
pub open spec fn depth(layout: Layout) -> nat {
    match layout {
        Layout::Object => 0,
        Layout::Link => 0,
        Layout::CollectionPage => 2,
        Layout::OrderedCollectionPage => 2,
        Layout::Question => 2,
        _ => 1,
    }
}

/// The keys of all fields of a layout: its own first, then those of its
/// base.
pub open spec fn layout_keys(layout: Layout) -> Seq<Seq<char>> {
    Seq::new(entries(layout).len(), |i: int| entries(layout)[i].0)
}

/// The keys of the fields that a layout declares itself.
pub open spec fn own_keys(layout: Layout) -> Seq<Seq<char>> {
    Seq::new(own(layout).len(), |i: int| own(layout)[i].0)
}

/// All fields of a layout at one level: its own first, then those of its
/// base.
pub open spec fn entries(layout: Layout) -> Seq<(Seq<char>, Shape)>
    decreases depth(layout),
{
    match base(layout) {
        Some(below) => if depth(below) < depth(layout) {
            own(layout) + entries(below)
        } else {
            own(layout)
        },
        None => own(layout),
    }
}

/// The layout that a discriminator selects in the family of all objects.
pub open spec fn object_layout(tag: Seq<char>) -> Option<Layout> {
    if tag == "Object"@ {
        Some(Layout::Object)
    } else if tag == "Activity"@ {
        Some(Layout::Activity)
    } else if tag == "Collection"@ {
        Some(Layout::Collection)
    } else if tag == "OrderedCollection"@ {
        Some(Layout::OrderedCollection)
    } else if tag == "CollectionPage"@ {
        Some(Layout::CollectionPage)
    } else if tag == "OrderedCollectionPage"@ {
        Some(Layout::OrderedCollectionPage)
    } else if is_activity_tag(tag) {
        Some(Layout::Activity)
    } else if tag == "Question"@ {
        Some(Layout::Question)
    } else if tag == "Application"@ || tag == "Group"@ || tag == "Organization"@ || tag
        == "Person"@ || tag == "Service"@ {
        Some(Layout::Object)
    } else if tag == "Relationship"@ {
        Some(Layout::Relationship)
    } else if tag == "Article"@ || tag == "Document"@ || tag == "Audio"@ || tag == "Image"@
        || tag == "Video"@ || tag == "Note"@ || tag == "Page"@ || tag == "Event"@ {
        Some(Layout::Object)
    } else if tag == "Place"@ {
        Some(Layout::Place)
    } else if tag == "Mention"@ {
        Some(Layout::Link)
    } else if tag == "Profile"@ {
        Some(Layout::Profile)
    } else if tag == "Tombstone"@ {
        Some(Layout::Tombstone)
    } else {
        None
    }
}

/// The discriminators of the activities that add no field of their own.
pub open spec fn is_activity_tag(tag: Seq<char>) -> bool {
    ||| tag == "Accept"@
    ||| tag == "TentativeAccept"@
    ||| tag == "Add"@
    ||| tag == "Arrive"@
    ||| tag == "Create"@
    ||| tag == "Delete"@
    ||| tag == "Follow"@
    ||| tag == "Ignore"@
    ||| tag == "Join"@
    ||| tag == "Leave"@
    ||| tag == "Like"@
    ||| tag == "Offer"@
    ||| tag == "Invite"@
    ||| tag == "Reject"@
    ||| tag == "TentativeReject"@
    ||| tag == "Remove"@
    ||| tag == "Undo"@
    ||| tag == "Update"@
    ||| tag == "View"@
    ||| tag == "Listen"@
    ||| tag == "Read"@
    ||| tag == "Move"@
    ||| tag == "Travel"@
    ||| tag == "Announce"@
    ||| tag == "Block"@
    ||| tag == "Flag"@
    ||| tag == "Dislike"@
}

/// The layout that a discriminator selects in a family; `None` where the
/// family does not know the discriminator.
pub open spec fn layout_of(family: Family, tag: Seq<char>) -> Option<Layout> {
    match family {
        Family::Object => object_layout(tag),
        Family::Link => if tag == "Link"@ {
            Some(Layout::Link)
        } else {
            None
        },
        Family::Image => if tag == "Image"@ {
            Some(Layout::Object)
        } else {
            None
        },
        Family::Collection => if tag == "Collection"@ {
            Some(Layout::Collection)
        } else if tag == "OrderedCollection"@ {
            Some(Layout::OrderedCollection)
        } else if tag == "CollectionPage"@ {
            Some(Layout::CollectionPage)
        } else if tag == "OrderedCollectionPage"@ {
            Some(Layout::OrderedCollectionPage)
        } else {
            None
        },
        Family::CollectionPage => if tag == "CollectionPage"@ {
            Some(Layout::CollectionPage)
        } else if tag == "OrderedCollectionPage"@ {
            Some(Layout::OrderedCollectionPage)
        } else {
            None
        },
    }
}

/// The candidates of a union, in the order in which they are tried.
pub open spec fn candidates(union: Union) -> Seq<Plain> {
    match union {
        Union::Object => seq![
            Plain::Text,
            Plain::Tagged(Family::Link),
            Plain::Tagged(Family::Object),
        ],
        Union::Link => seq![Plain::Text, Plain::Tagged(Family::Link)],
        Union::Image => seq![
            Plain::Text,
            Plain::Tagged(Family::Link),
            Plain::Tagged(Family::Image),
        ],
        Union::Collection => seq![
            Plain::Text,
            Plain::Tagged(Family::Link),
            Plain::Tagged(Family::Collection),
        ],
        Union::CollectionPage => seq![
            Plain::Text,
            Plain::Tagged(Family::Link),
            Plain::Tagged(Family::CollectionPage),
        ],
        Union::Closed => seq![
            Plain::Text,
            Plain::Tagged(Family::Link),
            Plain::Tagged(Family::Object),
            Plain::Instant,
            Plain::Flag,
        ],
    }
}

/// The discriminator as the one field that it is written as.
pub open spec fn discriminator(tag: Seq<char>) -> Fields {
    seq![(type_key(), JsonModel::Text(tag))]
}

/// The fields of a tagged record: the discriminator first, then the fields of
/// the variant.
pub open spec fn tagged_fields(tag: Seq<char>, rest: Fields) -> Fields {
    discriminator(tag) + rest
}

/// The value of a field that is present and not null.
pub open spec fn present_value(j: JsonModel, key: Seq<char>) -> Option<JsonModel> {
    match j.field(key) {
        Some(value) => if value is Null {
            None
        } else {
            Some(value)
        },
        None => None,
    }
}

/// The shapes that a union tries, in their order: what a failure of the
/// union has tried and found not to fit.
pub fn candidates_tried(union: Union) -> (r: Vec<Plain>)
    ensures
        r@ == candidates(union),
{
    match union {
        Union::Object => vec![
            Plain::Text,
            Plain::Tagged(Family::Link),
            Plain::Tagged(Family::Object),
        ],
        Union::Link => vec![Plain::Text, Plain::Tagged(Family::Link)],
        Union::Image => vec![
            Plain::Text,
            Plain::Tagged(Family::Link),
            Plain::Tagged(Family::Image),
        ],
        Union::Collection => vec![
            Plain::Text,
            Plain::Tagged(Family::Link),
            Plain::Tagged(Family::Collection),
        ],
        Union::CollectionPage => vec![
            Plain::Text,
            Plain::Tagged(Family::Link),
            Plain::Tagged(Family::CollectionPage),
        ],
        Union::Closed => vec![
            Plain::Text,
            Plain::Tagged(Family::Link),
            Plain::Tagged(Family::Object),
            Plain::Instant,
            Plain::Flag,
        ],
    }
}

/// The failure of a value that has another JSON type than its shape asks for.
pub open spec fn mismatch() -> Failure {
    Failure::at_root(FailureKind::FieldTypeMismatch)
}

/// The bit pattern of a number read as floating point.
pub open spec fn float_bits(number: Number) -> u64 {
    match number {
        Number::PosInt(n) => float_of_int(n as int),
        Number::NegInt(n) => float_of_int(n as int),
        Number::Float(bits) => bits,
    }
}

/// A number as a floating-point document.
pub open spec fn float(bits: u64) -> JsonModel {
    JsonModel::Number(Number::Float(bits))
}

/// A map of strings after `(key, value)` is put into it: the value replaces
/// that of an equal key, or the pair goes to the end.
pub open spec fn put(map: Fields, key: Seq<char>, value: JsonModel) -> Fields {
    match position(map, key) {
        Some(i) => if 0 <= i < map.len() {
            map.update(i, (key, value))
        } else {
            map
        },
        None => map.push((key, value)),
    }
}

/// The first `k` fields of an object read as a map of strings: each key once,
/// at the place of its first occurrence and with the value of its last. A
/// value that is no string fails under its key.
pub open spec fn normal_language_map(fields: Fields, k: nat) -> Result<Fields, Failure>
    decreases k,
{
    if k == 0 || k > fields.len() {
        Ok(Seq::empty())
    } else {
        match normal_language_map(fields, (k - 1) as nat) {
            Err(e) => Err(e),
            Ok(map) => if fields[k - 1].1 is Text {
                Ok(put(map, fields[k - 1].0, fields[k - 1].1))
            } else {
                Err(mismatch().within(fields[k - 1].0))
            },
        }
    }
}

/// What the value of an optional field decodes to: `Null` where the field is
/// absent or null, and otherwise what its shape makes of it, with the key put
/// before the path of a failure.
#[verifier::opaque]
pub open spec fn normal_field(shape: Shape, j: JsonModel, key: Seq<char>) -> Result<
    JsonModel,
    Failure,
>
    decreases j, 0nat, 0nat,
{
    match j {
        JsonModel::Object(fields) => match position(fields, key) {
            Some(i) => if 0 <= i < fields.len() && !(fields[i].1 is Null) {
                match normal_shape(shape, fields[i].1) {
                    Ok(value) => Ok(value),
                    Err(e) => Err(e.within(key)),
                }
            } else {
                Ok(JsonModel::Null)
            },
            None => Ok(JsonModel::Null),
        },
        _ => Ok(JsonModel::Null),
    }
}

/// The first `k` of a layout's own fields, decoded in their declared order.
/// The first field that fails decides the failure.
#[verifier::opaque]
pub open spec fn normal_own(layout: Layout, j: JsonModel, k: nat) -> Result<Fields, Failure>
    decreases j, 1nat, k,
{
    if k == 0 || k > own(layout).len() {
        Ok(Seq::empty())
    } else {
        match normal_own(layout, j, (k - 1) as nat) {
            Err(e) => Err(e),
            Ok(done) => {
                let entry = own(layout)[k - 1];
                match normal_field(entry.1, j, entry.0) {
                    Ok(value) => Ok(done.push((entry.0, value))),
                    Err(e) => Err(e),
                }
            },
        }
    }
}

/// The fields of a record: the layout's own, then those of its base, at one
/// level. Fields that the layout does not know are left out.
#[verifier::opaque]
pub open spec fn normal_record(layout: Layout, j: JsonModel) -> Result<Fields, Failure>
    decreases j, 2nat, depth(layout),
{
    if !(j is Object) {
        Err(mismatch())
    } else {
        match normal_own(layout, j, own(layout).len()) {
            Err(e) => Err(e),
            Ok(mine) => match base(layout) {
                Some(below) => if depth(below) < depth(layout) {
                    match normal_record(below, j) {
                        Ok(theirs) => Ok(mine + theirs),
                        Err(e) => Err(e),
                    }
                } else {
                    Ok(mine)
                },
                None => Ok(mine),
            },
        }
    }
}

/// The fields of a record with a discriminator: the discriminator first, then
/// the fields of the layout that it selects.
pub open spec fn normal_tagged(family: Family, j: JsonModel) -> Result<Fields, Failure>
    decreases j, 3nat, 0nat,
{
    match j {
        JsonModel::Object(fields) => match position(fields, type_key()) {
            Some(i) => if 0 <= i < fields.len() {
                match fields[i].1 {
                    JsonModel::Text(tag) => match layout_of(family, tag) {
                        Some(layout) => match normal_record(layout, j) {
                            Ok(rest) => Ok(tagged_fields(tag, rest)),
                            Err(e) => Err(e),
                        },
                        None => Err(Failure::at_root(FailureKind::UnknownVariant(tag))),
                    },
                    _ => Err(mismatch().within(type_key())),
                }
            } else {
                Err(Failure::at_root(FailureKind::MissingDiscriminator))
            },
            None => Err(Failure::at_root(FailureKind::MissingDiscriminator)),
        },
        _ => Err(mismatch()),
    }
}

/// What a value decodes to under a shape that needs no trial.
pub open spec fn normal_plain(plain: Plain, j: JsonModel) -> Result<JsonModel, Failure>
    decreases j, 4nat, 0nat,
{
    match plain {
        Plain::Text => if j is Text {
            Ok(j)
        } else {
            Err(mismatch())
        },
        Plain::Count => if j matches JsonModel::Number(Number::PosInt(_)) {
            Ok(j)
        } else {
            Err(mismatch())
        },
        Plain::Real => match j {
            JsonModel::Number(number) => Ok(float(float_bits(number))),
            _ => Err(mismatch()),
        },
        Plain::Percentage => match j {
            JsonModel::Number(number) => if is_percentage(float_bits(number)) {
                Ok(float(float_bits(number)))
            } else {
                Err(violation(float_bits(number), Bound::Percentage))
            },
            _ => Err(mismatch()),
        },
        Plain::PositiveFloat => match j {
            JsonModel::Number(number) => if is_non_negative(float_bits(number)) {
                Ok(float(float_bits(number)))
            } else {
                Err(violation(float_bits(number), Bound::NonNegative))
            },
            _ => Err(mismatch()),
        },
        Plain::Instant => match j {
            JsonModel::Text(text) => match instant_read(text) {
                Some(instant) => Ok(JsonModel::Text(instant.text().unwrap())),
                None => Err(mismatch()),
            },
            _ => Err(mismatch()),
        },
        Plain::LanguageMap => match j {
            JsonModel::Object(fields) => match normal_language_map(fields, fields.len()) {
                Ok(map) => Ok(JsonModel::Object(map)),
                Err(e) => Err(e),
            },
            _ => Err(mismatch()),
        },
        Plain::Flag => if j is Bool {
            Ok(j)
        } else {
            Err(mismatch())
        },
        Plain::Tagged(family) => match normal_tagged(family, j) {
            Ok(fields) => Ok(JsonModel::Object(fields)),
            Err(e) => Err(e),
        },
    }
}

/// The index, at or after `k`, of the first candidate that accepts the value.
pub open spec fn first_accepting(candidates: Seq<Plain>, j: JsonModel, k: nat) -> Option<nat>
    decreases j, 5nat, candidates.len() - k,
{
    if k >= candidates.len() {
        None
    } else if normal_plain(candidates[k as int], j) is Ok {
        Some(k)
    } else {
        first_accepting(candidates, j, k + 1)
    }
}

/// What a value decodes to under the shape of one item. A union takes the
/// first of its candidates that accepts the value, and what the later ones
/// would make of it plays no part.
pub open spec fn normal_item(item: Item, j: JsonModel) -> Result<JsonModel, Failure>
    decreases j, 6nat, 0nat,
{
    match item {
        Item::Plain(plain) => normal_plain(plain, j),
        Item::Choice(union) => match first_accepting(candidates(union), j, 0) {
            Some(k) => if k < candidates(union).len() {
                normal_plain(candidates(union)[k as int], j)
            } else {
                Err(Failure::at_root(FailureKind::NoMatchingVariant(union)))
            },
            None => Err(Failure::at_root(FailureKind::NoMatchingVariant(union))),
        },
    }
}

/// The first `k` items of an array, each decoded as `item`. The first item
/// that fails decides the failure.
pub open spec fn normal_items(item: Item, j: JsonModel, k: nat) -> Result<Seq<JsonModel>, Failure>
    decreases j, 7nat, k,
{
    match j {
        JsonModel::Array(items) => if k == 0 || k > items.len() {
            Ok(Seq::empty())
        } else {
            match normal_items(item, j, (k - 1) as nat) {
                Err(e) => Err(e),
                Ok(done) => match normal_item(item, items[k - 1]) {
                    Ok(value) => Ok(done.push(value)),
                    Err(e) => Err(e),
                },
            }
        },
        _ => Ok(Seq::empty()),
    }
}

/// What a value decodes to under a shape. Where the shape allows one or more
/// items, a bare value stands for one item, an array of one item is folded
/// into that item, and an empty array is refused.
pub open spec fn normal_shape(shape: Shape, j: JsonModel) -> Result<JsonModel, Failure>
    decreases j, 8nat, 0nat,
{
    match shape {
        Shape::One(item) => normal_item(item, j),
        Shape::Folded(item) => match j {
            JsonModel::Array(items) => if items.len() == 0 {
                Err(Failure::at_root(FailureKind::EmptyCollection))
            } else {
                match normal_items(item, j, items.len()) {
                    Err(e) => Err(e),
                    Ok(values) => if values.len() == 1 {
                        Ok(values[0])
                    } else {
                        Ok(JsonModel::Array(values))
                    },
                }
            },
            _ => normal_item(item, j),
        },
    }
}

/// The keys of a layout are its own keys and, after them, those of its base.
pub proof fn lemma_layout_keys(layout: Layout)
    ensures
        layout_keys(layout) == match base(layout) {
            Some(below) => own_keys(layout) + layout_keys(below),
            None => own_keys(layout),
        },
{
    match base(layout) {
        Some(below) => {
            assert(layout_keys(layout) =~= own_keys(layout) + layout_keys(below));
        },
        None => {
            assert(layout_keys(layout) =~= own_keys(layout));
        },
    }
}

/// A field that is absent or null decodes to `Null`; any other decodes as its
/// shape says, and a failure gets the key put before its path.
pub proof fn lemma_normal_field(shape: Shape, j: JsonModel, key: Seq<char>)
    ensures
        normal_field(shape, j, key) == match present_value(j, key) {
            Some(value) => match normal_shape(shape, value) {
                Ok(decoded) => Normal::Ok(decoded),
                Err(e) => Err(e.within(key)),
            },
            None => Ok(JsonModel::Null),
        },
        present_value(j, key) matches Some(value) ==> decreases_to!(j => value),
{
    reveal(normal_field);
    if let JsonModel::Object(fields) = j {
        lemma_position_from(fields, key, 0);
    }
}

/// Once an item has failed, reading further items changes nothing.
pub proof fn lemma_items_failure_stays(item: Item, j: JsonModel, k: nat, m: nat)
    requires
        j matches JsonModel::Array(items) && k <= m <= items.len(),
        normal_items(item, j, k) is Err,
    ensures
        normal_items(item, j, m) == normal_items(item, j, k),
    decreases m,
{
    if m > k {
        lemma_items_failure_stays(item, j, k, (m - 1) as nat);
    }
}

/// Once one of a layout's own fields has failed, reading further fields
/// changes nothing.
pub proof fn lemma_own_failure_stays(layout: Layout, j: JsonModel, k: nat, m: nat)
    requires
        k <= m <= own(layout).len(),
        normal_own(layout, j, k) is Err,
    ensures
        normal_own(layout, j, m) == normal_own(layout, j, k),
    decreases m,
{
    reveal(normal_own);
    if m > k {
        lemma_own_failure_stays(layout, j, k, (m - 1) as nat);
    }
}

/// Where the fields before the one at `i` decode and that one fails, the
/// record fails as that field does.
pub proof fn lemma_field_fails(layout: Layout, j: JsonModel, i: nat, e: Failure)
    requires
        j is Object,
        i < own(layout).len(),
        normal_own(layout, j, i) is Ok,
        normal_field(own(layout)[i as int].1, j, own(layout)[i as int].0) == Normal::Err(e),
    ensures
        normal_record(layout, j) == NormalFields::Err(e),
{
    reveal(normal_own);
    reveal(normal_record);
    reveal(normal_field);
    assert(normal_own(layout, j, i + 1) == NormalFields::Err(e));
    lemma_own_failure_stays(layout, j, i + 1, own(layout).len());
}

/// Where the fields before the one at `i` decode and that one does too, its
/// value is added to theirs under its key.
pub proof fn lemma_field_read(layout: Layout, j: JsonModel, i: nat)
    requires
        i < own(layout).len(),
        normal_own(layout, j, i) is Ok,
        normal_field(own(layout)[i as int].1, j, own(layout)[i as int].0) is Ok,
    ensures
        normal_own(layout, j, i + 1) == NormalFields::Ok(
            normal_own(layout, j, i)->Ok_0.push(
                (
                    own(layout)[i as int].0,
                    normal_field(own(layout)[i as int].1, j, own(layout)[i as int].0)->Ok_0,
                ),
            ),
        ),
{
    reveal(normal_own);
    reveal(normal_field);
}

/// A record of a layout without a base is made of the layout's own fields.
pub proof fn lemma_record_plain(layout: Layout, j: JsonModel)
    requires
        j is Object,
        base(layout) is None,
        normal_own(layout, j, own(layout).len()) is Ok,
    ensures
        normal_record(layout, j) == normal_own(layout, j, own(layout).len()),
{
    reveal(normal_record);
    reveal(normal_own);
}

/// A record of a layout with a base is made of the layout's own fields and,
/// after them, of the fields of the base; where the base fails, the record
/// fails as the base does.
pub proof fn lemma_record_extended(layout: Layout, j: JsonModel)
    requires
        j is Object,
        base(layout) is Some,
        normal_own(layout, j, own(layout).len()) is Ok,
    ensures
        normal_record(layout, j) == match normal_record(base(layout)->Some_0, j) {
            Ok(theirs) => NormalFields::Ok(normal_own(layout, j, own(layout).len())->Ok_0 + theirs),
            Err(e) => Err(e),
        },
{
    reveal(normal_record);
    reveal(normal_own);
}

/// A value that is no object is no record.
pub proof fn lemma_record_refused(layout: Layout, j: JsonModel)
    requires
        !(j is Object),
    ensures
        normal_record(layout, j) == NormalFields::Err(mismatch()),
{
    reveal(normal_record);
}

/// No field is read before the first.
pub proof fn lemma_own_start(layout: Layout, j: JsonModel)
    ensures
        normal_own(layout, j, 0) == NormalFields::Ok(Seq::empty()),
{
    reveal(normal_own);
}

/// The fields that the layout `Object` declares, one by one.
pub proof fn lemma_own_object()
    ensures
        own(Layout::Object).len() == 29,
        own(Layout::Object)[0] == ("attachment"@, objects_field()),
        own(Layout::Object)[1] == ("attributedTo"@, objects_field()),
        own(Layout::Object)[2] == ("audience"@, objects_field()),
        own(Layout::Object)[3] == ("content"@, text_field()),
        own(Layout::Object)[4] == ("contentMap"@, language_map_field()),
        own(Layout::Object)[5] == ("context"@, objects_field()),
        own(Layout::Object)[6] == ("name"@, text_field()),
        own(Layout::Object)[7] == ("nameMap"@, language_map_field()),
        own(Layout::Object)[8] == ("endTime"@, instant_field()),
        own(Layout::Object)[9] == ("generator"@, objects_field()),
        own(Layout::Object)[10] == ("icon"@, images_field()),
        own(Layout::Object)[11] == ("image"@, images_field()),
        own(Layout::Object)[12] == ("inReplyTo"@, objects_field()),
        own(Layout::Object)[13] == ("location"@, objects_field()),
        own(Layout::Object)[14] == ("preview"@, objects_field()),
        own(Layout::Object)[15] == ("published"@, instant_field()),
        own(Layout::Object)[16] == ("replies"@, collection_field()),
        own(Layout::Object)[17] == ("startTime"@, instant_field()),
        own(Layout::Object)[18] == ("summary"@, text_field()),
        own(Layout::Object)[19] == ("summaryMap"@, language_map_field()),
        own(Layout::Object)[20] == ("tag"@, objects_field()),
        own(Layout::Object)[21] == ("updated"@, instant_field()),
        own(Layout::Object)[22] == ("url"@, links_field()),
        own(Layout::Object)[23] == ("to"@, objects_field()),
        own(Layout::Object)[24] == ("bto"@, objects_field()),
        own(Layout::Object)[25] == ("cc"@, objects_field()),
        own(Layout::Object)[26] == ("bcc"@, objects_field()),
        own(Layout::Object)[27] == ("mediaType"@, text_field()),
        own(Layout::Object)[28] == ("duration"@, text_field()),
{
    reveal(own);
}

/// The fields that the layout `Link` declares, one by one.
pub proof fn lemma_own_link()
    ensures
        own(Layout::Link).len() == 9,
        own(Layout::Link)[0] == ("href"@, text_field()),
        own(Layout::Link)[1] == ("rel"@, relations_field()),
        own(Layout::Link)[2] == ("mediaType"@, text_field()),
        own(Layout::Link)[3] == ("name"@, text_field()),
        own(Layout::Link)[4] == ("nameMap"@, language_map_field()),
        own(Layout::Link)[5] == ("hreflang"@, text_field()),
        own(Layout::Link)[6] == ("height"@, count_field()),
        own(Layout::Link)[7] == ("width"@, count_field()),
        own(Layout::Link)[8] == ("preview"@, objects_field()),
{
    reveal(own);
}

/// The fields that the layout `Activity` declares, one by one.
pub proof fn lemma_own_activity()
    ensures
        own(Layout::Activity).len() == 6,
        own(Layout::Activity)[0] == ("actor"@, objects_field()),
        own(Layout::Activity)[1] == ("object"@, objects_field()),
        own(Layout::Activity)[2] == ("target"@, objects_field()),
        own(Layout::Activity)[3] == ("result"@, objects_field()),
        own(Layout::Activity)[4] == ("origin"@, objects_field()),
        own(Layout::Activity)[5] == ("instrument"@, objects_field()),
{
    reveal(own);
}

/// The fields that the layout `Collection` declares, one by one.
pub proof fn lemma_own_collection()
    ensures
        own(Layout::Collection).len() == 5,
        own(Layout::Collection)[0] == ("totalItems"@, count_field()),
        own(Layout::Collection)[1] == ("current"@, page_field()),
        own(Layout::Collection)[2] == ("first"@, page_field()),
        own(Layout::Collection)[3] == ("last"@, page_field()),
        own(Layout::Collection)[4] == ("items"@, objects_field()),
{
    reveal(own);
}

/// The fields that the layout `OrderedCollection` declares, one by one.
pub proof fn lemma_own_ordered_collection()
    ensures
        own(Layout::OrderedCollection).len() == 6,
        own(Layout::OrderedCollection)[0] == ("totalItems"@, count_field()),
        own(Layout::OrderedCollection)[1] == ("current"@, page_field()),
        own(Layout::OrderedCollection)[2] == ("first"@, page_field()),
        own(Layout::OrderedCollection)[3] == ("last"@, page_field()),
        own(Layout::OrderedCollection)[4] == ("items"@, objects_field()),
        own(Layout::OrderedCollection)[5] == ("orderedItems"@, objects_field()),
{
    reveal(own);
}

/// The fields that the layout `CollectionPage` declares, one by one.
pub proof fn lemma_own_collection_page()
    ensures
        own(Layout::CollectionPage).len() == 3,
        own(Layout::CollectionPage)[0] == ("partOf"@, collection_field()),
        own(Layout::CollectionPage)[1] == ("next"@, page_field()),
        own(Layout::CollectionPage)[2] == ("prev"@, page_field()),
{
    reveal(own);
}

/// The fields that the layout `OrderedCollectionPage` declares, one by one.
pub proof fn lemma_own_ordered_collection_page()
    ensures
        own(Layout::OrderedCollectionPage).len() == 4,
        own(Layout::OrderedCollectionPage)[0] == ("startIndex"@, count_field()),
        own(Layout::OrderedCollectionPage)[1] == ("partOf"@, collection_field()),
        own(Layout::OrderedCollectionPage)[2] == ("next"@, page_field()),
        own(Layout::OrderedCollectionPage)[3] == ("prev"@, page_field()),
{
    reveal(own);
}

/// The fields that the layout `Question` declares, one by one.
pub proof fn lemma_own_question()
    ensures
        own(Layout::Question).len() == 3,
        own(Layout::Question)[0] == ("oneOf"@, objects_field()),
        own(Layout::Question)[1] == ("anyOf"@, objects_field()),
        own(Layout::Question)[2] == ("closed"@, closed_field()),
{
    reveal(own);
}

/// The fields that the layout `Relationship` declares, one by one.
pub proof fn lemma_own_relationship()
    ensures
        own(Layout::Relationship).len() == 3,
        own(Layout::Relationship)[0] == ("subject"@, object_field()),
        own(Layout::Relationship)[1] == ("object"@, objects_field()),
        own(Layout::Relationship)[2] == ("relationship"@, tagged_objects_field()),
{
    reveal(own);
}

/// The fields that the layout `Place` declares, one by one.
pub proof fn lemma_own_place()
    ensures
        own(Layout::Place).len() == 6,
        own(Layout::Place)[0] == ("accuracy"@, percentage_field()),
        own(Layout::Place)[1] == ("altitude"@, real_field()),
        own(Layout::Place)[2] == ("latitude"@, real_field()),
        own(Layout::Place)[3] == ("longitude"@, real_field()),
        own(Layout::Place)[4] == ("radius"@, positive_float_field()),
        own(Layout::Place)[5] == ("units"@, text_field()),
{
    reveal(own);
}

/// The fields that the layout `Profile` declares, one by one.
pub proof fn lemma_own_profile()
    ensures
        own(Layout::Profile).len() == 1,
        own(Layout::Profile)[0] == ("describes"@, tagged_object_field()),
{
    reveal(own);
}

/// The fields that the layout `Tombstone` declares, one by one.
pub proof fn lemma_own_tombstone()
    ensures
        own(Layout::Tombstone).len() == 2,
        own(Layout::Tombstone)[0] == ("formerType"@, tagged_objects_field()),
        own(Layout::Tombstone)[1] == ("deleted"@, instant_field()),
{
    reveal(own);
}

} // verus!

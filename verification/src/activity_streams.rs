//! The vocabulary: the values that stand for objects, links and activities.

pub mod objects;
pub mod properties;

use vstd::prelude::*;
use vstd::view::View as _;
use crate::document::parsed;
use crate::envelope::Payload;
use crate::error::{CodecError, ErrorKind, Failure, Union};
use crate::json::{
    field_keys, fields_model, lemma_added, lemma_appended, lemma_keys_appended,
    lemma_nothing_added, push_field, same, Fields, Json, JsonModel,
};
use crate::marker_types::URI;
use crate::names::lemma_tag_signatures;
use crate::schema::{
    candidates, discriminator, first_accepting, layout_keys, layout_of, normal_item,
    normal_plain, normal_tagged, tagged_fields, type_key, Family, Item, Normal, Plain,
};
use objects::{
    Accept, Activity, Add, Announce, Application, Arrive, Article, Audio, Block, Collection,
    CollectionPage, Create, Delete, Dislike, Document, Event, Flag, Follow, Group, Ignore, Image,
    Invite, Join, Leave, Like, Link, Listen, Mention, Move, Note, Object, Offer, OrderedCollection,
    OrderedCollectionPage, Organization, Page, Person, Place, Profile, Question, Read, Reject,
    Relationship, Remove, Service, TentativeAccept, TentativeReject, Tombstone, Travel, Undo,
    Update, Video, View,
};
use properties::{decode_text, encode_text, encode_text_slice};

verus! {

/// An object, given by its identifier, by a link or in full.
///
/// The shapes are tried in the order in which the variants stand, and the first
/// that fits decides.
#[derive(Debug, PartialEq)]
pub enum MaybeObject {
    URI(URI),
    TaggedLink(TaggedLink),
    TaggedObject(TaggedObject),
}

impl MaybeObject {
    /// The place of the variant in the order in which the shapes are tried.
    pub open spec fn rank(&self) -> nat {
        match self {
            MaybeObject::URI(_) => 0,
            MaybeObject::TaggedLink(_) => 1,
            MaybeObject::TaggedObject(_) => 2,
        }
    }

    /// The document that the value is written as.
    #[verifier::opaque]
    pub open spec fn wire(&self) -> JsonModel
        decreases self, 0nat,
    {
        match self {
            MaybeObject::URI(v) => JsonModel::Text(v@),
            MaybeObject::TaggedLink(v) => JsonModel::Object(v.wire_fields()),
            MaybeObject::TaggedObject(v) => JsonModel::Object(v.wire_fields()),
        }
    }

    /// Reads the value: the first variant whose shape fits the document.
    pub fn decode(j: &Json) -> (r: Result<MaybeObject, CodecError>)
        ensures
            match r {
                Ok(value) => {
                    &&& normal_item(Item::Choice(Union::Object), j@) == Normal::Ok(value.wire())
                    &&& first_accepting(candidates(Union::Object), j@, 0) == Some(value.rank())
                },
                Err(e) => normal_item(Item::Choice(Union::Object), j@) == Normal::Err(e@),
            },
        decreases j@, 6nat, 0nat,
    {
        proof {
            reveal(MaybeObject::wire);
            reveal(TaggedLink::wire_fields);
            reveal(TaggedObject::wire_fields);
            reveal_with_fuel(first_accepting, 4);
        }
        match decode_text(j) {
            Ok(v) => {
                return Ok(MaybeObject::URI(v));
            },
            Err(_) => {},
        }
        match TaggedLink::decode(j) {
            Ok(v) => {
                return Ok(MaybeObject::TaggedLink(v));
            },
            Err(_) => {},
        }
        match TaggedObject::decode(j) {
            Ok(v) => {
                return Ok(MaybeObject::TaggedObject(v));
            },
            Err(_) => {},
        }
        Err(CodecError::at_root(ErrorKind::NoMatchingVariant(Union::Object)))
    }

    /// Writes the value in the shape of its variant.
    pub fn encode(&self) -> (r: Json)
        ensures
            r@ == self.wire(),
        decreases self,
    {
        proof {
            reveal(MaybeObject::wire);
            reveal(TaggedLink::wire_fields);
            reveal(TaggedObject::wire_fields);
        }
        match self {
            MaybeObject::URI(v) => encode_text(v),
            MaybeObject::TaggedLink(v) => v.encode(),
            MaybeObject::TaggedObject(v) => v.encode(),
        }
    }
}

/// A link, given by its address or in full.
///
/// The shapes are tried in the order in which the variants stand, and the first
/// that fits decides.
#[derive(Debug, PartialEq)]
pub enum MaybeLink {
    URI(URI),
    TaggedLink(TaggedLink),
}

impl MaybeLink {
    /// The place of the variant in the order in which the shapes are tried.
    pub open spec fn rank(&self) -> nat {
        match self {
            MaybeLink::URI(_) => 0,
            MaybeLink::TaggedLink(_) => 1,
        }
    }

    /// The document that the value is written as.
    #[verifier::opaque]
    pub open spec fn wire(&self) -> JsonModel
        decreases self, 0nat,
    {
        match self {
            MaybeLink::URI(v) => JsonModel::Text(v@),
            MaybeLink::TaggedLink(v) => JsonModel::Object(v.wire_fields()),
        }
    }

    /// Reads the value: the first variant whose shape fits the document.
    pub fn decode(j: &Json) -> (r: Result<MaybeLink, CodecError>)
        ensures
            match r {
                Ok(value) => {
                    &&& normal_item(Item::Choice(Union::Link), j@) == Normal::Ok(value.wire())
                    &&& first_accepting(candidates(Union::Link), j@, 0) == Some(value.rank())
                },
                Err(e) => normal_item(Item::Choice(Union::Link), j@) == Normal::Err(e@),
            },
        decreases j@, 6nat, 0nat,
    {
        proof {
            reveal(MaybeLink::wire);
            reveal(TaggedLink::wire_fields);
            reveal_with_fuel(first_accepting, 3);
        }
        match decode_text(j) {
            Ok(v) => {
                return Ok(MaybeLink::URI(v));
            },
            Err(_) => {},
        }
        match TaggedLink::decode(j) {
            Ok(v) => {
                return Ok(MaybeLink::TaggedLink(v));
            },
            Err(_) => {},
        }
        Err(CodecError::at_root(ErrorKind::NoMatchingVariant(Union::Link)))
    }

    /// Writes the value in the shape of its variant.
    pub fn encode(&self) -> (r: Json)
        ensures
            r@ == self.wire(),
        decreases self,
    {
        proof {
            reveal(MaybeLink::wire);
            reveal(TaggedLink::wire_fields);
        }
        match self {
            MaybeLink::URI(v) => encode_text(v),
            MaybeLink::TaggedLink(v) => v.encode(),
        }
    }
}

/// A link, marked as such by its discriminator.
#[derive(Debug, PartialEq)]
pub enum TaggedLink {
    Link(Link),
}

impl TaggedLink {
    /// The discriminator of the variant.
    pub open spec fn tag_model(&self) -> Seq<char> {
        match self {
            TaggedLink::Link(_) => "Link"@,
        }
    }

    /// The fields that the value is written as: the discriminator first, then
    /// the fields of the variant.
    #[verifier::opaque]
    pub open spec fn wire_fields(&self) -> Fields
        decreases self, 3nat,
    {
        match self {
            TaggedLink::Link(v) => tagged_fields("Link"@, v.wire_fields()),
        }
    }

    /// The document that the value is written as.
    pub open spec fn wire(&self) -> JsonModel {
        JsonModel::Object(self.wire_fields())
    }

    /// The discriminator of the variant.
    pub fn tag(&self) -> (r: &'static str)
        ensures
            r@ == self.tag_model(),
    {
        match self {
            TaggedLink::Link(_) => "Link",
        }
    }

    /// The value is written flat: under the discriminator and then under the
    /// keys of the layout that the discriminator selects.
    pub proof fn law_written_flat(&self)
        ensures
            layout_of(Family::Link, self.tag_model()) matches Some(layout) && field_keys(
                self.wire_fields(),
            ) == seq![type_key()] + layout_keys(layout),
    {
        reveal(TaggedLink::wire_fields);
        lemma_tag_signatures();
        match self {
            TaggedLink::Link(v) => {
                v.law_written_flat();
                lemma_keys_appended(discriminator("Link"@), v.wire_fields());
                assert(field_keys(discriminator("Link"@)) =~= seq![type_key()]);
            },
        }
    }

    /// Reads the variant that the discriminator names. A document without a
    /// discriminator and one with a discriminator that the family does not know
    /// are refused.
    pub fn decode(j: &Json) -> (r: Result<TaggedLink, CodecError>)
        ensures
            match r {
                Ok(value) => normal_plain(Plain::Tagged(Family::Link), j@) == Normal::Ok(
                    value.wire(),
                ),
                Err(e) => normal_plain(Plain::Tagged(Family::Link), j@) == Normal::Err(e@),
            },
        decreases j@, 3nat, 0nat,
    {
        proof {
            reveal(TaggedLink::wire_fields);
        }
        match j {
            Json::Object(_) => {},
            _ => {
                return Err(CodecError::at_root(ErrorKind::FieldTypeMismatch));
            },
        }
        let tag = match j.get("type") {
            Some(Json::Text(tag)) => tag,
            Some(_) => {
                return Err(CodecError::at_root(ErrorKind::FieldTypeMismatch).within("type"));
            },
            None => {
                return Err(CodecError::at_root(ErrorKind::MissingDiscriminator));
            },
        };
        if same(tag.as_str(), "Link") {
            match Link::decode(j) {
                Ok(v) => Ok(TaggedLink::Link(v)),
                Err(e) => Err(e),
            }
        } else {
            Err(CodecError::at_root(ErrorKind::UnknownVariant(tag.clone())))
        }
    }

    /// Appends the discriminator and the fields of the variant to the fields
    /// of an object.
    pub fn encode_into(&self, out: &mut Vec<(String, Json)>)
        ensures
            fields_model(final(out)@) == fields_model(old(out)@) + self.wire_fields(),
        decreases self,
    {
        proof {
            reveal(TaggedLink::wire_fields);
        }
        let ghost start = fields_model(out@);
        push_field(out, "type", encode_text_slice(self.tag()));
        proof {
            lemma_nothing_added(start);
            lemma_added(start, Seq::empty(), type_key(), JsonModel::Text(self.tag_model()));
        }
        match self {
            TaggedLink::Link(v) => {
                v.encode_into(out);
                proof {
                    lemma_appended(start, discriminator("Link"@), v.wire_fields());
                }
            },
        }
    }

    /// Writes the discriminator, then the fields of the variant.
    pub fn encode(&self) -> (r: Json)
        ensures
            r@ == self.wire(),
        decreases self,
    {
        proof {
            reveal(TaggedLink::wire_fields);
        }
        let mut fields: Vec<(String, Json)> = Vec::new();
        push_field(&mut fields, "type", encode_text_slice(self.tag()));
        assert(fields_model(fields@) =~= discriminator(self.tag_model()));
        match self {
            TaggedLink::Link(v) => v.encode_into(&mut fields),
        }
        Json::Object(fields)
    }

    /// Reads the value from JSON text.
    pub fn parse(text: &str) -> (r: Result<TaggedLink, CodecError>)
        ensures
            match r {
                Ok(value) => parsed(text@) matches Ok(document) && normal_plain(
                    Plain::Tagged(Family::Link),
                    document,
                ) == Normal::Ok(value.wire()),
                Err(e) => match parsed(text@) {
                    Ok(document) => normal_plain(Plain::Tagged(Family::Link), document)
                        == Normal::Err(e@),
                    Err(f) => e@ == f,
                },
            },
    {
        match Json::parse(text) {
            Ok(document) => TaggedLink::decode(&document),
            Err(e) => Err(e),
        }
    }
}

impl Payload for TaggedLink {
    open spec fn payload_fields(&self) -> Fields {
        self.wire_fields()
    }

    open spec fn payload_normal(j: JsonModel) -> Result<Fields, Failure> {
        normal_tagged(Family::Link, j)
    }

    fn read_payload(j: &Json) -> (r: Result<TaggedLink, CodecError>) {
        proof {
            assert(normal_plain(Plain::Tagged(Family::Link), j@) == match normal_tagged(
                Family::Link,
                j@,
            ) {
                Ok(fields) => Normal::Ok(JsonModel::Object(fields)),
                Err(e) => Err(e),
            });
        }
        match TaggedLink::decode(j) {
            Ok(value) => Ok(value),
            Err(e) => Err(e),
        }
    }

    fn write_payload(&self, out: &mut Vec<(String, Json)>) {
        self.encode_into(out)
    }
}

/// Any object of the vocabulary, told apart by its discriminator.
#[derive(Debug, PartialEq)]
pub enum TaggedObject {
    Object(Object),
    Activity(Activity),
    Collection(Collection),
    OrderedCollection(OrderedCollection),
    CollectionPage(CollectionPage),
    OrderedCollectionPage(OrderedCollectionPage),
    Accept(Accept),
    TentativeAccept(TentativeAccept),
    Add(Add),
    Arrive(Arrive),
    Create(Create),
    Delete(Delete),
    Follow(Follow),
    Ignore(Ignore),
    Join(Join),
    Leave(Leave),
    Like(Like),
    Offer(Offer),
    Invite(Invite),
    Reject(Reject),
    TentativeReject(TentativeReject),
    Remove(Remove),
    Undo(Undo),
    Update(Update),
    View(View),
    Listen(Listen),
    Read(Read),
    Move(Move),
    Travel(Travel),
    Announce(Announce),
    Block(Block),
    Flag(Flag),
    Dislike(Dislike),
    Question(Question),
    Application(Application),
    Group(Group),
    Organization(Organization),
    Person(Person),
    Service(Service),
    Relationship(Relationship),
    Article(Article),
    Document(Document),
    Audio(Audio),
    Image(Image),
    Video(Video),
    Note(Note),
    Page(Page),
    Event(Event),
    Place(Place),
    Mention(Mention),
    Profile(Profile),
    Tombstone(Tombstone),
}

impl TaggedObject {
    /// The discriminator of the variant.
    pub open spec fn tag_model(&self) -> Seq<char> {
        match self {
            TaggedObject::Object(_) => "Object"@,
            TaggedObject::Activity(_) => "Activity"@,
            TaggedObject::Collection(_) => "Collection"@,
            TaggedObject::OrderedCollection(_) => "OrderedCollection"@,
            TaggedObject::CollectionPage(_) => "CollectionPage"@,
            TaggedObject::OrderedCollectionPage(_) => "OrderedCollectionPage"@,
            TaggedObject::Accept(_) => "Accept"@,
            TaggedObject::TentativeAccept(_) => "TentativeAccept"@,
            TaggedObject::Add(_) => "Add"@,
            TaggedObject::Arrive(_) => "Arrive"@,
            TaggedObject::Create(_) => "Create"@,
            TaggedObject::Delete(_) => "Delete"@,
            TaggedObject::Follow(_) => "Follow"@,
            TaggedObject::Ignore(_) => "Ignore"@,
            TaggedObject::Join(_) => "Join"@,
            TaggedObject::Leave(_) => "Leave"@,
            TaggedObject::Like(_) => "Like"@,
            TaggedObject::Offer(_) => "Offer"@,
            TaggedObject::Invite(_) => "Invite"@,
            TaggedObject::Reject(_) => "Reject"@,
            TaggedObject::TentativeReject(_) => "TentativeReject"@,
            TaggedObject::Remove(_) => "Remove"@,
            TaggedObject::Undo(_) => "Undo"@,
            TaggedObject::Update(_) => "Update"@,
            TaggedObject::View(_) => "View"@,
            TaggedObject::Listen(_) => "Listen"@,
            TaggedObject::Read(_) => "Read"@,
            TaggedObject::Move(_) => "Move"@,
            TaggedObject::Travel(_) => "Travel"@,
            TaggedObject::Announce(_) => "Announce"@,
            TaggedObject::Block(_) => "Block"@,
            TaggedObject::Flag(_) => "Flag"@,
            TaggedObject::Dislike(_) => "Dislike"@,
            TaggedObject::Question(_) => "Question"@,
            TaggedObject::Application(_) => "Application"@,
            TaggedObject::Group(_) => "Group"@,
            TaggedObject::Organization(_) => "Organization"@,
            TaggedObject::Person(_) => "Person"@,
            TaggedObject::Service(_) => "Service"@,
            TaggedObject::Relationship(_) => "Relationship"@,
            TaggedObject::Article(_) => "Article"@,
            TaggedObject::Document(_) => "Document"@,
            TaggedObject::Audio(_) => "Audio"@,
            TaggedObject::Image(_) => "Image"@,
            TaggedObject::Video(_) => "Video"@,
            TaggedObject::Note(_) => "Note"@,
            TaggedObject::Page(_) => "Page"@,
            TaggedObject::Event(_) => "Event"@,
            TaggedObject::Place(_) => "Place"@,
            TaggedObject::Mention(_) => "Mention"@,
            TaggedObject::Profile(_) => "Profile"@,
            TaggedObject::Tombstone(_) => "Tombstone"@,
        }
    }

    /// The fields that the value is written as: the discriminator first, then
    /// the fields of the variant.
    #[verifier::opaque]
    pub open spec fn wire_fields(&self) -> Fields
        decreases self, 3nat,
    {
        match self {
            TaggedObject::Object(v) => tagged_fields("Object"@, v.wire_fields()),
            TaggedObject::Activity(v) => tagged_fields("Activity"@, v.wire_fields()),
            TaggedObject::Collection(v) => tagged_fields("Collection"@, v.wire_fields()),
            TaggedObject::OrderedCollection(v) => tagged_fields(
                "OrderedCollection"@,
                v.wire_fields(),
            ),
            TaggedObject::CollectionPage(v) => tagged_fields("CollectionPage"@, v.wire_fields()),
            TaggedObject::OrderedCollectionPage(v) => tagged_fields(
                "OrderedCollectionPage"@,
                v.wire_fields(),
            ),
            TaggedObject::Accept(v) => tagged_fields("Accept"@, v.wire_fields()),
            TaggedObject::TentativeAccept(v) => tagged_fields("TentativeAccept"@, v.wire_fields()),
            TaggedObject::Add(v) => tagged_fields("Add"@, v.wire_fields()),
            TaggedObject::Arrive(v) => tagged_fields("Arrive"@, v.wire_fields()),
            TaggedObject::Create(v) => tagged_fields("Create"@, v.wire_fields()),
            TaggedObject::Delete(v) => tagged_fields("Delete"@, v.wire_fields()),
            TaggedObject::Follow(v) => tagged_fields("Follow"@, v.wire_fields()),
            TaggedObject::Ignore(v) => tagged_fields("Ignore"@, v.wire_fields()),
            TaggedObject::Join(v) => tagged_fields("Join"@, v.wire_fields()),
            TaggedObject::Leave(v) => tagged_fields("Leave"@, v.wire_fields()),
            TaggedObject::Like(v) => tagged_fields("Like"@, v.wire_fields()),
            TaggedObject::Offer(v) => tagged_fields("Offer"@, v.wire_fields()),
            TaggedObject::Invite(v) => tagged_fields("Invite"@, v.wire_fields()),
            TaggedObject::Reject(v) => tagged_fields("Reject"@, v.wire_fields()),
            TaggedObject::TentativeReject(v) => tagged_fields("TentativeReject"@, v.wire_fields()),
            TaggedObject::Remove(v) => tagged_fields("Remove"@, v.wire_fields()),
            TaggedObject::Undo(v) => tagged_fields("Undo"@, v.wire_fields()),
            TaggedObject::Update(v) => tagged_fields("Update"@, v.wire_fields()),
            TaggedObject::View(v) => tagged_fields("View"@, v.wire_fields()),
            TaggedObject::Listen(v) => tagged_fields("Listen"@, v.wire_fields()),
            TaggedObject::Read(v) => tagged_fields("Read"@, v.wire_fields()),
            TaggedObject::Move(v) => tagged_fields("Move"@, v.wire_fields()),
            TaggedObject::Travel(v) => tagged_fields("Travel"@, v.wire_fields()),
            TaggedObject::Announce(v) => tagged_fields("Announce"@, v.wire_fields()),
            TaggedObject::Block(v) => tagged_fields("Block"@, v.wire_fields()),
            TaggedObject::Flag(v) => tagged_fields("Flag"@, v.wire_fields()),
            TaggedObject::Dislike(v) => tagged_fields("Dislike"@, v.wire_fields()),
            TaggedObject::Question(v) => tagged_fields("Question"@, v.wire_fields()),
            TaggedObject::Application(v) => tagged_fields("Application"@, v.wire_fields()),
            TaggedObject::Group(v) => tagged_fields("Group"@, v.wire_fields()),
            TaggedObject::Organization(v) => tagged_fields("Organization"@, v.wire_fields()),
            TaggedObject::Person(v) => tagged_fields("Person"@, v.wire_fields()),
            TaggedObject::Service(v) => tagged_fields("Service"@, v.wire_fields()),
            TaggedObject::Relationship(v) => tagged_fields("Relationship"@, v.wire_fields()),
            TaggedObject::Article(v) => tagged_fields("Article"@, v.wire_fields()),
            TaggedObject::Document(v) => tagged_fields("Document"@, v.wire_fields()),
            TaggedObject::Audio(v) => tagged_fields("Audio"@, v.wire_fields()),
            TaggedObject::Image(v) => tagged_fields("Image"@, v.wire_fields()),
            TaggedObject::Video(v) => tagged_fields("Video"@, v.wire_fields()),
            TaggedObject::Note(v) => tagged_fields("Note"@, v.wire_fields()),
            TaggedObject::Page(v) => tagged_fields("Page"@, v.wire_fields()),
            TaggedObject::Event(v) => tagged_fields("Event"@, v.wire_fields()),
            TaggedObject::Place(v) => tagged_fields("Place"@, v.wire_fields()),
            TaggedObject::Mention(v) => tagged_fields("Mention"@, v.wire_fields()),
            TaggedObject::Profile(v) => tagged_fields("Profile"@, v.wire_fields()),
            TaggedObject::Tombstone(v) => tagged_fields("Tombstone"@, v.wire_fields()),
        }
    }

    /// The document that the value is written as.
    pub open spec fn wire(&self) -> JsonModel {
        JsonModel::Object(self.wire_fields())
    }

    /// The discriminator of the variant.
    pub fn tag(&self) -> (r: &'static str)
        ensures
            r@ == self.tag_model(),
    {
        match self {
            TaggedObject::Object(_) => "Object",
            TaggedObject::Activity(_) => "Activity",
            TaggedObject::Collection(_) => "Collection",
            TaggedObject::OrderedCollection(_) => "OrderedCollection",
            TaggedObject::CollectionPage(_) => "CollectionPage",
            TaggedObject::OrderedCollectionPage(_) => "OrderedCollectionPage",
            TaggedObject::Accept(_) => "Accept",
            TaggedObject::TentativeAccept(_) => "TentativeAccept",
            TaggedObject::Add(_) => "Add",
            TaggedObject::Arrive(_) => "Arrive",
            TaggedObject::Create(_) => "Create",
            TaggedObject::Delete(_) => "Delete",
            TaggedObject::Follow(_) => "Follow",
            TaggedObject::Ignore(_) => "Ignore",
            TaggedObject::Join(_) => "Join",
            TaggedObject::Leave(_) => "Leave",
            TaggedObject::Like(_) => "Like",
            TaggedObject::Offer(_) => "Offer",
            TaggedObject::Invite(_) => "Invite",
            TaggedObject::Reject(_) => "Reject",
            TaggedObject::TentativeReject(_) => "TentativeReject",
            TaggedObject::Remove(_) => "Remove",
            TaggedObject::Undo(_) => "Undo",
            TaggedObject::Update(_) => "Update",
            TaggedObject::View(_) => "View",
            TaggedObject::Listen(_) => "Listen",
            TaggedObject::Read(_) => "Read",
            TaggedObject::Move(_) => "Move",
            TaggedObject::Travel(_) => "Travel",
            TaggedObject::Announce(_) => "Announce",
            TaggedObject::Block(_) => "Block",
            TaggedObject::Flag(_) => "Flag",
            TaggedObject::Dislike(_) => "Dislike",
            TaggedObject::Question(_) => "Question",
            TaggedObject::Application(_) => "Application",
            TaggedObject::Group(_) => "Group",
            TaggedObject::Organization(_) => "Organization",
            TaggedObject::Person(_) => "Person",
            TaggedObject::Service(_) => "Service",
            TaggedObject::Relationship(_) => "Relationship",
            TaggedObject::Article(_) => "Article",
            TaggedObject::Document(_) => "Document",
            TaggedObject::Audio(_) => "Audio",
            TaggedObject::Image(_) => "Image",
            TaggedObject::Video(_) => "Video",
            TaggedObject::Note(_) => "Note",
            TaggedObject::Page(_) => "Page",
            TaggedObject::Event(_) => "Event",
            TaggedObject::Place(_) => "Place",
            TaggedObject::Mention(_) => "Mention",
            TaggedObject::Profile(_) => "Profile",
            TaggedObject::Tombstone(_) => "Tombstone",
        }
    }

    /// The value is written flat: under the discriminator and then under the
    /// keys of the layout that the discriminator selects.
    pub proof fn law_written_flat(&self)
        ensures
            layout_of(Family::Object, self.tag_model()) matches Some(layout) && field_keys(
                self.wire_fields(),
            ) == seq![type_key()] + layout_keys(layout),
    {
        reveal(TaggedObject::wire_fields);
        lemma_tag_signatures();
        match self {
            TaggedObject::Object(v) => {
                v.law_written_flat();
                lemma_keys_appended(discriminator("Object"@), v.wire_fields());
                assert(field_keys(discriminator("Object"@)) =~= seq![type_key()]);
            },
            TaggedObject::Activity(v) => {
                v.law_written_flat();
                lemma_keys_appended(discriminator("Activity"@), v.wire_fields());
                assert(field_keys(discriminator("Activity"@)) =~= seq![type_key()]);
            },
            TaggedObject::Collection(v) => {
                v.law_written_flat();
                lemma_keys_appended(discriminator("Collection"@), v.wire_fields());
                assert(field_keys(discriminator("Collection"@)) =~= seq![type_key()]);
            },
            TaggedObject::OrderedCollection(v) => {
                v.law_written_flat();
                lemma_keys_appended(discriminator("OrderedCollection"@), v.wire_fields());
                assert(field_keys(discriminator("OrderedCollection"@)) =~= seq![type_key()]);
            },
            TaggedObject::CollectionPage(v) => {
                v.law_written_flat();
                lemma_keys_appended(discriminator("CollectionPage"@), v.wire_fields());
                assert(field_keys(discriminator("CollectionPage"@)) =~= seq![type_key()]);
            },
            TaggedObject::OrderedCollectionPage(v) => {
                v.law_written_flat();
                lemma_keys_appended(discriminator("OrderedCollectionPage"@), v.wire_fields());
                assert(field_keys(discriminator("OrderedCollectionPage"@)) =~= seq![type_key()]);
            },
            TaggedObject::Accept(v) => {
                v.law_written_flat();
                lemma_keys_appended(discriminator("Accept"@), v.wire_fields());
                assert(field_keys(discriminator("Accept"@)) =~= seq![type_key()]);
            },
            TaggedObject::TentativeAccept(v) => {
                v.law_written_flat();
                lemma_keys_appended(discriminator("TentativeAccept"@), v.wire_fields());
                assert(field_keys(discriminator("TentativeAccept"@)) =~= seq![type_key()]);
            },
            TaggedObject::Add(v) => {
                v.law_written_flat();
                lemma_keys_appended(discriminator("Add"@), v.wire_fields());
                assert(field_keys(discriminator("Add"@)) =~= seq![type_key()]);
            },
            TaggedObject::Arrive(v) => {
                v.law_written_flat();
                lemma_keys_appended(discriminator("Arrive"@), v.wire_fields());
                assert(field_keys(discriminator("Arrive"@)) =~= seq![type_key()]);
            },
            TaggedObject::Create(v) => {
                v.law_written_flat();
                lemma_keys_appended(discriminator("Create"@), v.wire_fields());
                assert(field_keys(discriminator("Create"@)) =~= seq![type_key()]);
            },
            TaggedObject::Delete(v) => {
                v.law_written_flat();
                lemma_keys_appended(discriminator("Delete"@), v.wire_fields());
                assert(field_keys(discriminator("Delete"@)) =~= seq![type_key()]);
            },
            TaggedObject::Follow(v) => {
                v.law_written_flat();
                lemma_keys_appended(discriminator("Follow"@), v.wire_fields());
                assert(field_keys(discriminator("Follow"@)) =~= seq![type_key()]);
            },
            TaggedObject::Ignore(v) => {
                v.law_written_flat();
                lemma_keys_appended(discriminator("Ignore"@), v.wire_fields());
                assert(field_keys(discriminator("Ignore"@)) =~= seq![type_key()]);
            },
            TaggedObject::Join(v) => {
                v.law_written_flat();
                lemma_keys_appended(discriminator("Join"@), v.wire_fields());
                assert(field_keys(discriminator("Join"@)) =~= seq![type_key()]);
            },
            TaggedObject::Leave(v) => {
                v.law_written_flat();
                lemma_keys_appended(discriminator("Leave"@), v.wire_fields());
                assert(field_keys(discriminator("Leave"@)) =~= seq![type_key()]);
            },
            TaggedObject::Like(v) => {
                v.law_written_flat();
                lemma_keys_appended(discriminator("Like"@), v.wire_fields());
                assert(field_keys(discriminator("Like"@)) =~= seq![type_key()]);
            },
            TaggedObject::Offer(v) => {
                v.law_written_flat();
                lemma_keys_appended(discriminator("Offer"@), v.wire_fields());
                assert(field_keys(discriminator("Offer"@)) =~= seq![type_key()]);
            },
            TaggedObject::Invite(v) => {
                v.law_written_flat();
                lemma_keys_appended(discriminator("Invite"@), v.wire_fields());
                assert(field_keys(discriminator("Invite"@)) =~= seq![type_key()]);
            },
            TaggedObject::Reject(v) => {
                v.law_written_flat();
                lemma_keys_appended(discriminator("Reject"@), v.wire_fields());
                assert(field_keys(discriminator("Reject"@)) =~= seq![type_key()]);
            },
            TaggedObject::TentativeReject(v) => {
                v.law_written_flat();
                lemma_keys_appended(discriminator("TentativeReject"@), v.wire_fields());
                assert(field_keys(discriminator("TentativeReject"@)) =~= seq![type_key()]);
            },
            TaggedObject::Remove(v) => {
                v.law_written_flat();
                lemma_keys_appended(discriminator("Remove"@), v.wire_fields());
                assert(field_keys(discriminator("Remove"@)) =~= seq![type_key()]);
            },
            TaggedObject::Undo(v) => {
                v.law_written_flat();
                lemma_keys_appended(discriminator("Undo"@), v.wire_fields());
                assert(field_keys(discriminator("Undo"@)) =~= seq![type_key()]);
            },
            TaggedObject::Update(v) => {
                v.law_written_flat();
                lemma_keys_appended(discriminator("Update"@), v.wire_fields());
                assert(field_keys(discriminator("Update"@)) =~= seq![type_key()]);
            },
            TaggedObject::View(v) => {
                v.law_written_flat();
                lemma_keys_appended(discriminator("View"@), v.wire_fields());
                assert(field_keys(discriminator("View"@)) =~= seq![type_key()]);
            },
            TaggedObject::Listen(v) => {
                v.law_written_flat();
                lemma_keys_appended(discriminator("Listen"@), v.wire_fields());
                assert(field_keys(discriminator("Listen"@)) =~= seq![type_key()]);
            },
            TaggedObject::Read(v) => {
                v.law_written_flat();
                lemma_keys_appended(discriminator("Read"@), v.wire_fields());
                assert(field_keys(discriminator("Read"@)) =~= seq![type_key()]);
            },
            TaggedObject::Move(v) => {
                v.law_written_flat();
                lemma_keys_appended(discriminator("Move"@), v.wire_fields());
                assert(field_keys(discriminator("Move"@)) =~= seq![type_key()]);
            },
            TaggedObject::Travel(v) => {
                v.law_written_flat();
                lemma_keys_appended(discriminator("Travel"@), v.wire_fields());
                assert(field_keys(discriminator("Travel"@)) =~= seq![type_key()]);
            },
            TaggedObject::Announce(v) => {
                v.law_written_flat();
                lemma_keys_appended(discriminator("Announce"@), v.wire_fields());
                assert(field_keys(discriminator("Announce"@)) =~= seq![type_key()]);
            },
            TaggedObject::Block(v) => {
                v.law_written_flat();
                lemma_keys_appended(discriminator("Block"@), v.wire_fields());
                assert(field_keys(discriminator("Block"@)) =~= seq![type_key()]);
            },
            TaggedObject::Flag(v) => {
                v.law_written_flat();
                lemma_keys_appended(discriminator("Flag"@), v.wire_fields());
                assert(field_keys(discriminator("Flag"@)) =~= seq![type_key()]);
            },
            TaggedObject::Dislike(v) => {
                v.law_written_flat();
                lemma_keys_appended(discriminator("Dislike"@), v.wire_fields());
                assert(field_keys(discriminator("Dislike"@)) =~= seq![type_key()]);
            },
            TaggedObject::Question(v) => {
                v.law_written_flat();
                lemma_keys_appended(discriminator("Question"@), v.wire_fields());
                assert(field_keys(discriminator("Question"@)) =~= seq![type_key()]);
            },
            TaggedObject::Application(v) => {
                v.law_written_flat();
                lemma_keys_appended(discriminator("Application"@), v.wire_fields());
                assert(field_keys(discriminator("Application"@)) =~= seq![type_key()]);
            },
            TaggedObject::Group(v) => {
                v.law_written_flat();
                lemma_keys_appended(discriminator("Group"@), v.wire_fields());
                assert(field_keys(discriminator("Group"@)) =~= seq![type_key()]);
            },
            TaggedObject::Organization(v) => {
                v.law_written_flat();
                lemma_keys_appended(discriminator("Organization"@), v.wire_fields());
                assert(field_keys(discriminator("Organization"@)) =~= seq![type_key()]);
            },
            TaggedObject::Person(v) => {
                v.law_written_flat();
                lemma_keys_appended(discriminator("Person"@), v.wire_fields());
                assert(field_keys(discriminator("Person"@)) =~= seq![type_key()]);
            },
            TaggedObject::Service(v) => {
                v.law_written_flat();
                lemma_keys_appended(discriminator("Service"@), v.wire_fields());
                assert(field_keys(discriminator("Service"@)) =~= seq![type_key()]);
            },
            TaggedObject::Relationship(v) => {
                v.law_written_flat();
                lemma_keys_appended(discriminator("Relationship"@), v.wire_fields());
                assert(field_keys(discriminator("Relationship"@)) =~= seq![type_key()]);
            },
            TaggedObject::Article(v) => {
                v.law_written_flat();
                lemma_keys_appended(discriminator("Article"@), v.wire_fields());
                assert(field_keys(discriminator("Article"@)) =~= seq![type_key()]);
            },
            TaggedObject::Document(v) => {
                v.law_written_flat();
                lemma_keys_appended(discriminator("Document"@), v.wire_fields());
                assert(field_keys(discriminator("Document"@)) =~= seq![type_key()]);
            },
            TaggedObject::Audio(v) => {
                v.law_written_flat();
                lemma_keys_appended(discriminator("Audio"@), v.wire_fields());
                assert(field_keys(discriminator("Audio"@)) =~= seq![type_key()]);
            },
            TaggedObject::Image(v) => {
                v.law_written_flat();
                lemma_keys_appended(discriminator("Image"@), v.wire_fields());
                assert(field_keys(discriminator("Image"@)) =~= seq![type_key()]);
            },
            TaggedObject::Video(v) => {
                v.law_written_flat();
                lemma_keys_appended(discriminator("Video"@), v.wire_fields());
                assert(field_keys(discriminator("Video"@)) =~= seq![type_key()]);
            },
            TaggedObject::Note(v) => {
                v.law_written_flat();
                lemma_keys_appended(discriminator("Note"@), v.wire_fields());
                assert(field_keys(discriminator("Note"@)) =~= seq![type_key()]);
            },
            TaggedObject::Page(v) => {
                v.law_written_flat();
                lemma_keys_appended(discriminator("Page"@), v.wire_fields());
                assert(field_keys(discriminator("Page"@)) =~= seq![type_key()]);
            },
            TaggedObject::Event(v) => {
                v.law_written_flat();
                lemma_keys_appended(discriminator("Event"@), v.wire_fields());
                assert(field_keys(discriminator("Event"@)) =~= seq![type_key()]);
            },
            TaggedObject::Place(v) => {
                v.law_written_flat();
                lemma_keys_appended(discriminator("Place"@), v.wire_fields());
                assert(field_keys(discriminator("Place"@)) =~= seq![type_key()]);
            },
            TaggedObject::Mention(v) => {
                v.law_written_flat();
                lemma_keys_appended(discriminator("Mention"@), v.wire_fields());
                assert(field_keys(discriminator("Mention"@)) =~= seq![type_key()]);
            },
            TaggedObject::Profile(v) => {
                v.law_written_flat();
                lemma_keys_appended(discriminator("Profile"@), v.wire_fields());
                assert(field_keys(discriminator("Profile"@)) =~= seq![type_key()]);
            },
            TaggedObject::Tombstone(v) => {
                v.law_written_flat();
                lemma_keys_appended(discriminator("Tombstone"@), v.wire_fields());
                assert(field_keys(discriminator("Tombstone"@)) =~= seq![type_key()]);
            },
        }
    }

    /// Reads the variant that the discriminator names. A document without a
    /// discriminator and one with a discriminator that the family does not know
    /// are refused.
    pub fn decode(j: &Json) -> (r: Result<TaggedObject, CodecError>)
        ensures
            match r {
                Ok(value) => normal_plain(Plain::Tagged(Family::Object), j@) == Normal::Ok(
                    value.wire(),
                ),
                Err(e) => normal_plain(Plain::Tagged(Family::Object), j@) == Normal::Err(e@),
            },
        decreases j@, 3nat, 0nat,
    {
        proof {
            reveal(TaggedObject::wire_fields);
        }
        match j {
            Json::Object(_) => {},
            _ => {
                return Err(CodecError::at_root(ErrorKind::FieldTypeMismatch));
            },
        }
        let tag = match j.get("type") {
            Some(Json::Text(tag)) => tag,
            Some(_) => {
                return Err(CodecError::at_root(ErrorKind::FieldTypeMismatch).within("type"));
            },
            None => {
                return Err(CodecError::at_root(ErrorKind::MissingDiscriminator));
            },
        };
        if same(tag.as_str(), "Object") {
            match Object::decode(j) {
                Ok(v) => Ok(TaggedObject::Object(v)),
                Err(e) => Err(e),
            }
        } else if same(tag.as_str(), "Activity") {
            match Activity::decode(j) {
                Ok(v) => Ok(TaggedObject::Activity(v)),
                Err(e) => Err(e),
            }
        } else if same(tag.as_str(), "Collection") {
            match Collection::decode(j) {
                Ok(v) => Ok(TaggedObject::Collection(v)),
                Err(e) => Err(e),
            }
        } else if same(tag.as_str(), "OrderedCollection") {
            match OrderedCollection::decode(j) {
                Ok(v) => Ok(TaggedObject::OrderedCollection(v)),
                Err(e) => Err(e),
            }
        } else if same(tag.as_str(), "CollectionPage") {
            match CollectionPage::decode(j) {
                Ok(v) => Ok(TaggedObject::CollectionPage(v)),
                Err(e) => Err(e),
            }
        } else if same(tag.as_str(), "OrderedCollectionPage") {
            match OrderedCollectionPage::decode(j) {
                Ok(v) => Ok(TaggedObject::OrderedCollectionPage(v)),
                Err(e) => Err(e),
            }
        } else if same(tag.as_str(), "Accept") {
            match Accept::decode(j) {
                Ok(v) => Ok(TaggedObject::Accept(v)),
                Err(e) => Err(e),
            }
        } else if same(tag.as_str(), "TentativeAccept") {
            match TentativeAccept::decode(j) {
                Ok(v) => Ok(TaggedObject::TentativeAccept(v)),
                Err(e) => Err(e),
            }
        } else if same(tag.as_str(), "Add") {
            match Add::decode(j) {
                Ok(v) => Ok(TaggedObject::Add(v)),
                Err(e) => Err(e),
            }
        } else if same(tag.as_str(), "Arrive") {
            match Arrive::decode(j) {
                Ok(v) => Ok(TaggedObject::Arrive(v)),
                Err(e) => Err(e),
            }
        } else if same(tag.as_str(), "Create") {
            match Create::decode(j) {
                Ok(v) => Ok(TaggedObject::Create(v)),
                Err(e) => Err(e),
            }
        } else if same(tag.as_str(), "Delete") {
            match Delete::decode(j) {
                Ok(v) => Ok(TaggedObject::Delete(v)),
                Err(e) => Err(e),
            }
        } else if same(tag.as_str(), "Follow") {
            match Follow::decode(j) {
                Ok(v) => Ok(TaggedObject::Follow(v)),
                Err(e) => Err(e),
            }
        } else if same(tag.as_str(), "Ignore") {
            match Ignore::decode(j) {
                Ok(v) => Ok(TaggedObject::Ignore(v)),
                Err(e) => Err(e),
            }
        } else if same(tag.as_str(), "Join") {
            match Join::decode(j) {
                Ok(v) => Ok(TaggedObject::Join(v)),
                Err(e) => Err(e),
            }
        } else if same(tag.as_str(), "Leave") {
            match Leave::decode(j) {
                Ok(v) => Ok(TaggedObject::Leave(v)),
                Err(e) => Err(e),
            }
        } else if same(tag.as_str(), "Like") {
            match Like::decode(j) {
                Ok(v) => Ok(TaggedObject::Like(v)),
                Err(e) => Err(e),
            }
        } else if same(tag.as_str(), "Offer") {
            match Offer::decode(j) {
                Ok(v) => Ok(TaggedObject::Offer(v)),
                Err(e) => Err(e),
            }
        } else if same(tag.as_str(), "Invite") {
            match Invite::decode(j) {
                Ok(v) => Ok(TaggedObject::Invite(v)),
                Err(e) => Err(e),
            }
        } else if same(tag.as_str(), "Reject") {
            match Reject::decode(j) {
                Ok(v) => Ok(TaggedObject::Reject(v)),
                Err(e) => Err(e),
            }
        } else if same(tag.as_str(), "TentativeReject") {
            match TentativeReject::decode(j) {
                Ok(v) => Ok(TaggedObject::TentativeReject(v)),
                Err(e) => Err(e),
            }
        } else if same(tag.as_str(), "Remove") {
            match Remove::decode(j) {
                Ok(v) => Ok(TaggedObject::Remove(v)),
                Err(e) => Err(e),
            }
        } else if same(tag.as_str(), "Undo") {
            match Undo::decode(j) {
                Ok(v) => Ok(TaggedObject::Undo(v)),
                Err(e) => Err(e),
            }
        } else if same(tag.as_str(), "Update") {
            match Update::decode(j) {
                Ok(v) => Ok(TaggedObject::Update(v)),
                Err(e) => Err(e),
            }
        } else if same(tag.as_str(), "View") {
            match View::decode(j) {
                Ok(v) => Ok(TaggedObject::View(v)),
                Err(e) => Err(e),
            }
        } else if same(tag.as_str(), "Listen") {
            match Listen::decode(j) {
                Ok(v) => Ok(TaggedObject::Listen(v)),
                Err(e) => Err(e),
            }
        } else if same(tag.as_str(), "Read") {
            match Read::decode(j) {
                Ok(v) => Ok(TaggedObject::Read(v)),
                Err(e) => Err(e),
            }
        } else if same(tag.as_str(), "Move") {
            match Move::decode(j) {
                Ok(v) => Ok(TaggedObject::Move(v)),
                Err(e) => Err(e),
            }
        } else if same(tag.as_str(), "Travel") {
            match Travel::decode(j) {
                Ok(v) => Ok(TaggedObject::Travel(v)),
                Err(e) => Err(e),
            }
        } else if same(tag.as_str(), "Announce") {
            match Announce::decode(j) {
                Ok(v) => Ok(TaggedObject::Announce(v)),
                Err(e) => Err(e),
            }
        } else if same(tag.as_str(), "Block") {
            match Block::decode(j) {
                Ok(v) => Ok(TaggedObject::Block(v)),
                Err(e) => Err(e),
            }
        } else if same(tag.as_str(), "Flag") {
            match Flag::decode(j) {
                Ok(v) => Ok(TaggedObject::Flag(v)),
                Err(e) => Err(e),
            }
        } else if same(tag.as_str(), "Dislike") {
            match Dislike::decode(j) {
                Ok(v) => Ok(TaggedObject::Dislike(v)),
                Err(e) => Err(e),
            }
        } else if same(tag.as_str(), "Question") {
            match Question::decode(j) {
                Ok(v) => Ok(TaggedObject::Question(v)),
                Err(e) => Err(e),
            }
        } else if same(tag.as_str(), "Application") {
            match Application::decode(j) {
                Ok(v) => Ok(TaggedObject::Application(v)),
                Err(e) => Err(e),
            }
        } else if same(tag.as_str(), "Group") {
            match Group::decode(j) {
                Ok(v) => Ok(TaggedObject::Group(v)),
                Err(e) => Err(e),
            }
        } else if same(tag.as_str(), "Organization") {
            match Organization::decode(j) {
                Ok(v) => Ok(TaggedObject::Organization(v)),
                Err(e) => Err(e),
            }
        } else if same(tag.as_str(), "Person") {
            match Person::decode(j) {
                Ok(v) => Ok(TaggedObject::Person(v)),
                Err(e) => Err(e),
            }
        } else if same(tag.as_str(), "Service") {
            match Service::decode(j) {
                Ok(v) => Ok(TaggedObject::Service(v)),
                Err(e) => Err(e),
            }
        } else if same(tag.as_str(), "Relationship") {
            match Relationship::decode(j) {
                Ok(v) => Ok(TaggedObject::Relationship(v)),
                Err(e) => Err(e),
            }
        } else if same(tag.as_str(), "Article") {
            match Article::decode(j) {
                Ok(v) => Ok(TaggedObject::Article(v)),
                Err(e) => Err(e),
            }
        } else if same(tag.as_str(), "Document") {
            match Document::decode(j) {
                Ok(v) => Ok(TaggedObject::Document(v)),
                Err(e) => Err(e),
            }
        } else if same(tag.as_str(), "Audio") {
            match Audio::decode(j) {
                Ok(v) => Ok(TaggedObject::Audio(v)),
                Err(e) => Err(e),
            }
        } else if same(tag.as_str(), "Image") {
            match Image::decode(j) {
                Ok(v) => Ok(TaggedObject::Image(v)),
                Err(e) => Err(e),
            }
        } else if same(tag.as_str(), "Video") {
            match Video::decode(j) {
                Ok(v) => Ok(TaggedObject::Video(v)),
                Err(e) => Err(e),
            }
        } else if same(tag.as_str(), "Note") {
            match Note::decode(j) {
                Ok(v) => Ok(TaggedObject::Note(v)),
                Err(e) => Err(e),
            }
        } else if same(tag.as_str(), "Page") {
            match Page::decode(j) {
                Ok(v) => Ok(TaggedObject::Page(v)),
                Err(e) => Err(e),
            }
        } else if same(tag.as_str(), "Event") {
            match Event::decode(j) {
                Ok(v) => Ok(TaggedObject::Event(v)),
                Err(e) => Err(e),
            }
        } else if same(tag.as_str(), "Place") {
            match Place::decode(j) {
                Ok(v) => Ok(TaggedObject::Place(v)),
                Err(e) => Err(e),
            }
        } else if same(tag.as_str(), "Mention") {
            match Mention::decode(j) {
                Ok(v) => Ok(TaggedObject::Mention(v)),
                Err(e) => Err(e),
            }
        } else if same(tag.as_str(), "Profile") {
            match Profile::decode(j) {
                Ok(v) => Ok(TaggedObject::Profile(v)),
                Err(e) => Err(e),
            }
        } else if same(tag.as_str(), "Tombstone") {
            match Tombstone::decode(j) {
                Ok(v) => Ok(TaggedObject::Tombstone(v)),
                Err(e) => Err(e),
            }
        } else {
            Err(CodecError::at_root(ErrorKind::UnknownVariant(tag.clone())))
        }
    }

    /// Appends the discriminator and the fields of the variant to the fields
    /// of an object.
    pub fn encode_into(&self, out: &mut Vec<(String, Json)>)
        ensures
            fields_model(final(out)@) == fields_model(old(out)@) + self.wire_fields(),
        decreases self,
    {
        proof {
            reveal(TaggedObject::wire_fields);
        }
        let ghost start = fields_model(out@);
        push_field(out, "type", encode_text_slice(self.tag()));
        proof {
            lemma_nothing_added(start);
            lemma_added(start, Seq::empty(), type_key(), JsonModel::Text(self.tag_model()));
        }
        match self {
            TaggedObject::Object(v) => {
                v.encode_into(out);
                proof {
                    lemma_appended(start, discriminator("Object"@), v.wire_fields());
                }
            },
            TaggedObject::Activity(v) => {
                v.encode_into(out);
                proof {
                    lemma_appended(start, discriminator("Activity"@), v.wire_fields());
                }
            },
            TaggedObject::Collection(v) => {
                v.encode_into(out);
                proof {
                    lemma_appended(start, discriminator("Collection"@), v.wire_fields());
                }
            },
            TaggedObject::OrderedCollection(v) => {
                v.encode_into(out);
                proof {
                    lemma_appended(start, discriminator("OrderedCollection"@), v.wire_fields());
                }
            },
            TaggedObject::CollectionPage(v) => {
                v.encode_into(out);
                proof {
                    lemma_appended(start, discriminator("CollectionPage"@), v.wire_fields());
                }
            },
            TaggedObject::OrderedCollectionPage(v) => {
                v.encode_into(out);
                proof {
                    lemma_appended(start, discriminator("OrderedCollectionPage"@), v.wire_fields());
                }
            },
            TaggedObject::Accept(v) => {
                v.encode_into(out);
                proof {
                    lemma_appended(start, discriminator("Accept"@), v.wire_fields());
                }
            },
            TaggedObject::TentativeAccept(v) => {
                v.encode_into(out);
                proof {
                    lemma_appended(start, discriminator("TentativeAccept"@), v.wire_fields());
                }
            },
            TaggedObject::Add(v) => {
                v.encode_into(out);
                proof {
                    lemma_appended(start, discriminator("Add"@), v.wire_fields());
                }
            },
            TaggedObject::Arrive(v) => {
                v.encode_into(out);
                proof {
                    lemma_appended(start, discriminator("Arrive"@), v.wire_fields());
                }
            },
            TaggedObject::Create(v) => {
                v.encode_into(out);
                proof {
                    lemma_appended(start, discriminator("Create"@), v.wire_fields());
                }
            },
            TaggedObject::Delete(v) => {
                v.encode_into(out);
                proof {
                    lemma_appended(start, discriminator("Delete"@), v.wire_fields());
                }
            },
            TaggedObject::Follow(v) => {
                v.encode_into(out);
                proof {
                    lemma_appended(start, discriminator("Follow"@), v.wire_fields());
                }
            },
            TaggedObject::Ignore(v) => {
                v.encode_into(out);
                proof {
                    lemma_appended(start, discriminator("Ignore"@), v.wire_fields());
                }
            },
            TaggedObject::Join(v) => {
                v.encode_into(out);
                proof {
                    lemma_appended(start, discriminator("Join"@), v.wire_fields());
                }
            },
            TaggedObject::Leave(v) => {
                v.encode_into(out);
                proof {
                    lemma_appended(start, discriminator("Leave"@), v.wire_fields());
                }
            },
            TaggedObject::Like(v) => {
                v.encode_into(out);
                proof {
                    lemma_appended(start, discriminator("Like"@), v.wire_fields());
                }
            },
            TaggedObject::Offer(v) => {
                v.encode_into(out);
                proof {
                    lemma_appended(start, discriminator("Offer"@), v.wire_fields());
                }
            },
            TaggedObject::Invite(v) => {
                v.encode_into(out);
                proof {
                    lemma_appended(start, discriminator("Invite"@), v.wire_fields());
                }
            },
            TaggedObject::Reject(v) => {
                v.encode_into(out);
                proof {
                    lemma_appended(start, discriminator("Reject"@), v.wire_fields());
                }
            },
            TaggedObject::TentativeReject(v) => {
                v.encode_into(out);
                proof {
                    lemma_appended(start, discriminator("TentativeReject"@), v.wire_fields());
                }
            },
            TaggedObject::Remove(v) => {
                v.encode_into(out);
                proof {
                    lemma_appended(start, discriminator("Remove"@), v.wire_fields());
                }
            },
            TaggedObject::Undo(v) => {
                v.encode_into(out);
                proof {
                    lemma_appended(start, discriminator("Undo"@), v.wire_fields());
                }
            },
            TaggedObject::Update(v) => {
                v.encode_into(out);
                proof {
                    lemma_appended(start, discriminator("Update"@), v.wire_fields());
                }
            },
            TaggedObject::View(v) => {
                v.encode_into(out);
                proof {
                    lemma_appended(start, discriminator("View"@), v.wire_fields());
                }
            },
            TaggedObject::Listen(v) => {
                v.encode_into(out);
                proof {
                    lemma_appended(start, discriminator("Listen"@), v.wire_fields());
                }
            },
            TaggedObject::Read(v) => {
                v.encode_into(out);
                proof {
                    lemma_appended(start, discriminator("Read"@), v.wire_fields());
                }
            },
            TaggedObject::Move(v) => {
                v.encode_into(out);
                proof {
                    lemma_appended(start, discriminator("Move"@), v.wire_fields());
                }
            },
            TaggedObject::Travel(v) => {
                v.encode_into(out);
                proof {
                    lemma_appended(start, discriminator("Travel"@), v.wire_fields());
                }
            },
            TaggedObject::Announce(v) => {
                v.encode_into(out);
                proof {
                    lemma_appended(start, discriminator("Announce"@), v.wire_fields());
                }
            },
            TaggedObject::Block(v) => {
                v.encode_into(out);
                proof {
                    lemma_appended(start, discriminator("Block"@), v.wire_fields());
                }
            },
            TaggedObject::Flag(v) => {
                v.encode_into(out);
                proof {
                    lemma_appended(start, discriminator("Flag"@), v.wire_fields());
                }
            },
            TaggedObject::Dislike(v) => {
                v.encode_into(out);
                proof {
                    lemma_appended(start, discriminator("Dislike"@), v.wire_fields());
                }
            },
            TaggedObject::Question(v) => {
                v.encode_into(out);
                proof {
                    lemma_appended(start, discriminator("Question"@), v.wire_fields());
                }
            },
            TaggedObject::Application(v) => {
                v.encode_into(out);
                proof {
                    lemma_appended(start, discriminator("Application"@), v.wire_fields());
                }
            },
            TaggedObject::Group(v) => {
                v.encode_into(out);
                proof {
                    lemma_appended(start, discriminator("Group"@), v.wire_fields());
                }
            },
            TaggedObject::Organization(v) => {
                v.encode_into(out);
                proof {
                    lemma_appended(start, discriminator("Organization"@), v.wire_fields());
                }
            },
            TaggedObject::Person(v) => {
                v.encode_into(out);
                proof {
                    lemma_appended(start, discriminator("Person"@), v.wire_fields());
                }
            },
            TaggedObject::Service(v) => {
                v.encode_into(out);
                proof {
                    lemma_appended(start, discriminator("Service"@), v.wire_fields());
                }
            },
            TaggedObject::Relationship(v) => {
                v.encode_into(out);
                proof {
                    lemma_appended(start, discriminator("Relationship"@), v.wire_fields());
                }
            },
            TaggedObject::Article(v) => {
                v.encode_into(out);
                proof {
                    lemma_appended(start, discriminator("Article"@), v.wire_fields());
                }
            },
            TaggedObject::Document(v) => {
                v.encode_into(out);
                proof {
                    lemma_appended(start, discriminator("Document"@), v.wire_fields());
                }
            },
            TaggedObject::Audio(v) => {
                v.encode_into(out);
                proof {
                    lemma_appended(start, discriminator("Audio"@), v.wire_fields());
                }
            },
            TaggedObject::Image(v) => {
                v.encode_into(out);
                proof {
                    lemma_appended(start, discriminator("Image"@), v.wire_fields());
                }
            },
            TaggedObject::Video(v) => {
                v.encode_into(out);
                proof {
                    lemma_appended(start, discriminator("Video"@), v.wire_fields());
                }
            },
            TaggedObject::Note(v) => {
                v.encode_into(out);
                proof {
                    lemma_appended(start, discriminator("Note"@), v.wire_fields());
                }
            },
            TaggedObject::Page(v) => {
                v.encode_into(out);
                proof {
                    lemma_appended(start, discriminator("Page"@), v.wire_fields());
                }
            },
            TaggedObject::Event(v) => {
                v.encode_into(out);
                proof {
                    lemma_appended(start, discriminator("Event"@), v.wire_fields());
                }
            },
            TaggedObject::Place(v) => {
                v.encode_into(out);
                proof {
                    lemma_appended(start, discriminator("Place"@), v.wire_fields());
                }
            },
            TaggedObject::Mention(v) => {
                v.encode_into(out);
                proof {
                    lemma_appended(start, discriminator("Mention"@), v.wire_fields());
                }
            },
            TaggedObject::Profile(v) => {
                v.encode_into(out);
                proof {
                    lemma_appended(start, discriminator("Profile"@), v.wire_fields());
                }
            },
            TaggedObject::Tombstone(v) => {
                v.encode_into(out);
                proof {
                    lemma_appended(start, discriminator("Tombstone"@), v.wire_fields());
                }
            },
        }
    }

    /// Writes the discriminator, then the fields of the variant.
    pub fn encode(&self) -> (r: Json)
        ensures
            r@ == self.wire(),
        decreases self,
    {
        proof {
            reveal(TaggedObject::wire_fields);
        }
        let mut fields: Vec<(String, Json)> = Vec::new();
        push_field(&mut fields, "type", encode_text_slice(self.tag()));
        assert(fields_model(fields@) =~= discriminator(self.tag_model()));
        match self {
            TaggedObject::Object(v) => v.encode_into(&mut fields),
            TaggedObject::Activity(v) => v.encode_into(&mut fields),
            TaggedObject::Collection(v) => v.encode_into(&mut fields),
            TaggedObject::OrderedCollection(v) => v.encode_into(&mut fields),
            TaggedObject::CollectionPage(v) => v.encode_into(&mut fields),
            TaggedObject::OrderedCollectionPage(v) => v.encode_into(&mut fields),
            TaggedObject::Accept(v) => v.encode_into(&mut fields),
            TaggedObject::TentativeAccept(v) => v.encode_into(&mut fields),
            TaggedObject::Add(v) => v.encode_into(&mut fields),
            TaggedObject::Arrive(v) => v.encode_into(&mut fields),
            TaggedObject::Create(v) => v.encode_into(&mut fields),
            TaggedObject::Delete(v) => v.encode_into(&mut fields),
            TaggedObject::Follow(v) => v.encode_into(&mut fields),
            TaggedObject::Ignore(v) => v.encode_into(&mut fields),
            TaggedObject::Join(v) => v.encode_into(&mut fields),
            TaggedObject::Leave(v) => v.encode_into(&mut fields),
            TaggedObject::Like(v) => v.encode_into(&mut fields),
            TaggedObject::Offer(v) => v.encode_into(&mut fields),
            TaggedObject::Invite(v) => v.encode_into(&mut fields),
            TaggedObject::Reject(v) => v.encode_into(&mut fields),
            TaggedObject::TentativeReject(v) => v.encode_into(&mut fields),
            TaggedObject::Remove(v) => v.encode_into(&mut fields),
            TaggedObject::Undo(v) => v.encode_into(&mut fields),
            TaggedObject::Update(v) => v.encode_into(&mut fields),
            TaggedObject::View(v) => v.encode_into(&mut fields),
            TaggedObject::Listen(v) => v.encode_into(&mut fields),
            TaggedObject::Read(v) => v.encode_into(&mut fields),
            TaggedObject::Move(v) => v.encode_into(&mut fields),
            TaggedObject::Travel(v) => v.encode_into(&mut fields),
            TaggedObject::Announce(v) => v.encode_into(&mut fields),
            TaggedObject::Block(v) => v.encode_into(&mut fields),
            TaggedObject::Flag(v) => v.encode_into(&mut fields),
            TaggedObject::Dislike(v) => v.encode_into(&mut fields),
            TaggedObject::Question(v) => v.encode_into(&mut fields),
            TaggedObject::Application(v) => v.encode_into(&mut fields),
            TaggedObject::Group(v) => v.encode_into(&mut fields),
            TaggedObject::Organization(v) => v.encode_into(&mut fields),
            TaggedObject::Person(v) => v.encode_into(&mut fields),
            TaggedObject::Service(v) => v.encode_into(&mut fields),
            TaggedObject::Relationship(v) => v.encode_into(&mut fields),
            TaggedObject::Article(v) => v.encode_into(&mut fields),
            TaggedObject::Document(v) => v.encode_into(&mut fields),
            TaggedObject::Audio(v) => v.encode_into(&mut fields),
            TaggedObject::Image(v) => v.encode_into(&mut fields),
            TaggedObject::Video(v) => v.encode_into(&mut fields),
            TaggedObject::Note(v) => v.encode_into(&mut fields),
            TaggedObject::Page(v) => v.encode_into(&mut fields),
            TaggedObject::Event(v) => v.encode_into(&mut fields),
            TaggedObject::Place(v) => v.encode_into(&mut fields),
            TaggedObject::Mention(v) => v.encode_into(&mut fields),
            TaggedObject::Profile(v) => v.encode_into(&mut fields),
            TaggedObject::Tombstone(v) => v.encode_into(&mut fields),
        }
        Json::Object(fields)
    }

    /// Reads the value from JSON text.
    pub fn parse(text: &str) -> (r: Result<TaggedObject, CodecError>)
        ensures
            match r {
                Ok(value) => parsed(text@) matches Ok(document) && normal_plain(
                    Plain::Tagged(Family::Object),
                    document,
                ) == Normal::Ok(value.wire()),
                Err(e) => match parsed(text@) {
                    Ok(document) => normal_plain(Plain::Tagged(Family::Object), document)
                        == Normal::Err(e@),
                    Err(f) => e@ == f,
                },
            },
    {
        match Json::parse(text) {
            Ok(document) => TaggedObject::decode(&document),
            Err(e) => Err(e),
        }
    }
}

impl Payload for TaggedObject {
    open spec fn payload_fields(&self) -> Fields {
        self.wire_fields()
    }

    open spec fn payload_normal(j: JsonModel) -> Result<Fields, Failure> {
        normal_tagged(Family::Object, j)
    }

    fn read_payload(j: &Json) -> (r: Result<TaggedObject, CodecError>) {
        proof {
            assert(normal_plain(Plain::Tagged(Family::Object), j@) == match normal_tagged(
                Family::Object,
                j@,
            ) {
                Ok(fields) => Normal::Ok(JsonModel::Object(fields)),
                Err(e) => Err(e),
            });
        }
        match TaggedObject::decode(j) {
            Ok(value) => Ok(value),
            Err(e) => Err(e),
        }
    }

    fn write_payload(&self, out: &mut Vec<(String, Json)>) {
        self.encode_into(out)
    }
}

/// An image, given by its identifier, by a link or in full.
///
/// The shapes are tried in the order in which the variants stand, and the first
/// that fits decides.
#[derive(Debug, PartialEq)]
pub enum MaybeImage {
    URI(URI),
    TaggedLink(TaggedLink),
    TaggedImage(TaggedImage),
}

impl MaybeImage {
    /// The place of the variant in the order in which the shapes are tried.
    pub open spec fn rank(&self) -> nat {
        match self {
            MaybeImage::URI(_) => 0,
            MaybeImage::TaggedLink(_) => 1,
            MaybeImage::TaggedImage(_) => 2,
        }
    }

    /// The document that the value is written as.
    #[verifier::opaque]
    pub open spec fn wire(&self) -> JsonModel
        decreases self, 0nat,
    {
        match self {
            MaybeImage::URI(v) => JsonModel::Text(v@),
            MaybeImage::TaggedLink(v) => JsonModel::Object(v.wire_fields()),
            MaybeImage::TaggedImage(v) => JsonModel::Object(v.wire_fields()),
        }
    }

    /// Reads the value: the first variant whose shape fits the document.
    pub fn decode(j: &Json) -> (r: Result<MaybeImage, CodecError>)
        ensures
            match r {
                Ok(value) => {
                    &&& normal_item(Item::Choice(Union::Image), j@) == Normal::Ok(value.wire())
                    &&& first_accepting(candidates(Union::Image), j@, 0) == Some(value.rank())
                },
                Err(e) => normal_item(Item::Choice(Union::Image), j@) == Normal::Err(e@),
            },
        decreases j@, 6nat, 0nat,
    {
        proof {
            reveal(MaybeImage::wire);
            reveal(TaggedLink::wire_fields);
            reveal(TaggedImage::wire_fields);
            reveal_with_fuel(first_accepting, 4);
        }
        match decode_text(j) {
            Ok(v) => {
                return Ok(MaybeImage::URI(v));
            },
            Err(_) => {},
        }
        match TaggedLink::decode(j) {
            Ok(v) => {
                return Ok(MaybeImage::TaggedLink(v));
            },
            Err(_) => {},
        }
        match TaggedImage::decode(j) {
            Ok(v) => {
                return Ok(MaybeImage::TaggedImage(v));
            },
            Err(_) => {},
        }
        Err(CodecError::at_root(ErrorKind::NoMatchingVariant(Union::Image)))
    }

    /// Writes the value in the shape of its variant.
    pub fn encode(&self) -> (r: Json)
        ensures
            r@ == self.wire(),
        decreases self,
    {
        proof {
            reveal(MaybeImage::wire);
            reveal(TaggedLink::wire_fields);
            reveal(TaggedImage::wire_fields);
        }
        match self {
            MaybeImage::URI(v) => encode_text(v),
            MaybeImage::TaggedLink(v) => v.encode(),
            MaybeImage::TaggedImage(v) => v.encode(),
        }
    }
}

/// An image, marked as such by its discriminator.
#[derive(Debug, PartialEq)]
pub enum TaggedImage {
    Image(Image),
}

impl TaggedImage {
    /// The discriminator of the variant.
    pub open spec fn tag_model(&self) -> Seq<char> {
        match self {
            TaggedImage::Image(_) => "Image"@,
        }
    }

    /// The fields that the value is written as: the discriminator first, then
    /// the fields of the variant.
    #[verifier::opaque]
    pub open spec fn wire_fields(&self) -> Fields
        decreases self, 3nat,
    {
        match self {
            TaggedImage::Image(v) => tagged_fields("Image"@, v.wire_fields()),
        }
    }

    /// The document that the value is written as.
    pub open spec fn wire(&self) -> JsonModel {
        JsonModel::Object(self.wire_fields())
    }

    /// The discriminator of the variant.
    pub fn tag(&self) -> (r: &'static str)
        ensures
            r@ == self.tag_model(),
    {
        match self {
            TaggedImage::Image(_) => "Image",
        }
    }

    /// The value is written flat: under the discriminator and then under the
    /// keys of the layout that the discriminator selects.
    pub proof fn law_written_flat(&self)
        ensures
            layout_of(Family::Image, self.tag_model()) matches Some(layout) && field_keys(
                self.wire_fields(),
            ) == seq![type_key()] + layout_keys(layout),
    {
        reveal(TaggedImage::wire_fields);
        lemma_tag_signatures();
        match self {
            TaggedImage::Image(v) => {
                v.law_written_flat();
                lemma_keys_appended(discriminator("Image"@), v.wire_fields());
                assert(field_keys(discriminator("Image"@)) =~= seq![type_key()]);
            },
        }
    }

    /// Reads the variant that the discriminator names. A document without a
    /// discriminator and one with a discriminator that the family does not know
    /// are refused.
    pub fn decode(j: &Json) -> (r: Result<TaggedImage, CodecError>)
        ensures
            match r {
                Ok(value) => normal_plain(Plain::Tagged(Family::Image), j@) == Normal::Ok(
                    value.wire(),
                ),
                Err(e) => normal_plain(Plain::Tagged(Family::Image), j@) == Normal::Err(e@),
            },
        decreases j@, 3nat, 0nat,
    {
        proof {
            reveal(TaggedImage::wire_fields);
        }
        match j {
            Json::Object(_) => {},
            _ => {
                return Err(CodecError::at_root(ErrorKind::FieldTypeMismatch));
            },
        }
        let tag = match j.get("type") {
            Some(Json::Text(tag)) => tag,
            Some(_) => {
                return Err(CodecError::at_root(ErrorKind::FieldTypeMismatch).within("type"));
            },
            None => {
                return Err(CodecError::at_root(ErrorKind::MissingDiscriminator));
            },
        };
        if same(tag.as_str(), "Image") {
            match Image::decode(j) {
                Ok(v) => Ok(TaggedImage::Image(v)),
                Err(e) => Err(e),
            }
        } else {
            Err(CodecError::at_root(ErrorKind::UnknownVariant(tag.clone())))
        }
    }

    /// Appends the discriminator and the fields of the variant to the fields
    /// of an object.
    pub fn encode_into(&self, out: &mut Vec<(String, Json)>)
        ensures
            fields_model(final(out)@) == fields_model(old(out)@) + self.wire_fields(),
        decreases self,
    {
        proof {
            reveal(TaggedImage::wire_fields);
        }
        let ghost start = fields_model(out@);
        push_field(out, "type", encode_text_slice(self.tag()));
        proof {
            lemma_nothing_added(start);
            lemma_added(start, Seq::empty(), type_key(), JsonModel::Text(self.tag_model()));
        }
        match self {
            TaggedImage::Image(v) => {
                v.encode_into(out);
                proof {
                    lemma_appended(start, discriminator("Image"@), v.wire_fields());
                }
            },
        }
    }

    /// Writes the discriminator, then the fields of the variant.
    pub fn encode(&self) -> (r: Json)
        ensures
            r@ == self.wire(),
        decreases self,
    {
        proof {
            reveal(TaggedImage::wire_fields);
        }
        let mut fields: Vec<(String, Json)> = Vec::new();
        push_field(&mut fields, "type", encode_text_slice(self.tag()));
        assert(fields_model(fields@) =~= discriminator(self.tag_model()));
        match self {
            TaggedImage::Image(v) => v.encode_into(&mut fields),
        }
        Json::Object(fields)
    }

    /// Reads the value from JSON text.
    pub fn parse(text: &str) -> (r: Result<TaggedImage, CodecError>)
        ensures
            match r {
                Ok(value) => parsed(text@) matches Ok(document) && normal_plain(
                    Plain::Tagged(Family::Image),
                    document,
                ) == Normal::Ok(value.wire()),
                Err(e) => match parsed(text@) {
                    Ok(document) => normal_plain(Plain::Tagged(Family::Image), document)
                        == Normal::Err(e@),
                    Err(f) => e@ == f,
                },
            },
    {
        match Json::parse(text) {
            Ok(document) => TaggedImage::decode(&document),
            Err(e) => Err(e),
        }
    }
}

impl Payload for TaggedImage {
    open spec fn payload_fields(&self) -> Fields {
        self.wire_fields()
    }

    open spec fn payload_normal(j: JsonModel) -> Result<Fields, Failure> {
        normal_tagged(Family::Image, j)
    }

    fn read_payload(j: &Json) -> (r: Result<TaggedImage, CodecError>) {
        proof {
            assert(normal_plain(Plain::Tagged(Family::Image), j@) == match normal_tagged(
                Family::Image,
                j@,
            ) {
                Ok(fields) => Normal::Ok(JsonModel::Object(fields)),
                Err(e) => Err(e),
            });
        }
        match TaggedImage::decode(j) {
            Ok(value) => Ok(value),
            Err(e) => Err(e),
        }
    }

    fn write_payload(&self, out: &mut Vec<(String, Json)>) {
        self.encode_into(out)
    }
}

} // verus!

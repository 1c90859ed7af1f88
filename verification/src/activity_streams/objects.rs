//! The records of the vocabulary. A record that extends another holds it as
//! a field and writes its fields at the same level as its own.

use vstd::prelude::*;
use vstd::view::View as _;
use crate::envelope::Payload;
use crate::error::{CodecError, ErrorKind, Failure};
use crate::json::{
    field_keys, fields_model, lemma_added, lemma_appended, lemma_keys_appended,
    lemma_nothing_added, push_field, Fields, Json, JsonModel,
};
use crate::schema::{
    depth, layout_keys, lemma_field_fails, lemma_field_read, lemma_layout_keys,
    lemma_own_activity, lemma_own_collection, lemma_own_collection_page, lemma_own_link,
    lemma_own_object, lemma_own_ordered_collection, lemma_own_ordered_collection_page,
    lemma_own_place, lemma_own_profile, lemma_own_question, lemma_own_relationship,
    lemma_own_start, lemma_own_tombstone, lemma_record_extended, lemma_record_plain,
    lemma_record_refused, normal_own, normal_record, own_keys, Layout, NormalFields,
};
use super::properties::{
    closed_wire, collection_wire, count_wire, images_wire, instant_wire, language_map_wire,
    links_wire, object_wire, objects_wire, page_wire, percentage_wire, positive_float_wire,
    PropAccuracy, PropActor, PropAltitude, PropAnyOf, PropAttachment, PropAttributedTo,
    PropAudience, PropBCC, PropBTO, PropCC, PropClosed, PropContent, PropContentMap, PropContext,
    PropCurrent, PropDeleted, PropDescribes, PropDuration, PropEndTime, PropFirst, PropFormerType,
    PropGenerator, PropHeight, PropHref, PropHrefLang, PropIcon, PropImage, PropInReplyTo,
    PropInstrument, PropItems, PropLast, PropLatitude, PropLocation, PropLongitude, PropMediaType,
    PropName, PropNameMap, PropNext, PropObject, PropOneOf, PropOrigin, PropPartOf, PropPrev,
    PropPreview, PropPublished, PropRadius, PropRel, PropRelationship, PropReplies, PropResult,
    PropStartIndex, PropStartTime, PropSubject, PropSummary, PropSummaryMap, PropTag, PropTarget,
    PropTo, PropTotalItems, PropUnits, PropUpdated, PropUrl, PropWidth, read_closed,
    read_collection, read_count, read_images, read_instant, read_language_map, read_links,
    read_object, read_objects, read_page, read_percentage, read_positive_float, read_real,
    read_relations, read_tagged_object, read_tagged_objects, read_text, real_wire, relations_wire,
    tagged_object_wire, tagged_objects_wire, text_wire, write_closed, write_collection,
    write_count, write_images, write_instant, write_language_map, write_links, write_object,
    write_objects, write_page, write_percentage, write_positive_float, write_real,
    write_relations, write_tagged_object, write_tagged_objects, write_text,
};

verus! {

/// An object: the fields that every other kind of object takes over.
#[allow(non_snake_case)]
#[derive(Debug, PartialEq)]
pub struct Object {
    attachment: Option<PropAttachment>,
    attributedTo: Option<PropAttributedTo>,
    audience: Option<PropAudience>,
    content: Option<PropContent>,
    contentMap: Option<PropContentMap>,
    context: Option<PropContext>,
    name: Option<PropName>,
    nameMap: Option<PropNameMap>,
    endTime: Option<PropEndTime>,
    generator: Option<PropGenerator>,
    icon: Option<PropIcon>,
    image: Option<PropImage>,
    inReplyTo: Option<PropInReplyTo>,
    location: Option<PropLocation>,
    preview: Option<PropPreview>,
    published: Option<PropPublished>,
    replies: Option<PropReplies>,
    startTime: Option<PropStartTime>,
    summary: Option<PropSummary>,
    summaryMap: Option<PropSummaryMap>,
    tag: Option<PropTag>,
    updated: Option<PropUpdated>,
    url: Option<PropUrl>,
    to: Option<PropTo>,
    bto: Option<PropBTO>,
    cc: Option<PropCC>,
    bcc: Option<PropBCC>,
    mediaType: Option<PropMediaType>,
    duration: Option<PropDuration>,
}

impl Object {
    /// The fields that the record declares itself, as they are written.
    #[verifier::opaque]
    pub closed spec fn own_fields(&self) -> Fields
        decreases self, 3nat,
    {
        seq![
            ("attachment"@, objects_wire(self.attachment)),
            ("attributedTo"@, objects_wire(self.attributedTo)),
            ("audience"@, objects_wire(self.audience)),
            ("content"@, text_wire(self.content)),
            ("contentMap"@, language_map_wire(self.contentMap)),
            ("context"@, objects_wire(self.context)),
            ("name"@, text_wire(self.name)),
            ("nameMap"@, language_map_wire(self.nameMap)),
            ("endTime"@, instant_wire(self.endTime)),
            ("generator"@, objects_wire(self.generator)),
            ("icon"@, images_wire(self.icon)),
            ("image"@, images_wire(self.image)),
            ("inReplyTo"@, objects_wire(self.inReplyTo)),
            ("location"@, objects_wire(self.location)),
            ("preview"@, objects_wire(self.preview)),
            ("published"@, instant_wire(self.published)),
            ("replies"@, collection_wire(self.replies)),
            ("startTime"@, instant_wire(self.startTime)),
            ("summary"@, text_wire(self.summary)),
            ("summaryMap"@, language_map_wire(self.summaryMap)),
            ("tag"@, objects_wire(self.tag)),
            ("updated"@, instant_wire(self.updated)),
            ("url"@, links_wire(self.url)),
            ("to"@, objects_wire(self.to)),
            ("bto"@, objects_wire(self.bto)),
            ("cc"@, objects_wire(self.cc)),
            ("bcc"@, objects_wire(self.bcc)),
            ("mediaType"@, text_wire(self.mediaType)),
            ("duration"@, text_wire(self.duration)),
        ]
    }

    /// All fields of the record at one level: its own, then those it takes
    /// over.
    #[verifier::opaque]
    pub closed spec fn wire_fields(&self) -> Fields
        decreases self, 4nat,
    {
        self.own_fields()
    }

    /// The object that the record is written as.
    pub open spec fn wire(&self) -> JsonModel {
        JsonModel::Object(self.wire_fields())
    }

    /// The record is written flat: under the keys that its layout declares
    /// and then under the keys of the layouts that it takes fields over from,
    /// all at one level.
    pub proof fn law_written_flat(&self)
        ensures
            field_keys(self.wire_fields()) == layout_keys(Layout::Object),
        decreases depth(Layout::Object),
    {
        reveal(Object::own_fields);
        reveal(Object::wire_fields);
        lemma_own_object();
        lemma_layout_keys(Layout::Object);
        assert(field_keys(self.own_fields()) =~= own_keys(Layout::Object));
    }

    /// Reads the record from the fields of an object. Each field is looked up
    /// by its name; fields that the record does not know are passed over.
    pub fn decode(j: &Json) -> (r: Result<Object, CodecError>)
        ensures
            match r {
                Ok(value) => normal_record(Layout::Object, j@) == NormalFields::Ok(
                    value.wire_fields(),
                ),
                Err(e) => normal_record(Layout::Object, j@) == NormalFields::Err(e@),
            },
        decreases j@, 2nat, 0nat,
    {
        match j {
            Json::Object(_) => {},
            _ => {
                proof {
                    lemma_record_refused(Layout::Object, j@);
                }
                return Err(CodecError::at_root(ErrorKind::FieldTypeMismatch));
            },
        }
        proof {
            lemma_own_object();
            lemma_own_start(Layout::Object, j@);
        }
        let attachment = match read_objects(j, "attachment") {
            Ok(value) => value,
            Err(e) => {
                proof {
                    lemma_field_fails(Layout::Object, j@, 0, e@);
                }
                return Err(e);
            },
        };
        proof {
            lemma_field_read(Layout::Object, j@, 0);
        }
        let attributed_to = match read_objects(j, "attributedTo") {
            Ok(value) => value,
            Err(e) => {
                proof {
                    lemma_field_fails(Layout::Object, j@, 1, e@);
                }
                return Err(e);
            },
        };
        proof {
            lemma_field_read(Layout::Object, j@, 1);
        }
        let audience = match read_objects(j, "audience") {
            Ok(value) => value,
            Err(e) => {
                proof {
                    lemma_field_fails(Layout::Object, j@, 2, e@);
                }
                return Err(e);
            },
        };
        proof {
            lemma_field_read(Layout::Object, j@, 2);
        }
        let content = match read_text(j, "content") {
            Ok(value) => value,
            Err(e) => {
                proof {
                    lemma_field_fails(Layout::Object, j@, 3, e@);
                }
                return Err(e);
            },
        };
        proof {
            lemma_field_read(Layout::Object, j@, 3);
        }
        let content_map = match read_language_map(j, "contentMap") {
            Ok(value) => value,
            Err(e) => {
                proof {
                    lemma_field_fails(Layout::Object, j@, 4, e@);
                }
                return Err(e);
            },
        };
        proof {
            lemma_field_read(Layout::Object, j@, 4);
        }
        let context = match read_objects(j, "context") {
            Ok(value) => value,
            Err(e) => {
                proof {
                    lemma_field_fails(Layout::Object, j@, 5, e@);
                }
                return Err(e);
            },
        };
        proof {
            lemma_field_read(Layout::Object, j@, 5);
        }
        let name = match read_text(j, "name") {
            Ok(value) => value,
            Err(e) => {
                proof {
                    lemma_field_fails(Layout::Object, j@, 6, e@);
                }
                return Err(e);
            },
        };
        proof {
            lemma_field_read(Layout::Object, j@, 6);
        }
        let name_map = match read_language_map(j, "nameMap") {
            Ok(value) => value,
            Err(e) => {
                proof {
                    lemma_field_fails(Layout::Object, j@, 7, e@);
                }
                return Err(e);
            },
        };
        proof {
            lemma_field_read(Layout::Object, j@, 7);
        }
        let end_time = match read_instant(j, "endTime") {
            Ok(value) => value,
            Err(e) => {
                proof {
                    lemma_field_fails(Layout::Object, j@, 8, e@);
                }
                return Err(e);
            },
        };
        proof {
            lemma_field_read(Layout::Object, j@, 8);
        }
        let generator = match read_objects(j, "generator") {
            Ok(value) => value,
            Err(e) => {
                proof {
                    lemma_field_fails(Layout::Object, j@, 9, e@);
                }
                return Err(e);
            },
        };
        proof {
            lemma_field_read(Layout::Object, j@, 9);
        }
        let icon = match read_images(j, "icon") {
            Ok(value) => value,
            Err(e) => {
                proof {
                    lemma_field_fails(Layout::Object, j@, 10, e@);
                }
                return Err(e);
            },
        };
        proof {
            lemma_field_read(Layout::Object, j@, 10);
        }
        let image = match read_images(j, "image") {
            Ok(value) => value,
            Err(e) => {
                proof {
                    lemma_field_fails(Layout::Object, j@, 11, e@);
                }
                return Err(e);
            },
        };
        proof {
            lemma_field_read(Layout::Object, j@, 11);
        }
        let in_reply_to = match read_objects(j, "inReplyTo") {
            Ok(value) => value,
            Err(e) => {
                proof {
                    lemma_field_fails(Layout::Object, j@, 12, e@);
                }
                return Err(e);
            },
        };
        proof {
            lemma_field_read(Layout::Object, j@, 12);
        }
        let location = match read_objects(j, "location") {
            Ok(value) => value,
            Err(e) => {
                proof {
                    lemma_field_fails(Layout::Object, j@, 13, e@);
                }
                return Err(e);
            },
        };
        proof {
            lemma_field_read(Layout::Object, j@, 13);
        }
        let preview = match read_objects(j, "preview") {
            Ok(value) => value,
            Err(e) => {
                proof {
                    lemma_field_fails(Layout::Object, j@, 14, e@);
                }
                return Err(e);
            },
        };
        proof {
            lemma_field_read(Layout::Object, j@, 14);
        }
        let published = match read_instant(j, "published") {
            Ok(value) => value,
            Err(e) => {
                proof {
                    lemma_field_fails(Layout::Object, j@, 15, e@);
                }
                return Err(e);
            },
        };
        proof {
            lemma_field_read(Layout::Object, j@, 15);
        }
        let replies = match read_collection(j, "replies") {
            Ok(value) => value,
            Err(e) => {
                proof {
                    lemma_field_fails(Layout::Object, j@, 16, e@);
                }
                return Err(e);
            },
        };
        proof {
            lemma_field_read(Layout::Object, j@, 16);
        }
        let start_time = match read_instant(j, "startTime") {
            Ok(value) => value,
            Err(e) => {
                proof {
                    lemma_field_fails(Layout::Object, j@, 17, e@);
                }
                return Err(e);
            },
        };
        proof {
            lemma_field_read(Layout::Object, j@, 17);
        }
        let summary = match read_text(j, "summary") {
            Ok(value) => value,
            Err(e) => {
                proof {
                    lemma_field_fails(Layout::Object, j@, 18, e@);
                }
                return Err(e);
            },
        };
        proof {
            lemma_field_read(Layout::Object, j@, 18);
        }
        let summary_map = match read_language_map(j, "summaryMap") {
            Ok(value) => value,
            Err(e) => {
                proof {
                    lemma_field_fails(Layout::Object, j@, 19, e@);
                }
                return Err(e);
            },
        };
        proof {
            lemma_field_read(Layout::Object, j@, 19);
        }
        let tag = match read_objects(j, "tag") {
            Ok(value) => value,
            Err(e) => {
                proof {
                    lemma_field_fails(Layout::Object, j@, 20, e@);
                }
                return Err(e);
            },
        };
        proof {
            lemma_field_read(Layout::Object, j@, 20);
        }
        let updated = match read_instant(j, "updated") {
            Ok(value) => value,
            Err(e) => {
                proof {
                    lemma_field_fails(Layout::Object, j@, 21, e@);
                }
                return Err(e);
            },
        };
        proof {
            lemma_field_read(Layout::Object, j@, 21);
        }
        let url = match read_links(j, "url") {
            Ok(value) => value,
            Err(e) => {
                proof {
                    lemma_field_fails(Layout::Object, j@, 22, e@);
                }
                return Err(e);
            },
        };
        proof {
            lemma_field_read(Layout::Object, j@, 22);
        }
        let to = match read_objects(j, "to") {
            Ok(value) => value,
            Err(e) => {
                proof {
                    lemma_field_fails(Layout::Object, j@, 23, e@);
                }
                return Err(e);
            },
        };
        proof {
            lemma_field_read(Layout::Object, j@, 23);
        }
        let bto = match read_objects(j, "bto") {
            Ok(value) => value,
            Err(e) => {
                proof {
                    lemma_field_fails(Layout::Object, j@, 24, e@);
                }
                return Err(e);
            },
        };
        proof {
            lemma_field_read(Layout::Object, j@, 24);
        }
        let cc = match read_objects(j, "cc") {
            Ok(value) => value,
            Err(e) => {
                proof {
                    lemma_field_fails(Layout::Object, j@, 25, e@);
                }
                return Err(e);
            },
        };
        proof {
            lemma_field_read(Layout::Object, j@, 25);
        }
        let bcc = match read_objects(j, "bcc") {
            Ok(value) => value,
            Err(e) => {
                proof {
                    lemma_field_fails(Layout::Object, j@, 26, e@);
                }
                return Err(e);
            },
        };
        proof {
            lemma_field_read(Layout::Object, j@, 26);
        }
        let media_type = match read_text(j, "mediaType") {
            Ok(value) => value,
            Err(e) => {
                proof {
                    lemma_field_fails(Layout::Object, j@, 27, e@);
                }
                return Err(e);
            },
        };
        proof {
            lemma_field_read(Layout::Object, j@, 27);
        }
        let duration = match read_text(j, "duration") {
            Ok(value) => value,
            Err(e) => {
                proof {
                    lemma_field_fails(Layout::Object, j@, 28, e@);
                }
                return Err(e);
            },
        };
        proof {
            lemma_field_read(Layout::Object, j@, 28);
            lemma_record_plain(Layout::Object, j@);
        }
        let value = Object {
            attachment,
            attributedTo: attributed_to,
            audience,
            content,
            contentMap: content_map,
            context,
            name,
            nameMap: name_map,
            endTime: end_time,
            generator,
            icon,
            image,
            inReplyTo: in_reply_to,
            location,
            preview,
            published,
            replies,
            startTime: start_time,
            summary,
            summaryMap: summary_map,
            tag,
            updated,
            url,
            to,
            bto,
            cc,
            bcc,
            mediaType: media_type,
            duration,
        };
        assert(normal_own(Layout::Object, j@, 29)->Ok_0 == value.own_fields()) by {
            reveal(Object::own_fields);
        }
        assert(value.wire_fields() == value.own_fields())
            by {
            reveal(Object::wire_fields);
        }
        Ok(value)
    }

    /// Appends the fields of the record to the fields of an object.
    pub fn encode_into(&self, out: &mut Vec<(String, Json)>)
        ensures
            fields_model(final(out)@) == fields_model(old(out)@) + self.wire_fields(),
        decreases self,
    {
        let ghost start = fields_model(out@);
        let ghost mut done: Fields = Seq::empty();
        proof {
            lemma_nothing_added(start);
        }
        push_field(out, "attachment", write_objects(&self.attachment));
        proof {
            done = lemma_added(start, done, "attachment"@, objects_wire(self.attachment));
        }
        push_field(out, "attributedTo", write_objects(&self.attributedTo));
        proof {
            done = lemma_added(start, done, "attributedTo"@, objects_wire(self.attributedTo));
        }
        push_field(out, "audience", write_objects(&self.audience));
        proof {
            done = lemma_added(start, done, "audience"@, objects_wire(self.audience));
        }
        push_field(out, "content", write_text(&self.content));
        proof {
            done = lemma_added(start, done, "content"@, text_wire(self.content));
        }
        push_field(out, "contentMap", write_language_map(&self.contentMap));
        proof {
            done = lemma_added(start, done, "contentMap"@, language_map_wire(self.contentMap));
        }
        push_field(out, "context", write_objects(&self.context));
        proof {
            done = lemma_added(start, done, "context"@, objects_wire(self.context));
        }
        push_field(out, "name", write_text(&self.name));
        proof {
            done = lemma_added(start, done, "name"@, text_wire(self.name));
        }
        push_field(out, "nameMap", write_language_map(&self.nameMap));
        proof {
            done = lemma_added(start, done, "nameMap"@, language_map_wire(self.nameMap));
        }
        push_field(out, "endTime", write_instant(&self.endTime));
        proof {
            done = lemma_added(start, done, "endTime"@, instant_wire(self.endTime));
        }
        push_field(out, "generator", write_objects(&self.generator));
        proof {
            done = lemma_added(start, done, "generator"@, objects_wire(self.generator));
        }
        push_field(out, "icon", write_images(&self.icon));
        proof {
            done = lemma_added(start, done, "icon"@, images_wire(self.icon));
        }
        push_field(out, "image", write_images(&self.image));
        proof {
            done = lemma_added(start, done, "image"@, images_wire(self.image));
        }
        push_field(out, "inReplyTo", write_objects(&self.inReplyTo));
        proof {
            done = lemma_added(start, done, "inReplyTo"@, objects_wire(self.inReplyTo));
        }
        push_field(out, "location", write_objects(&self.location));
        proof {
            done = lemma_added(start, done, "location"@, objects_wire(self.location));
        }
        push_field(out, "preview", write_objects(&self.preview));
        proof {
            done = lemma_added(start, done, "preview"@, objects_wire(self.preview));
        }
        push_field(out, "published", write_instant(&self.published));
        proof {
            done = lemma_added(start, done, "published"@, instant_wire(self.published));
        }
        push_field(out, "replies", write_collection(&self.replies));
        proof {
            done = lemma_added(start, done, "replies"@, collection_wire(self.replies));
        }
        push_field(out, "startTime", write_instant(&self.startTime));
        proof {
            done = lemma_added(start, done, "startTime"@, instant_wire(self.startTime));
        }
        push_field(out, "summary", write_text(&self.summary));
        proof {
            done = lemma_added(start, done, "summary"@, text_wire(self.summary));
        }
        push_field(out, "summaryMap", write_language_map(&self.summaryMap));
        proof {
            done = lemma_added(start, done, "summaryMap"@, language_map_wire(self.summaryMap));
        }
        push_field(out, "tag", write_objects(&self.tag));
        proof {
            done = lemma_added(start, done, "tag"@, objects_wire(self.tag));
        }
        push_field(out, "updated", write_instant(&self.updated));
        proof {
            done = lemma_added(start, done, "updated"@, instant_wire(self.updated));
        }
        push_field(out, "url", write_links(&self.url));
        proof {
            done = lemma_added(start, done, "url"@, links_wire(self.url));
        }
        push_field(out, "to", write_objects(&self.to));
        proof {
            done = lemma_added(start, done, "to"@, objects_wire(self.to));
        }
        push_field(out, "bto", write_objects(&self.bto));
        proof {
            done = lemma_added(start, done, "bto"@, objects_wire(self.bto));
        }
        push_field(out, "cc", write_objects(&self.cc));
        proof {
            done = lemma_added(start, done, "cc"@, objects_wire(self.cc));
        }
        push_field(out, "bcc", write_objects(&self.bcc));
        proof {
            done = lemma_added(start, done, "bcc"@, objects_wire(self.bcc));
        }
        push_field(out, "mediaType", write_text(&self.mediaType));
        proof {
            done = lemma_added(start, done, "mediaType"@, text_wire(self.mediaType));
        }
        push_field(out, "duration", write_text(&self.duration));
        proof {
            done = lemma_added(start, done, "duration"@, text_wire(self.duration));
        }
        assert(done == self.own_fields()) by {
            reveal(Object::own_fields);
        }
        assert(self.wire_fields() == self.own_fields())
            by {
            reveal(Object::wire_fields);
        }
    }

    /// Writes the record as an object.
    pub fn encode(&self) -> (r: Json)
        ensures
            r@ == self.wire(),
    {
        let mut fields: Vec<(String, Json)> = Vec::new();
        assert(fields_model(fields@) =~= Seq::empty());
        self.encode_into(&mut fields);
        assert(Seq::empty() + self.wire_fields() =~= self.wire_fields());
        Json::Object(fields)
    }
}

impl Payload for Object {
    open spec fn payload_fields(&self) -> Fields {
        self.wire_fields()
    }

    open spec fn payload_normal(j: JsonModel) -> Result<Fields, Failure> {
        normal_record(Layout::Object, j)
    }

    fn read_payload(j: &Json) -> (r: Result<Object, CodecError>) {
        Object::decode(j)
    }

    fn write_payload(&self, out: &mut Vec<(String, Json)>) {
        self.encode_into(out)
    }
}

/// A reference to a resource.
#[allow(non_snake_case)]
#[derive(Debug, PartialEq)]
pub struct Link {
    href: Option<PropHref>,
    rel: Option<PropRel>,
    mediaType: Option<PropMediaType>,
    name: Option<PropName>,
    nameMap: Option<PropNameMap>,
    hreflang: Option<PropHrefLang>,
    height: Option<PropHeight>,
    width: Option<PropWidth>,
    preview: Option<PropPreview>,
}

impl Link {
    /// The fields that the record declares itself, as they are written.
    #[verifier::opaque]
    pub closed spec fn own_fields(&self) -> Fields
        decreases self, 3nat,
    {
        seq![
            ("href"@, text_wire(self.href)),
            ("rel"@, relations_wire(self.rel)),
            ("mediaType"@, text_wire(self.mediaType)),
            ("name"@, text_wire(self.name)),
            ("nameMap"@, language_map_wire(self.nameMap)),
            ("hreflang"@, text_wire(self.hreflang)),
            ("height"@, count_wire(self.height)),
            ("width"@, count_wire(self.width)),
            ("preview"@, objects_wire(self.preview)),
        ]
    }

    /// All fields of the record at one level: its own, then those it takes
    /// over.
    #[verifier::opaque]
    pub closed spec fn wire_fields(&self) -> Fields
        decreases self, 4nat,
    {
        self.own_fields()
    }

    /// The object that the record is written as.
    pub open spec fn wire(&self) -> JsonModel {
        JsonModel::Object(self.wire_fields())
    }

    /// The record is written flat: under the keys that its layout declares
    /// and then under the keys of the layouts that it takes fields over from,
    /// all at one level.
    pub proof fn law_written_flat(&self)
        ensures
            field_keys(self.wire_fields()) == layout_keys(Layout::Link),
        decreases depth(Layout::Link),
    {
        reveal(Link::own_fields);
        reveal(Link::wire_fields);
        lemma_own_link();
        lemma_layout_keys(Layout::Link);
        assert(field_keys(self.own_fields()) =~= own_keys(Layout::Link));
    }

    /// Reads the record from the fields of an object. Each field is looked up
    /// by its name; fields that the record does not know are passed over.
    pub fn decode(j: &Json) -> (r: Result<Link, CodecError>)
        ensures
            match r {
                Ok(value) => normal_record(Layout::Link, j@) == NormalFields::Ok(
                    value.wire_fields(),
                ),
                Err(e) => normal_record(Layout::Link, j@) == NormalFields::Err(e@),
            },
        decreases j@, 2nat, 0nat,
    {
        match j {
            Json::Object(_) => {},
            _ => {
                proof {
                    lemma_record_refused(Layout::Link, j@);
                }
                return Err(CodecError::at_root(ErrorKind::FieldTypeMismatch));
            },
        }
        proof {
            lemma_own_link();
            lemma_own_start(Layout::Link, j@);
        }
        let href = match read_text(j, "href") {
            Ok(value) => value,
            Err(e) => {
                proof {
                    lemma_field_fails(Layout::Link, j@, 0, e@);
                }
                return Err(e);
            },
        };
        proof {
            lemma_field_read(Layout::Link, j@, 0);
        }
        let rel = match read_relations(j, "rel") {
            Ok(value) => value,
            Err(e) => {
                proof {
                    lemma_field_fails(Layout::Link, j@, 1, e@);
                }
                return Err(e);
            },
        };
        proof {
            lemma_field_read(Layout::Link, j@, 1);
        }
        let media_type = match read_text(j, "mediaType") {
            Ok(value) => value,
            Err(e) => {
                proof {
                    lemma_field_fails(Layout::Link, j@, 2, e@);
                }
                return Err(e);
            },
        };
        proof {
            lemma_field_read(Layout::Link, j@, 2);
        }
        let name = match read_text(j, "name") {
            Ok(value) => value,
            Err(e) => {
                proof {
                    lemma_field_fails(Layout::Link, j@, 3, e@);
                }
                return Err(e);
            },
        };
        proof {
            lemma_field_read(Layout::Link, j@, 3);
        }
        let name_map = match read_language_map(j, "nameMap") {
            Ok(value) => value,
            Err(e) => {
                proof {
                    lemma_field_fails(Layout::Link, j@, 4, e@);
                }
                return Err(e);
            },
        };
        proof {
            lemma_field_read(Layout::Link, j@, 4);
        }
        let hreflang = match read_text(j, "hreflang") {
            Ok(value) => value,
            Err(e) => {
                proof {
                    lemma_field_fails(Layout::Link, j@, 5, e@);
                }
                return Err(e);
            },
        };
        proof {
            lemma_field_read(Layout::Link, j@, 5);
        }
        let height = match read_count(j, "height") {
            Ok(value) => value,
            Err(e) => {
                proof {
                    lemma_field_fails(Layout::Link, j@, 6, e@);
                }
                return Err(e);
            },
        };
        proof {
            lemma_field_read(Layout::Link, j@, 6);
        }
        let width = match read_count(j, "width") {
            Ok(value) => value,
            Err(e) => {
                proof {
                    lemma_field_fails(Layout::Link, j@, 7, e@);
                }
                return Err(e);
            },
        };
        proof {
            lemma_field_read(Layout::Link, j@, 7);
        }
        let preview = match read_objects(j, "preview") {
            Ok(value) => value,
            Err(e) => {
                proof {
                    lemma_field_fails(Layout::Link, j@, 8, e@);
                }
                return Err(e);
            },
        };
        proof {
            lemma_field_read(Layout::Link, j@, 8);
            lemma_record_plain(Layout::Link, j@);
        }
        let value = Link {
            href,
            rel,
            mediaType: media_type,
            name,
            nameMap: name_map,
            hreflang,
            height,
            width,
            preview,
        };
        assert(normal_own(Layout::Link, j@, 9)->Ok_0 == value.own_fields()) by {
            reveal(Link::own_fields);
        }
        assert(value.wire_fields() == value.own_fields())
            by {
            reveal(Link::wire_fields);
        }
        Ok(value)
    }

    /// Appends the fields of the record to the fields of an object.
    pub fn encode_into(&self, out: &mut Vec<(String, Json)>)
        ensures
            fields_model(final(out)@) == fields_model(old(out)@) + self.wire_fields(),
        decreases self,
    {
        let ghost start = fields_model(out@);
        let ghost mut done: Fields = Seq::empty();
        proof {
            lemma_nothing_added(start);
        }
        push_field(out, "href", write_text(&self.href));
        proof {
            done = lemma_added(start, done, "href"@, text_wire(self.href));
        }
        push_field(out, "rel", write_relations(&self.rel));
        proof {
            done = lemma_added(start, done, "rel"@, relations_wire(self.rel));
        }
        push_field(out, "mediaType", write_text(&self.mediaType));
        proof {
            done = lemma_added(start, done, "mediaType"@, text_wire(self.mediaType));
        }
        push_field(out, "name", write_text(&self.name));
        proof {
            done = lemma_added(start, done, "name"@, text_wire(self.name));
        }
        push_field(out, "nameMap", write_language_map(&self.nameMap));
        proof {
            done = lemma_added(start, done, "nameMap"@, language_map_wire(self.nameMap));
        }
        push_field(out, "hreflang", write_text(&self.hreflang));
        proof {
            done = lemma_added(start, done, "hreflang"@, text_wire(self.hreflang));
        }
        push_field(out, "height", write_count(&self.height));
        proof {
            done = lemma_added(start, done, "height"@, count_wire(self.height));
        }
        push_field(out, "width", write_count(&self.width));
        proof {
            done = lemma_added(start, done, "width"@, count_wire(self.width));
        }
        push_field(out, "preview", write_objects(&self.preview));
        proof {
            done = lemma_added(start, done, "preview"@, objects_wire(self.preview));
        }
        assert(done == self.own_fields()) by {
            reveal(Link::own_fields);
        }
        assert(self.wire_fields() == self.own_fields())
            by {
            reveal(Link::wire_fields);
        }
    }

    /// Writes the record as an object.
    pub fn encode(&self) -> (r: Json)
        ensures
            r@ == self.wire(),
    {
        let mut fields: Vec<(String, Json)> = Vec::new();
        assert(fields_model(fields@) =~= Seq::empty());
        self.encode_into(&mut fields);
        assert(Seq::empty() + self.wire_fields() =~= self.wire_fields());
        Json::Object(fields)
    }
}

impl Payload for Link {
    open spec fn payload_fields(&self) -> Fields {
        self.wire_fields()
    }

    open spec fn payload_normal(j: JsonModel) -> Result<Fields, Failure> {
        normal_record(Layout::Link, j)
    }

    fn read_payload(j: &Json) -> (r: Result<Link, CodecError>) {
        Link::decode(j)
    }

    fn write_payload(&self, out: &mut Vec<(String, Json)>) {
        self.encode_into(out)
    }
}

/// Something that an actor does or did.
///
/// Its own fields are written first; after them come the fields of the
/// object that it extends, at the same level.
#[derive(Debug, PartialEq)]
pub struct Activity {
    actor: Option<PropActor>,
    object: Option<PropObject>,
    target: Option<PropTarget>,
    result: Option<PropResult>,
    origin: Option<PropOrigin>,
    instrument: Option<PropInstrument>,
    object_fields: Object,
}

impl Activity {
    /// The fields that the record declares itself, as they are written.
    #[verifier::opaque]
    pub closed spec fn own_fields(&self) -> Fields
        decreases self, 3nat,
    {
        seq![
            ("actor"@, objects_wire(self.actor)),
            ("object"@, objects_wire(self.object)),
            ("target"@, objects_wire(self.target)),
            ("result"@, objects_wire(self.result)),
            ("origin"@, objects_wire(self.origin)),
            ("instrument"@, objects_wire(self.instrument)),
        ]
    }

    /// All fields of the record at one level: its own, then those it takes
    /// over.
    #[verifier::opaque]
    pub closed spec fn wire_fields(&self) -> Fields
        decreases self, 4nat,
    {
        self.own_fields() + self.object_fields.wire_fields()
    }

    /// The object that the record is written as.
    pub open spec fn wire(&self) -> JsonModel {
        JsonModel::Object(self.wire_fields())
    }

    /// The record is written flat: under the keys that its layout declares
    /// and then under the keys of the layouts that it takes fields over from,
    /// all at one level.
    pub proof fn law_written_flat(&self)
        ensures
            field_keys(self.wire_fields()) == layout_keys(Layout::Activity),
        decreases depth(Layout::Activity),
    {
        reveal(Activity::own_fields);
        reveal(Activity::wire_fields);
        reveal(Object::wire_fields);
        lemma_own_activity();
        lemma_layout_keys(Layout::Activity);
        assert(field_keys(self.own_fields()) =~= own_keys(Layout::Activity));
        self.object_fields.law_written_flat();
        lemma_keys_appended(self.own_fields(), self.object_fields.wire_fields());
    }

    /// Reads the record from the fields of an object. Each field is looked up
    /// by its name; fields that the record does not know are passed over.
    pub fn decode(j: &Json) -> (r: Result<Activity, CodecError>)
        ensures
            match r {
                Ok(value) => normal_record(Layout::Activity, j@) == NormalFields::Ok(
                    value.wire_fields(),
                ),
                Err(e) => normal_record(Layout::Activity, j@) == NormalFields::Err(e@),
            },
        decreases j@, 2nat, 1nat,
    {
        match j {
            Json::Object(_) => {},
            _ => {
                proof {
                    lemma_record_refused(Layout::Activity, j@);
                }
                return Err(CodecError::at_root(ErrorKind::FieldTypeMismatch));
            },
        }
        proof {
            lemma_own_activity();
            lemma_own_start(Layout::Activity, j@);
        }
        let actor = match read_objects(j, "actor") {
            Ok(value) => value,
            Err(e) => {
                proof {
                    lemma_field_fails(Layout::Activity, j@, 0, e@);
                }
                return Err(e);
            },
        };
        proof {
            lemma_field_read(Layout::Activity, j@, 0);
        }
        let object = match read_objects(j, "object") {
            Ok(value) => value,
            Err(e) => {
                proof {
                    lemma_field_fails(Layout::Activity, j@, 1, e@);
                }
                return Err(e);
            },
        };
        proof {
            lemma_field_read(Layout::Activity, j@, 1);
        }
        let target = match read_objects(j, "target") {
            Ok(value) => value,
            Err(e) => {
                proof {
                    lemma_field_fails(Layout::Activity, j@, 2, e@);
                }
                return Err(e);
            },
        };
        proof {
            lemma_field_read(Layout::Activity, j@, 2);
        }
        let result = match read_objects(j, "result") {
            Ok(value) => value,
            Err(e) => {
                proof {
                    lemma_field_fails(Layout::Activity, j@, 3, e@);
                }
                return Err(e);
            },
        };
        proof {
            lemma_field_read(Layout::Activity, j@, 3);
        }
        let origin = match read_objects(j, "origin") {
            Ok(value) => value,
            Err(e) => {
                proof {
                    lemma_field_fails(Layout::Activity, j@, 4, e@);
                }
                return Err(e);
            },
        };
        proof {
            lemma_field_read(Layout::Activity, j@, 4);
        }
        let instrument = match read_objects(j, "instrument") {
            Ok(value) => value,
            Err(e) => {
                proof {
                    lemma_field_fails(Layout::Activity, j@, 5, e@);
                }
                return Err(e);
            },
        };
        proof {
            lemma_field_read(Layout::Activity, j@, 5);
            lemma_record_extended(Layout::Activity, j@);
        }
        let object_fields = match Object::decode(j) {
            Ok(value) => value,
            Err(e) => {
                return Err(e);
            },
        };
        let value = Activity {
            actor,
            object,
            target,
            result,
            origin,
            instrument,
            object_fields,
        };
        assert(normal_own(Layout::Activity, j@, 6)->Ok_0 == value.own_fields()) by {
            reveal(Activity::own_fields);
        }
        assert(value.wire_fields() == value.own_fields() + value.object_fields.wire_fields())
            by {
            reveal(Activity::wire_fields);
            reveal(Object::wire_fields);
        }
        Ok(value)
    }

    /// Appends the fields of the record to the fields of an object.
    pub fn encode_into(&self, out: &mut Vec<(String, Json)>)
        ensures
            fields_model(final(out)@) == fields_model(old(out)@) + self.wire_fields(),
        decreases self,
    {
        let ghost start = fields_model(out@);
        let ghost mut done: Fields = Seq::empty();
        proof {
            lemma_nothing_added(start);
        }
        push_field(out, "actor", write_objects(&self.actor));
        proof {
            done = lemma_added(start, done, "actor"@, objects_wire(self.actor));
        }
        push_field(out, "object", write_objects(&self.object));
        proof {
            done = lemma_added(start, done, "object"@, objects_wire(self.object));
        }
        push_field(out, "target", write_objects(&self.target));
        proof {
            done = lemma_added(start, done, "target"@, objects_wire(self.target));
        }
        push_field(out, "result", write_objects(&self.result));
        proof {
            done = lemma_added(start, done, "result"@, objects_wire(self.result));
        }
        push_field(out, "origin", write_objects(&self.origin));
        proof {
            done = lemma_added(start, done, "origin"@, objects_wire(self.origin));
        }
        push_field(out, "instrument", write_objects(&self.instrument));
        proof {
            done = lemma_added(start, done, "instrument"@, objects_wire(self.instrument));
        }
        self.object_fields.encode_into(out);
        proof {
            lemma_appended(start, done, self.object_fields.wire_fields());
        }
        assert(done == self.own_fields()) by {
            reveal(Activity::own_fields);
        }
        assert(self.wire_fields() == self.own_fields() + self.object_fields.wire_fields())
            by {
            reveal(Activity::wire_fields);
            reveal(Object::wire_fields);
        }
    }

    /// Writes the record as an object.
    pub fn encode(&self) -> (r: Json)
        ensures
            r@ == self.wire(),
    {
        let mut fields: Vec<(String, Json)> = Vec::new();
        assert(fields_model(fields@) =~= Seq::empty());
        self.encode_into(&mut fields);
        assert(Seq::empty() + self.wire_fields() =~= self.wire_fields());
        Json::Object(fields)
    }
}

impl Payload for Activity {
    open spec fn payload_fields(&self) -> Fields {
        self.wire_fields()
    }

    open spec fn payload_normal(j: JsonModel) -> Result<Fields, Failure> {
        normal_record(Layout::Activity, j)
    }

    fn read_payload(j: &Json) -> (r: Result<Activity, CodecError>) {
        Activity::decode(j)
    }

    fn write_payload(&self, out: &mut Vec<(String, Json)>) {
        self.encode_into(out)
    }
}

/// An activity that has no object.
#[derive(Debug, PartialEq)]
pub struct IntransitiveActivity(Activity);

impl IntransitiveActivity {
    /// The fields that the value is written as.
    #[verifier::opaque]
    pub closed spec fn wire_fields(&self) -> Fields
        decreases self, 5nat,
    {
        self.0.wire_fields()
    }

    /// The object that the value is written as.
    pub open spec fn wire(&self) -> JsonModel {
        JsonModel::Object(self.wire_fields())
    }

    /// The value is written flat, under the keys of its layout.
    pub proof fn law_written_flat(&self)
        ensures
            field_keys(self.wire_fields()) == layout_keys(Layout::Activity),
    {
        reveal(IntransitiveActivity::wire_fields);
        reveal(Activity::wire_fields);
        self.0.law_written_flat();
    }

    /// Reads the value from the fields of an object.
    pub fn decode(j: &Json) -> (r: Result<IntransitiveActivity, CodecError>)
        ensures
            match r {
                Ok(value) => normal_record(Layout::Activity, j@) == NormalFields::Ok(
                    value.wire_fields(),
                ),
                Err(e) => normal_record(Layout::Activity, j@) == NormalFields::Err(e@),
            },
        decreases j@, 2nat, 5nat,
    {
        proof {
            reveal(IntransitiveActivity::wire_fields);
            reveal(Activity::wire_fields);
        }
        match Activity::decode(j) {
            Ok(inner) => Ok(IntransitiveActivity(inner)),
            Err(e) => Err(e),
        }
    }

    /// Appends the fields of the value to the fields of an object.
    pub fn encode_into(&self, out: &mut Vec<(String, Json)>)
        ensures
            fields_model(final(out)@) == fields_model(old(out)@) + self.wire_fields(),
        decreases self,
    {
        proof {
            reveal(IntransitiveActivity::wire_fields);
            reveal(Activity::wire_fields);
        }
        self.0.encode_into(out);
    }

    /// Writes the value as an object.
    pub fn encode(&self) -> (r: Json)
        ensures
            r@ == self.wire(),
    {
        let mut fields: Vec<(String, Json)> = Vec::new();
        assert(fields_model(fields@) =~= Seq::empty());
        self.encode_into(&mut fields);
        assert(Seq::empty() + self.wire_fields() =~= self.wire_fields());
        Json::Object(fields)
    }
}

/// A set of objects or links.
///
/// Its own fields are written first; after them come the fields of the
/// object that it extends, at the same level.
#[allow(non_snake_case)]
#[derive(Debug, PartialEq)]
pub struct Collection {
    totalItems: Option<PropTotalItems>,
    current: Option<PropCurrent>,
    first: Option<PropFirst>,
    last: Option<PropLast>,
    items: Option<PropItems>,
    object_fields: Object,
}

impl Collection {
    /// The fields that the record declares itself, as they are written.
    #[verifier::opaque]
    pub closed spec fn own_fields(&self) -> Fields
        decreases self, 3nat,
    {
        seq![
            ("totalItems"@, count_wire(self.totalItems)),
            ("current"@, page_wire(self.current)),
            ("first"@, page_wire(self.first)),
            ("last"@, page_wire(self.last)),
            ("items"@, objects_wire(self.items)),
        ]
    }

    /// All fields of the record at one level: its own, then those it takes
    /// over.
    #[verifier::opaque]
    pub closed spec fn wire_fields(&self) -> Fields
        decreases self, 4nat,
    {
        self.own_fields() + self.object_fields.wire_fields()
    }

    /// The object that the record is written as.
    pub open spec fn wire(&self) -> JsonModel {
        JsonModel::Object(self.wire_fields())
    }

    /// The record is written flat: under the keys that its layout declares
    /// and then under the keys of the layouts that it takes fields over from,
    /// all at one level.
    pub proof fn law_written_flat(&self)
        ensures
            field_keys(self.wire_fields()) == layout_keys(Layout::Collection),
        decreases depth(Layout::Collection),
    {
        reveal(Collection::own_fields);
        reveal(Collection::wire_fields);
        reveal(Object::wire_fields);
        lemma_own_collection();
        lemma_layout_keys(Layout::Collection);
        assert(field_keys(self.own_fields()) =~= own_keys(Layout::Collection));
        self.object_fields.law_written_flat();
        lemma_keys_appended(self.own_fields(), self.object_fields.wire_fields());
    }

    /// Reads the record from the fields of an object. Each field is looked up
    /// by its name; fields that the record does not know are passed over.
    pub fn decode(j: &Json) -> (r: Result<Collection, CodecError>)
        ensures
            match r {
                Ok(value) => normal_record(Layout::Collection, j@) == NormalFields::Ok(
                    value.wire_fields(),
                ),
                Err(e) => normal_record(Layout::Collection, j@) == NormalFields::Err(e@),
            },
        decreases j@, 2nat, 1nat,
    {
        match j {
            Json::Object(_) => {},
            _ => {
                proof {
                    lemma_record_refused(Layout::Collection, j@);
                }
                return Err(CodecError::at_root(ErrorKind::FieldTypeMismatch));
            },
        }
        proof {
            lemma_own_collection();
            lemma_own_start(Layout::Collection, j@);
        }
        let total_items = match read_count(j, "totalItems") {
            Ok(value) => value,
            Err(e) => {
                proof {
                    lemma_field_fails(Layout::Collection, j@, 0, e@);
                }
                return Err(e);
            },
        };
        proof {
            lemma_field_read(Layout::Collection, j@, 0);
        }
        let current = match read_page(j, "current") {
            Ok(value) => value,
            Err(e) => {
                proof {
                    lemma_field_fails(Layout::Collection, j@, 1, e@);
                }
                return Err(e);
            },
        };
        proof {
            lemma_field_read(Layout::Collection, j@, 1);
        }
        let first = match read_page(j, "first") {
            Ok(value) => value,
            Err(e) => {
                proof {
                    lemma_field_fails(Layout::Collection, j@, 2, e@);
                }
                return Err(e);
            },
        };
        proof {
            lemma_field_read(Layout::Collection, j@, 2);
        }
        let last = match read_page(j, "last") {
            Ok(value) => value,
            Err(e) => {
                proof {
                    lemma_field_fails(Layout::Collection, j@, 3, e@);
                }
                return Err(e);
            },
        };
        proof {
            lemma_field_read(Layout::Collection, j@, 3);
        }
        let items = match read_objects(j, "items") {
            Ok(value) => value,
            Err(e) => {
                proof {
                    lemma_field_fails(Layout::Collection, j@, 4, e@);
                }
                return Err(e);
            },
        };
        proof {
            lemma_field_read(Layout::Collection, j@, 4);
            lemma_record_extended(Layout::Collection, j@);
        }
        let object_fields = match Object::decode(j) {
            Ok(value) => value,
            Err(e) => {
                return Err(e);
            },
        };
        let value = Collection {
            totalItems: total_items,
            current,
            first,
            last,
            items,
            object_fields,
        };
        assert(normal_own(Layout::Collection, j@, 5)->Ok_0 == value.own_fields()) by {
            reveal(Collection::own_fields);
        }
        assert(value.wire_fields() == value.own_fields() + value.object_fields.wire_fields())
            by {
            reveal(Collection::wire_fields);
            reveal(Object::wire_fields);
        }
        Ok(value)
    }

    /// Appends the fields of the record to the fields of an object.
    pub fn encode_into(&self, out: &mut Vec<(String, Json)>)
        ensures
            fields_model(final(out)@) == fields_model(old(out)@) + self.wire_fields(),
        decreases self,
    {
        let ghost start = fields_model(out@);
        let ghost mut done: Fields = Seq::empty();
        proof {
            lemma_nothing_added(start);
        }
        push_field(out, "totalItems", write_count(&self.totalItems));
        proof {
            done = lemma_added(start, done, "totalItems"@, count_wire(self.totalItems));
        }
        push_field(out, "current", write_page(&self.current));
        proof {
            done = lemma_added(start, done, "current"@, page_wire(self.current));
        }
        push_field(out, "first", write_page(&self.first));
        proof {
            done = lemma_added(start, done, "first"@, page_wire(self.first));
        }
        push_field(out, "last", write_page(&self.last));
        proof {
            done = lemma_added(start, done, "last"@, page_wire(self.last));
        }
        push_field(out, "items", write_objects(&self.items));
        proof {
            done = lemma_added(start, done, "items"@, objects_wire(self.items));
        }
        self.object_fields.encode_into(out);
        proof {
            lemma_appended(start, done, self.object_fields.wire_fields());
        }
        assert(done == self.own_fields()) by {
            reveal(Collection::own_fields);
        }
        assert(self.wire_fields() == self.own_fields() + self.object_fields.wire_fields())
            by {
            reveal(Collection::wire_fields);
            reveal(Object::wire_fields);
        }
    }

    /// Writes the record as an object.
    pub fn encode(&self) -> (r: Json)
        ensures
            r@ == self.wire(),
    {
        let mut fields: Vec<(String, Json)> = Vec::new();
        assert(fields_model(fields@) =~= Seq::empty());
        self.encode_into(&mut fields);
        assert(Seq::empty() + self.wire_fields() =~= self.wire_fields());
        Json::Object(fields)
    }
}

impl Payload for Collection {
    open spec fn payload_fields(&self) -> Fields {
        self.wire_fields()
    }

    open spec fn payload_normal(j: JsonModel) -> Result<Fields, Failure> {
        normal_record(Layout::Collection, j)
    }

    fn read_payload(j: &Json) -> (r: Result<Collection, CodecError>) {
        Collection::decode(j)
    }

    fn write_payload(&self, out: &mut Vec<(String, Json)>) {
        self.encode_into(out)
    }
}

/// A collection whose items are in a fixed order.
///
/// Its own fields are written first; after them come the fields of the
/// object that it extends, at the same level.
#[allow(non_snake_case)]
#[derive(Debug, PartialEq)]
pub struct OrderedCollection {
    totalItems: Option<PropTotalItems>,
    current: Option<PropCurrent>,
    first: Option<PropFirst>,
    last: Option<PropLast>,
    items: Option<PropItems>,
    orderedItems: Option<PropItems>,
    object_fields: Object,
}

impl OrderedCollection {
    /// The fields that the record declares itself, as they are written.
    #[verifier::opaque]
    pub closed spec fn own_fields(&self) -> Fields
        decreases self, 3nat,
    {
        seq![
            ("totalItems"@, count_wire(self.totalItems)),
            ("current"@, page_wire(self.current)),
            ("first"@, page_wire(self.first)),
            ("last"@, page_wire(self.last)),
            ("items"@, objects_wire(self.items)),
            ("orderedItems"@, objects_wire(self.orderedItems)),
        ]
    }

    /// All fields of the record at one level: its own, then those it takes
    /// over.
    #[verifier::opaque]
    pub closed spec fn wire_fields(&self) -> Fields
        decreases self, 4nat,
    {
        self.own_fields() + self.object_fields.wire_fields()
    }

    /// The object that the record is written as.
    pub open spec fn wire(&self) -> JsonModel {
        JsonModel::Object(self.wire_fields())
    }

    /// The record is written flat: under the keys that its layout declares
    /// and then under the keys of the layouts that it takes fields over from,
    /// all at one level.
    pub proof fn law_written_flat(&self)
        ensures
            field_keys(self.wire_fields()) == layout_keys(Layout::OrderedCollection),
        decreases depth(Layout::OrderedCollection),
    {
        reveal(OrderedCollection::own_fields);
        reveal(OrderedCollection::wire_fields);
        reveal(Object::wire_fields);
        lemma_own_ordered_collection();
        lemma_layout_keys(Layout::OrderedCollection);
        assert(field_keys(self.own_fields()) =~= own_keys(Layout::OrderedCollection));
        self.object_fields.law_written_flat();
        lemma_keys_appended(self.own_fields(), self.object_fields.wire_fields());
    }

    /// Reads the record from the fields of an object. Each field is looked up
    /// by its name; fields that the record does not know are passed over.
    pub fn decode(j: &Json) -> (r: Result<OrderedCollection, CodecError>)
        ensures
            match r {
                Ok(value) => normal_record(Layout::OrderedCollection, j@) == NormalFields::Ok(
                    value.wire_fields(),
                ),
                Err(e) => normal_record(Layout::OrderedCollection, j@) == NormalFields::Err(e@),
            },
        decreases j@, 2nat, 1nat,
    {
        match j {
            Json::Object(_) => {},
            _ => {
                proof {
                    lemma_record_refused(Layout::OrderedCollection, j@);
                }
                return Err(CodecError::at_root(ErrorKind::FieldTypeMismatch));
            },
        }
        proof {
            lemma_own_ordered_collection();
            lemma_own_start(Layout::OrderedCollection, j@);
        }
        let total_items = match read_count(j, "totalItems") {
            Ok(value) => value,
            Err(e) => {
                proof {
                    lemma_field_fails(Layout::OrderedCollection, j@, 0, e@);
                }
                return Err(e);
            },
        };
        proof {
            lemma_field_read(Layout::OrderedCollection, j@, 0);
        }
        let current = match read_page(j, "current") {
            Ok(value) => value,
            Err(e) => {
                proof {
                    lemma_field_fails(Layout::OrderedCollection, j@, 1, e@);
                }
                return Err(e);
            },
        };
        proof {
            lemma_field_read(Layout::OrderedCollection, j@, 1);
        }
        let first = match read_page(j, "first") {
            Ok(value) => value,
            Err(e) => {
                proof {
                    lemma_field_fails(Layout::OrderedCollection, j@, 2, e@);
                }
                return Err(e);
            },
        };
        proof {
            lemma_field_read(Layout::OrderedCollection, j@, 2);
        }
        let last = match read_page(j, "last") {
            Ok(value) => value,
            Err(e) => {
                proof {
                    lemma_field_fails(Layout::OrderedCollection, j@, 3, e@);
                }
                return Err(e);
            },
        };
        proof {
            lemma_field_read(Layout::OrderedCollection, j@, 3);
        }
        let items = match read_objects(j, "items") {
            Ok(value) => value,
            Err(e) => {
                proof {
                    lemma_field_fails(Layout::OrderedCollection, j@, 4, e@);
                }
                return Err(e);
            },
        };
        proof {
            lemma_field_read(Layout::OrderedCollection, j@, 4);
        }
        let ordered_items = match read_objects(j, "orderedItems") {
            Ok(value) => value,
            Err(e) => {
                proof {
                    lemma_field_fails(Layout::OrderedCollection, j@, 5, e@);
                }
                return Err(e);
            },
        };
        proof {
            lemma_field_read(Layout::OrderedCollection, j@, 5);
            lemma_record_extended(Layout::OrderedCollection, j@);
        }
        let object_fields = match Object::decode(j) {
            Ok(value) => value,
            Err(e) => {
                return Err(e);
            },
        };
        let value = OrderedCollection {
            totalItems: total_items,
            current,
            first,
            last,
            items,
            orderedItems: ordered_items,
            object_fields,
        };
        assert(normal_own(Layout::OrderedCollection, j@, 6)->Ok_0 == value.own_fields()) by {
            reveal(OrderedCollection::own_fields);
        }
        assert(value.wire_fields() == value.own_fields() + value.object_fields.wire_fields())
            by {
            reveal(OrderedCollection::wire_fields);
            reveal(Object::wire_fields);
        }
        Ok(value)
    }

    /// Appends the fields of the record to the fields of an object.
    pub fn encode_into(&self, out: &mut Vec<(String, Json)>)
        ensures
            fields_model(final(out)@) == fields_model(old(out)@) + self.wire_fields(),
        decreases self,
    {
        let ghost start = fields_model(out@);
        let ghost mut done: Fields = Seq::empty();
        proof {
            lemma_nothing_added(start);
        }
        push_field(out, "totalItems", write_count(&self.totalItems));
        proof {
            done = lemma_added(start, done, "totalItems"@, count_wire(self.totalItems));
        }
        push_field(out, "current", write_page(&self.current));
        proof {
            done = lemma_added(start, done, "current"@, page_wire(self.current));
        }
        push_field(out, "first", write_page(&self.first));
        proof {
            done = lemma_added(start, done, "first"@, page_wire(self.first));
        }
        push_field(out, "last", write_page(&self.last));
        proof {
            done = lemma_added(start, done, "last"@, page_wire(self.last));
        }
        push_field(out, "items", write_objects(&self.items));
        proof {
            done = lemma_added(start, done, "items"@, objects_wire(self.items));
        }
        push_field(out, "orderedItems", write_objects(&self.orderedItems));
        proof {
            done = lemma_added(start, done, "orderedItems"@, objects_wire(self.orderedItems));
        }
        self.object_fields.encode_into(out);
        proof {
            lemma_appended(start, done, self.object_fields.wire_fields());
        }
        assert(done == self.own_fields()) by {
            reveal(OrderedCollection::own_fields);
        }
        assert(self.wire_fields() == self.own_fields() + self.object_fields.wire_fields())
            by {
            reveal(OrderedCollection::wire_fields);
            reveal(Object::wire_fields);
        }
    }

    /// Writes the record as an object.
    pub fn encode(&self) -> (r: Json)
        ensures
            r@ == self.wire(),
    {
        let mut fields: Vec<(String, Json)> = Vec::new();
        assert(fields_model(fields@) =~= Seq::empty());
        self.encode_into(&mut fields);
        assert(Seq::empty() + self.wire_fields() =~= self.wire_fields());
        Json::Object(fields)
    }
}

impl Payload for OrderedCollection {
    open spec fn payload_fields(&self) -> Fields {
        self.wire_fields()
    }

    open spec fn payload_normal(j: JsonModel) -> Result<Fields, Failure> {
        normal_record(Layout::OrderedCollection, j)
    }

    fn read_payload(j: &Json) -> (r: Result<OrderedCollection, CodecError>) {
        OrderedCollection::decode(j)
    }

    fn write_payload(&self, out: &mut Vec<(String, Json)>) {
        self.encode_into(out)
    }
}

/// One page of a collection.
///
/// Its own fields are written first; after them come the fields of the
/// collection that it extends, at the same level.
#[allow(non_snake_case)]
#[derive(Debug, PartialEq)]
pub struct CollectionPage {
    partOf: Option<PropPartOf>,
    next: Option<PropNext>,
    prev: Option<PropPrev>,
    collection_fields: Collection,
}

impl CollectionPage {
    /// The fields that the record declares itself, as they are written.
    #[verifier::opaque]
    pub closed spec fn own_fields(&self) -> Fields
        decreases self, 3nat,
    {
        seq![
            ("partOf"@, collection_wire(self.partOf)),
            ("next"@, page_wire(self.next)),
            ("prev"@, page_wire(self.prev)),
        ]
    }

    /// All fields of the record at one level: its own, then those it takes
    /// over.
    #[verifier::opaque]
    pub closed spec fn wire_fields(&self) -> Fields
        decreases self, 4nat,
    {
        self.own_fields() + self.collection_fields.wire_fields()
    }

    /// The object that the record is written as.
    pub open spec fn wire(&self) -> JsonModel {
        JsonModel::Object(self.wire_fields())
    }

    /// The record is written flat: under the keys that its layout declares
    /// and then under the keys of the layouts that it takes fields over from,
    /// all at one level.
    pub proof fn law_written_flat(&self)
        ensures
            field_keys(self.wire_fields()) == layout_keys(Layout::CollectionPage),
        decreases depth(Layout::CollectionPage),
    {
        reveal(CollectionPage::own_fields);
        reveal(CollectionPage::wire_fields);
        reveal(Collection::wire_fields);
        lemma_own_collection_page();
        lemma_layout_keys(Layout::CollectionPage);
        assert(field_keys(self.own_fields()) =~= own_keys(Layout::CollectionPage));
        self.collection_fields.law_written_flat();
        lemma_keys_appended(self.own_fields(), self.collection_fields.wire_fields());
    }

    /// Reads the record from the fields of an object. Each field is looked up
    /// by its name; fields that the record does not know are passed over.
    pub fn decode(j: &Json) -> (r: Result<CollectionPage, CodecError>)
        ensures
            match r {
                Ok(value) => normal_record(Layout::CollectionPage, j@) == NormalFields::Ok(
                    value.wire_fields(),
                ),
                Err(e) => normal_record(Layout::CollectionPage, j@) == NormalFields::Err(e@),
            },
        decreases j@, 2nat, 2nat,
    {
        match j {
            Json::Object(_) => {},
            _ => {
                proof {
                    lemma_record_refused(Layout::CollectionPage, j@);
                }
                return Err(CodecError::at_root(ErrorKind::FieldTypeMismatch));
            },
        }
        proof {
            lemma_own_collection_page();
            lemma_own_start(Layout::CollectionPage, j@);
        }
        let part_of = match read_collection(j, "partOf") {
            Ok(value) => value,
            Err(e) => {
                proof {
                    lemma_field_fails(Layout::CollectionPage, j@, 0, e@);
                }
                return Err(e);
            },
        };
        proof {
            lemma_field_read(Layout::CollectionPage, j@, 0);
        }
        let next = match read_page(j, "next") {
            Ok(value) => value,
            Err(e) => {
                proof {
                    lemma_field_fails(Layout::CollectionPage, j@, 1, e@);
                }
                return Err(e);
            },
        };
        proof {
            lemma_field_read(Layout::CollectionPage, j@, 1);
        }
        let prev = match read_page(j, "prev") {
            Ok(value) => value,
            Err(e) => {
                proof {
                    lemma_field_fails(Layout::CollectionPage, j@, 2, e@);
                }
                return Err(e);
            },
        };
        proof {
            lemma_field_read(Layout::CollectionPage, j@, 2);
            lemma_record_extended(Layout::CollectionPage, j@);
        }
        let collection_fields = match Collection::decode(j) {
            Ok(value) => value,
            Err(e) => {
                return Err(e);
            },
        };
        let value = CollectionPage {
            partOf: part_of,
            next,
            prev,
            collection_fields,
        };
        assert(normal_own(Layout::CollectionPage, j@, 3)->Ok_0 == value.own_fields()) by {
            reveal(CollectionPage::own_fields);
        }
        assert(value.wire_fields() == value.own_fields() + value.collection_fields.wire_fields())
            by {
            reveal(CollectionPage::wire_fields);
            reveal(Collection::wire_fields);
        }
        Ok(value)
    }

    /// Appends the fields of the record to the fields of an object.
    pub fn encode_into(&self, out: &mut Vec<(String, Json)>)
        ensures
            fields_model(final(out)@) == fields_model(old(out)@) + self.wire_fields(),
        decreases self,
    {
        let ghost start = fields_model(out@);
        let ghost mut done: Fields = Seq::empty();
        proof {
            lemma_nothing_added(start);
        }
        push_field(out, "partOf", write_collection(&self.partOf));
        proof {
            done = lemma_added(start, done, "partOf"@, collection_wire(self.partOf));
        }
        push_field(out, "next", write_page(&self.next));
        proof {
            done = lemma_added(start, done, "next"@, page_wire(self.next));
        }
        push_field(out, "prev", write_page(&self.prev));
        proof {
            done = lemma_added(start, done, "prev"@, page_wire(self.prev));
        }
        self.collection_fields.encode_into(out);
        proof {
            lemma_appended(start, done, self.collection_fields.wire_fields());
        }
        assert(done == self.own_fields()) by {
            reveal(CollectionPage::own_fields);
        }
        assert(self.wire_fields() == self.own_fields() + self.collection_fields.wire_fields())
            by {
            reveal(CollectionPage::wire_fields);
            reveal(Collection::wire_fields);
        }
    }

    /// Writes the record as an object.
    pub fn encode(&self) -> (r: Json)
        ensures
            r@ == self.wire(),
    {
        let mut fields: Vec<(String, Json)> = Vec::new();
        assert(fields_model(fields@) =~= Seq::empty());
        self.encode_into(&mut fields);
        assert(Seq::empty() + self.wire_fields() =~= self.wire_fields());
        Json::Object(fields)
    }
}

impl Payload for CollectionPage {
    open spec fn payload_fields(&self) -> Fields {
        self.wire_fields()
    }

    open spec fn payload_normal(j: JsonModel) -> Result<Fields, Failure> {
        normal_record(Layout::CollectionPage, j)
    }

    fn read_payload(j: &Json) -> (r: Result<CollectionPage, CodecError>) {
        CollectionPage::decode(j)
    }

    fn write_payload(&self, out: &mut Vec<(String, Json)>) {
        self.encode_into(out)
    }
}

/// One page of an ordered collection.
///
/// Its own fields are written first; after them come the fields of the
/// ordered collection that it extends, at the same level.
#[allow(non_snake_case)]
#[derive(Debug, PartialEq)]
pub struct OrderedCollectionPage {
    startIndex: Option<PropStartIndex>,
    partOf: Option<PropPartOf>,
    next: Option<PropNext>,
    prev: Option<PropPrev>,
    collection_fields: OrderedCollection,
}

impl OrderedCollectionPage {
    /// The fields that the record declares itself, as they are written.
    #[verifier::opaque]
    pub closed spec fn own_fields(&self) -> Fields
        decreases self, 3nat,
    {
        seq![
            ("startIndex"@, count_wire(self.startIndex)),
            ("partOf"@, collection_wire(self.partOf)),
            ("next"@, page_wire(self.next)),
            ("prev"@, page_wire(self.prev)),
        ]
    }

    /// All fields of the record at one level: its own, then those it takes
    /// over.
    #[verifier::opaque]
    pub closed spec fn wire_fields(&self) -> Fields
        decreases self, 4nat,
    {
        self.own_fields() + self.collection_fields.wire_fields()
    }

    /// The object that the record is written as.
    pub open spec fn wire(&self) -> JsonModel {
        JsonModel::Object(self.wire_fields())
    }

    /// The record is written flat: under the keys that its layout declares
    /// and then under the keys of the layouts that it takes fields over from,
    /// all at one level.
    pub proof fn law_written_flat(&self)
        ensures
            field_keys(self.wire_fields()) == layout_keys(Layout::OrderedCollectionPage),
        decreases depth(Layout::OrderedCollectionPage),
    {
        reveal(OrderedCollectionPage::own_fields);
        reveal(OrderedCollectionPage::wire_fields);
        reveal(OrderedCollection::wire_fields);
        lemma_own_ordered_collection_page();
        lemma_layout_keys(Layout::OrderedCollectionPage);
        assert(field_keys(self.own_fields()) =~= own_keys(Layout::OrderedCollectionPage));
        self.collection_fields.law_written_flat();
        lemma_keys_appended(self.own_fields(), self.collection_fields.wire_fields());
    }

    /// Reads the record from the fields of an object. Each field is looked up
    /// by its name; fields that the record does not know are passed over.
    pub fn decode(j: &Json) -> (r: Result<OrderedCollectionPage, CodecError>)
        ensures
            match r {
                Ok(value) => normal_record(Layout::OrderedCollectionPage, j@) == NormalFields::Ok(
                    value.wire_fields(),
                ),
                Err(e) => normal_record(Layout::OrderedCollectionPage, j@) == NormalFields::Err(e@),
            },
        decreases j@, 2nat, 2nat,
    {
        match j {
            Json::Object(_) => {},
            _ => {
                proof {
                    lemma_record_refused(Layout::OrderedCollectionPage, j@);
                }
                return Err(CodecError::at_root(ErrorKind::FieldTypeMismatch));
            },
        }
        proof {
            lemma_own_ordered_collection_page();
            lemma_own_start(Layout::OrderedCollectionPage, j@);
        }
        let start_index = match read_count(j, "startIndex") {
            Ok(value) => value,
            Err(e) => {
                proof {
                    lemma_field_fails(Layout::OrderedCollectionPage, j@, 0, e@);
                }
                return Err(e);
            },
        };
        proof {
            lemma_field_read(Layout::OrderedCollectionPage, j@, 0);
        }
        let part_of = match read_collection(j, "partOf") {
            Ok(value) => value,
            Err(e) => {
                proof {
                    lemma_field_fails(Layout::OrderedCollectionPage, j@, 1, e@);
                }
                return Err(e);
            },
        };
        proof {
            lemma_field_read(Layout::OrderedCollectionPage, j@, 1);
        }
        let next = match read_page(j, "next") {
            Ok(value) => value,
            Err(e) => {
                proof {
                    lemma_field_fails(Layout::OrderedCollectionPage, j@, 2, e@);
                }
                return Err(e);
            },
        };
        proof {
            lemma_field_read(Layout::OrderedCollectionPage, j@, 2);
        }
        let prev = match read_page(j, "prev") {
            Ok(value) => value,
            Err(e) => {
                proof {
                    lemma_field_fails(Layout::OrderedCollectionPage, j@, 3, e@);
                }
                return Err(e);
            },
        };
        proof {
            lemma_field_read(Layout::OrderedCollectionPage, j@, 3);
            lemma_record_extended(Layout::OrderedCollectionPage, j@);
        }
        let collection_fields = match OrderedCollection::decode(j) {
            Ok(value) => value,
            Err(e) => {
                return Err(e);
            },
        };
        let value = OrderedCollectionPage {
            startIndex: start_index,
            partOf: part_of,
            next,
            prev,
            collection_fields,
        };
        assert(normal_own(Layout::OrderedCollectionPage, j@, 4)->Ok_0 == value.own_fields()) by {
            reveal(OrderedCollectionPage::own_fields);
        }
        assert(value.wire_fields() == value.own_fields() + value.collection_fields.wire_fields())
            by {
            reveal(OrderedCollectionPage::wire_fields);
            reveal(OrderedCollection::wire_fields);
        }
        Ok(value)
    }

    /// Appends the fields of the record to the fields of an object.
    pub fn encode_into(&self, out: &mut Vec<(String, Json)>)
        ensures
            fields_model(final(out)@) == fields_model(old(out)@) + self.wire_fields(),
        decreases self,
    {
        let ghost start = fields_model(out@);
        let ghost mut done: Fields = Seq::empty();
        proof {
            lemma_nothing_added(start);
        }
        push_field(out, "startIndex", write_count(&self.startIndex));
        proof {
            done = lemma_added(start, done, "startIndex"@, count_wire(self.startIndex));
        }
        push_field(out, "partOf", write_collection(&self.partOf));
        proof {
            done = lemma_added(start, done, "partOf"@, collection_wire(self.partOf));
        }
        push_field(out, "next", write_page(&self.next));
        proof {
            done = lemma_added(start, done, "next"@, page_wire(self.next));
        }
        push_field(out, "prev", write_page(&self.prev));
        proof {
            done = lemma_added(start, done, "prev"@, page_wire(self.prev));
        }
        self.collection_fields.encode_into(out);
        proof {
            lemma_appended(start, done, self.collection_fields.wire_fields());
        }
        assert(done == self.own_fields()) by {
            reveal(OrderedCollectionPage::own_fields);
        }
        assert(self.wire_fields() == self.own_fields() + self.collection_fields.wire_fields())
            by {
            reveal(OrderedCollectionPage::wire_fields);
            reveal(OrderedCollection::wire_fields);
        }
    }

    /// Writes the record as an object.
    pub fn encode(&self) -> (r: Json)
        ensures
            r@ == self.wire(),
    {
        let mut fields: Vec<(String, Json)> = Vec::new();
        assert(fields_model(fields@) =~= Seq::empty());
        self.encode_into(&mut fields);
        assert(Seq::empty() + self.wire_fields() =~= self.wire_fields());
        Json::Object(fields)
    }
}

impl Payload for OrderedCollectionPage {
    open spec fn payload_fields(&self) -> Fields {
        self.wire_fields()
    }

    open spec fn payload_normal(j: JsonModel) -> Result<Fields, Failure> {
        normal_record(Layout::OrderedCollectionPage, j)
    }

    fn read_payload(j: &Json) -> (r: Result<OrderedCollectionPage, CodecError>) {
        OrderedCollectionPage::decode(j)
    }

    fn write_payload(&self, out: &mut Vec<(String, Json)>) {
        self.encode_into(out)
    }
}

/// The actor accepts the object.
#[derive(Debug, PartialEq)]
pub struct Accept(Activity);

impl Accept {
    /// The fields that the value is written as.
    #[verifier::opaque]
    pub closed spec fn wire_fields(&self) -> Fields
        decreases self, 5nat,
    {
        self.0.wire_fields()
    }

    /// The object that the value is written as.
    pub open spec fn wire(&self) -> JsonModel {
        JsonModel::Object(self.wire_fields())
    }

    /// The value is written flat, under the keys of its layout.
    pub proof fn law_written_flat(&self)
        ensures
            field_keys(self.wire_fields()) == layout_keys(Layout::Activity),
    {
        reveal(Accept::wire_fields);
        reveal(Activity::wire_fields);
        self.0.law_written_flat();
    }

    /// Reads the value from the fields of an object.
    pub fn decode(j: &Json) -> (r: Result<Accept, CodecError>)
        ensures
            match r {
                Ok(value) => normal_record(Layout::Activity, j@) == NormalFields::Ok(
                    value.wire_fields(),
                ),
                Err(e) => normal_record(Layout::Activity, j@) == NormalFields::Err(e@),
            },
        decreases j@, 2nat, 5nat,
    {
        proof {
            reveal(Accept::wire_fields);
            reveal(Activity::wire_fields);
        }
        match Activity::decode(j) {
            Ok(inner) => Ok(Accept(inner)),
            Err(e) => Err(e),
        }
    }

    /// Appends the fields of the value to the fields of an object.
    pub fn encode_into(&self, out: &mut Vec<(String, Json)>)
        ensures
            fields_model(final(out)@) == fields_model(old(out)@) + self.wire_fields(),
        decreases self,
    {
        proof {
            reveal(Accept::wire_fields);
            reveal(Activity::wire_fields);
        }
        self.0.encode_into(out);
    }

    /// Writes the value as an object.
    pub fn encode(&self) -> (r: Json)
        ensures
            r@ == self.wire(),
    {
        let mut fields: Vec<(String, Json)> = Vec::new();
        assert(fields_model(fields@) =~= Seq::empty());
        self.encode_into(&mut fields);
        assert(Seq::empty() + self.wire_fields() =~= self.wire_fields());
        Json::Object(fields)
    }
}

/// The actor accepts the object for now.
#[derive(Debug, PartialEq)]
pub struct TentativeAccept(Activity);

impl TentativeAccept {
    /// The fields that the value is written as.
    #[verifier::opaque]
    pub closed spec fn wire_fields(&self) -> Fields
        decreases self, 5nat,
    {
        self.0.wire_fields()
    }

    /// The object that the value is written as.
    pub open spec fn wire(&self) -> JsonModel {
        JsonModel::Object(self.wire_fields())
    }

    /// The value is written flat, under the keys of its layout.
    pub proof fn law_written_flat(&self)
        ensures
            field_keys(self.wire_fields()) == layout_keys(Layout::Activity),
    {
        reveal(TentativeAccept::wire_fields);
        reveal(Activity::wire_fields);
        self.0.law_written_flat();
    }

    /// Reads the value from the fields of an object.
    pub fn decode(j: &Json) -> (r: Result<TentativeAccept, CodecError>)
        ensures
            match r {
                Ok(value) => normal_record(Layout::Activity, j@) == NormalFields::Ok(
                    value.wire_fields(),
                ),
                Err(e) => normal_record(Layout::Activity, j@) == NormalFields::Err(e@),
            },
        decreases j@, 2nat, 5nat,
    {
        proof {
            reveal(TentativeAccept::wire_fields);
            reveal(Activity::wire_fields);
        }
        match Activity::decode(j) {
            Ok(inner) => Ok(TentativeAccept(inner)),
            Err(e) => Err(e),
        }
    }

    /// Appends the fields of the value to the fields of an object.
    pub fn encode_into(&self, out: &mut Vec<(String, Json)>)
        ensures
            fields_model(final(out)@) == fields_model(old(out)@) + self.wire_fields(),
        decreases self,
    {
        proof {
            reveal(TentativeAccept::wire_fields);
            reveal(Activity::wire_fields);
        }
        self.0.encode_into(out);
    }

    /// Writes the value as an object.
    pub fn encode(&self) -> (r: Json)
        ensures
            r@ == self.wire(),
    {
        let mut fields: Vec<(String, Json)> = Vec::new();
        assert(fields_model(fields@) =~= Seq::empty());
        self.encode_into(&mut fields);
        assert(Seq::empty() + self.wire_fields() =~= self.wire_fields());
        Json::Object(fields)
    }
}

/// The actor adds the object to the target.
#[derive(Debug, PartialEq)]
pub struct Add(Activity);

impl Add {
    /// The fields that the value is written as.
    #[verifier::opaque]
    pub closed spec fn wire_fields(&self) -> Fields
        decreases self, 5nat,
    {
        self.0.wire_fields()
    }

    /// The object that the value is written as.
    pub open spec fn wire(&self) -> JsonModel {
        JsonModel::Object(self.wire_fields())
    }

    /// The value is written flat, under the keys of its layout.
    pub proof fn law_written_flat(&self)
        ensures
            field_keys(self.wire_fields()) == layout_keys(Layout::Activity),
    {
        reveal(Add::wire_fields);
        reveal(Activity::wire_fields);
        self.0.law_written_flat();
    }

    /// Reads the value from the fields of an object.
    pub fn decode(j: &Json) -> (r: Result<Add, CodecError>)
        ensures
            match r {
                Ok(value) => normal_record(Layout::Activity, j@) == NormalFields::Ok(
                    value.wire_fields(),
                ),
                Err(e) => normal_record(Layout::Activity, j@) == NormalFields::Err(e@),
            },
        decreases j@, 2nat, 5nat,
    {
        proof {
            reveal(Add::wire_fields);
            reveal(Activity::wire_fields);
        }
        match Activity::decode(j) {
            Ok(inner) => Ok(Add(inner)),
            Err(e) => Err(e),
        }
    }

    /// Appends the fields of the value to the fields of an object.
    pub fn encode_into(&self, out: &mut Vec<(String, Json)>)
        ensures
            fields_model(final(out)@) == fields_model(old(out)@) + self.wire_fields(),
        decreases self,
    {
        proof {
            reveal(Add::wire_fields);
            reveal(Activity::wire_fields);
        }
        self.0.encode_into(out);
    }

    /// Writes the value as an object.
    pub fn encode(&self) -> (r: Json)
        ensures
            r@ == self.wire(),
    {
        let mut fields: Vec<(String, Json)> = Vec::new();
        assert(fields_model(fields@) =~= Seq::empty());
        self.encode_into(&mut fields);
        assert(Seq::empty() + self.wire_fields() =~= self.wire_fields());
        Json::Object(fields)
    }
}

/// The actor arrives at the location.
#[derive(Debug, PartialEq)]
pub struct Arrive(Activity);

impl Arrive {
    /// The fields that the value is written as.
    #[verifier::opaque]
    pub closed spec fn wire_fields(&self) -> Fields
        decreases self, 5nat,
    {
        self.0.wire_fields()
    }

    /// The object that the value is written as.
    pub open spec fn wire(&self) -> JsonModel {
        JsonModel::Object(self.wire_fields())
    }

    /// The value is written flat, under the keys of its layout.
    pub proof fn law_written_flat(&self)
        ensures
            field_keys(self.wire_fields()) == layout_keys(Layout::Activity),
    {
        reveal(Arrive::wire_fields);
        reveal(Activity::wire_fields);
        self.0.law_written_flat();
    }

    /// Reads the value from the fields of an object.
    pub fn decode(j: &Json) -> (r: Result<Arrive, CodecError>)
        ensures
            match r {
                Ok(value) => normal_record(Layout::Activity, j@) == NormalFields::Ok(
                    value.wire_fields(),
                ),
                Err(e) => normal_record(Layout::Activity, j@) == NormalFields::Err(e@),
            },
        decreases j@, 2nat, 5nat,
    {
        proof {
            reveal(Arrive::wire_fields);
            reveal(Activity::wire_fields);
        }
        match Activity::decode(j) {
            Ok(inner) => Ok(Arrive(inner)),
            Err(e) => Err(e),
        }
    }

    /// Appends the fields of the value to the fields of an object.
    pub fn encode_into(&self, out: &mut Vec<(String, Json)>)
        ensures
            fields_model(final(out)@) == fields_model(old(out)@) + self.wire_fields(),
        decreases self,
    {
        proof {
            reveal(Arrive::wire_fields);
            reveal(Activity::wire_fields);
        }
        self.0.encode_into(out);
    }

    /// Writes the value as an object.
    pub fn encode(&self) -> (r: Json)
        ensures
            r@ == self.wire(),
    {
        let mut fields: Vec<(String, Json)> = Vec::new();
        assert(fields_model(fields@) =~= Seq::empty());
        self.encode_into(&mut fields);
        assert(Seq::empty() + self.wire_fields() =~= self.wire_fields());
        Json::Object(fields)
    }
}

/// The actor creates the object.
#[derive(Debug, PartialEq)]
pub struct Create(Activity);

impl Create {
    /// The fields that the value is written as.
    #[verifier::opaque]
    pub closed spec fn wire_fields(&self) -> Fields
        decreases self, 5nat,
    {
        self.0.wire_fields()
    }

    /// The object that the value is written as.
    pub open spec fn wire(&self) -> JsonModel {
        JsonModel::Object(self.wire_fields())
    }

    /// The value is written flat, under the keys of its layout.
    pub proof fn law_written_flat(&self)
        ensures
            field_keys(self.wire_fields()) == layout_keys(Layout::Activity),
    {
        reveal(Create::wire_fields);
        reveal(Activity::wire_fields);
        self.0.law_written_flat();
    }

    /// Reads the value from the fields of an object.
    pub fn decode(j: &Json) -> (r: Result<Create, CodecError>)
        ensures
            match r {
                Ok(value) => normal_record(Layout::Activity, j@) == NormalFields::Ok(
                    value.wire_fields(),
                ),
                Err(e) => normal_record(Layout::Activity, j@) == NormalFields::Err(e@),
            },
        decreases j@, 2nat, 5nat,
    {
        proof {
            reveal(Create::wire_fields);
            reveal(Activity::wire_fields);
        }
        match Activity::decode(j) {
            Ok(inner) => Ok(Create(inner)),
            Err(e) => Err(e),
        }
    }

    /// Appends the fields of the value to the fields of an object.
    pub fn encode_into(&self, out: &mut Vec<(String, Json)>)
        ensures
            fields_model(final(out)@) == fields_model(old(out)@) + self.wire_fields(),
        decreases self,
    {
        proof {
            reveal(Create::wire_fields);
            reveal(Activity::wire_fields);
        }
        self.0.encode_into(out);
    }

    /// Writes the value as an object.
    pub fn encode(&self) -> (r: Json)
        ensures
            r@ == self.wire(),
    {
        let mut fields: Vec<(String, Json)> = Vec::new();
        assert(fields_model(fields@) =~= Seq::empty());
        self.encode_into(&mut fields);
        assert(Seq::empty() + self.wire_fields() =~= self.wire_fields());
        Json::Object(fields)
    }
}

/// The actor deletes the object.
#[derive(Debug, PartialEq)]
pub struct Delete(Activity);

impl Delete {
    /// The fields that the value is written as.
    #[verifier::opaque]
    pub closed spec fn wire_fields(&self) -> Fields
        decreases self, 5nat,
    {
        self.0.wire_fields()
    }

    /// The object that the value is written as.
    pub open spec fn wire(&self) -> JsonModel {
        JsonModel::Object(self.wire_fields())
    }

    /// The value is written flat, under the keys of its layout.
    pub proof fn law_written_flat(&self)
        ensures
            field_keys(self.wire_fields()) == layout_keys(Layout::Activity),
    {
        reveal(Delete::wire_fields);
        reveal(Activity::wire_fields);
        self.0.law_written_flat();
    }

    /// Reads the value from the fields of an object.
    pub fn decode(j: &Json) -> (r: Result<Delete, CodecError>)
        ensures
            match r {
                Ok(value) => normal_record(Layout::Activity, j@) == NormalFields::Ok(
                    value.wire_fields(),
                ),
                Err(e) => normal_record(Layout::Activity, j@) == NormalFields::Err(e@),
            },
        decreases j@, 2nat, 5nat,
    {
        proof {
            reveal(Delete::wire_fields);
            reveal(Activity::wire_fields);
        }
        match Activity::decode(j) {
            Ok(inner) => Ok(Delete(inner)),
            Err(e) => Err(e),
        }
    }

    /// Appends the fields of the value to the fields of an object.
    pub fn encode_into(&self, out: &mut Vec<(String, Json)>)
        ensures
            fields_model(final(out)@) == fields_model(old(out)@) + self.wire_fields(),
        decreases self,
    {
        proof {
            reveal(Delete::wire_fields);
            reveal(Activity::wire_fields);
        }
        self.0.encode_into(out);
    }

    /// Writes the value as an object.
    pub fn encode(&self) -> (r: Json)
        ensures
            r@ == self.wire(),
    {
        let mut fields: Vec<(String, Json)> = Vec::new();
        assert(fields_model(fields@) =~= Seq::empty());
        self.encode_into(&mut fields);
        assert(Seq::empty() + self.wire_fields() =~= self.wire_fields());
        Json::Object(fields)
    }
}

/// The actor follows the object.
#[derive(Debug, PartialEq)]
pub struct Follow(Activity);

impl Follow {
    /// The fields that the value is written as.
    #[verifier::opaque]
    pub closed spec fn wire_fields(&self) -> Fields
        decreases self, 5nat,
    {
        self.0.wire_fields()
    }

    /// The object that the value is written as.
    pub open spec fn wire(&self) -> JsonModel {
        JsonModel::Object(self.wire_fields())
    }

    /// The value is written flat, under the keys of its layout.
    pub proof fn law_written_flat(&self)
        ensures
            field_keys(self.wire_fields()) == layout_keys(Layout::Activity),
    {
        reveal(Follow::wire_fields);
        reveal(Activity::wire_fields);
        self.0.law_written_flat();
    }

    /// Reads the value from the fields of an object.
    pub fn decode(j: &Json) -> (r: Result<Follow, CodecError>)
        ensures
            match r {
                Ok(value) => normal_record(Layout::Activity, j@) == NormalFields::Ok(
                    value.wire_fields(),
                ),
                Err(e) => normal_record(Layout::Activity, j@) == NormalFields::Err(e@),
            },
        decreases j@, 2nat, 5nat,
    {
        proof {
            reveal(Follow::wire_fields);
            reveal(Activity::wire_fields);
        }
        match Activity::decode(j) {
            Ok(inner) => Ok(Follow(inner)),
            Err(e) => Err(e),
        }
    }

    /// Appends the fields of the value to the fields of an object.
    pub fn encode_into(&self, out: &mut Vec<(String, Json)>)
        ensures
            fields_model(final(out)@) == fields_model(old(out)@) + self.wire_fields(),
        decreases self,
    {
        proof {
            reveal(Follow::wire_fields);
            reveal(Activity::wire_fields);
        }
        self.0.encode_into(out);
    }

    /// Writes the value as an object.
    pub fn encode(&self) -> (r: Json)
        ensures
            r@ == self.wire(),
    {
        let mut fields: Vec<(String, Json)> = Vec::new();
        assert(fields_model(fields@) =~= Seq::empty());
        self.encode_into(&mut fields);
        assert(Seq::empty() + self.wire_fields() =~= self.wire_fields());
        Json::Object(fields)
    }
}

/// The actor ignores the object.
#[derive(Debug, PartialEq)]
pub struct Ignore(Activity);

impl Ignore {
    /// The fields that the value is written as.
    #[verifier::opaque]
    pub closed spec fn wire_fields(&self) -> Fields
        decreases self, 5nat,
    {
        self.0.wire_fields()
    }

    /// The object that the value is written as.
    pub open spec fn wire(&self) -> JsonModel {
        JsonModel::Object(self.wire_fields())
    }

    /// The value is written flat, under the keys of its layout.
    pub proof fn law_written_flat(&self)
        ensures
            field_keys(self.wire_fields()) == layout_keys(Layout::Activity),
    {
        reveal(Ignore::wire_fields);
        reveal(Activity::wire_fields);
        self.0.law_written_flat();
    }

    /// Reads the value from the fields of an object.
    pub fn decode(j: &Json) -> (r: Result<Ignore, CodecError>)
        ensures
            match r {
                Ok(value) => normal_record(Layout::Activity, j@) == NormalFields::Ok(
                    value.wire_fields(),
                ),
                Err(e) => normal_record(Layout::Activity, j@) == NormalFields::Err(e@),
            },
        decreases j@, 2nat, 5nat,
    {
        proof {
            reveal(Ignore::wire_fields);
            reveal(Activity::wire_fields);
        }
        match Activity::decode(j) {
            Ok(inner) => Ok(Ignore(inner)),
            Err(e) => Err(e),
        }
    }

    /// Appends the fields of the value to the fields of an object.
    pub fn encode_into(&self, out: &mut Vec<(String, Json)>)
        ensures
            fields_model(final(out)@) == fields_model(old(out)@) + self.wire_fields(),
        decreases self,
    {
        proof {
            reveal(Ignore::wire_fields);
            reveal(Activity::wire_fields);
        }
        self.0.encode_into(out);
    }

    /// Writes the value as an object.
    pub fn encode(&self) -> (r: Json)
        ensures
            r@ == self.wire(),
    {
        let mut fields: Vec<(String, Json)> = Vec::new();
        assert(fields_model(fields@) =~= Seq::empty());
        self.encode_into(&mut fields);
        assert(Seq::empty() + self.wire_fields() =~= self.wire_fields());
        Json::Object(fields)
    }
}

/// The actor joins the object.
#[derive(Debug, PartialEq)]
pub struct Join(Activity);

impl Join {
    /// The fields that the value is written as.
    #[verifier::opaque]
    pub closed spec fn wire_fields(&self) -> Fields
        decreases self, 5nat,
    {
        self.0.wire_fields()
    }

    /// The object that the value is written as.
    pub open spec fn wire(&self) -> JsonModel {
        JsonModel::Object(self.wire_fields())
    }

    /// The value is written flat, under the keys of its layout.
    pub proof fn law_written_flat(&self)
        ensures
            field_keys(self.wire_fields()) == layout_keys(Layout::Activity),
    {
        reveal(Join::wire_fields);
        reveal(Activity::wire_fields);
        self.0.law_written_flat();
    }

    /// Reads the value from the fields of an object.
    pub fn decode(j: &Json) -> (r: Result<Join, CodecError>)
        ensures
            match r {
                Ok(value) => normal_record(Layout::Activity, j@) == NormalFields::Ok(
                    value.wire_fields(),
                ),
                Err(e) => normal_record(Layout::Activity, j@) == NormalFields::Err(e@),
            },
        decreases j@, 2nat, 5nat,
    {
        proof {
            reveal(Join::wire_fields);
            reveal(Activity::wire_fields);
        }
        match Activity::decode(j) {
            Ok(inner) => Ok(Join(inner)),
            Err(e) => Err(e),
        }
    }

    /// Appends the fields of the value to the fields of an object.
    pub fn encode_into(&self, out: &mut Vec<(String, Json)>)
        ensures
            fields_model(final(out)@) == fields_model(old(out)@) + self.wire_fields(),
        decreases self,
    {
        proof {
            reveal(Join::wire_fields);
            reveal(Activity::wire_fields);
        }
        self.0.encode_into(out);
    }

    /// Writes the value as an object.
    pub fn encode(&self) -> (r: Json)
        ensures
            r@ == self.wire(),
    {
        let mut fields: Vec<(String, Json)> = Vec::new();
        assert(fields_model(fields@) =~= Seq::empty());
        self.encode_into(&mut fields);
        assert(Seq::empty() + self.wire_fields() =~= self.wire_fields());
        Json::Object(fields)
    }
}

/// The actor leaves the object.
#[derive(Debug, PartialEq)]
pub struct Leave(Activity);

impl Leave {
    /// The fields that the value is written as.
    #[verifier::opaque]
    pub closed spec fn wire_fields(&self) -> Fields
        decreases self, 5nat,
    {
        self.0.wire_fields()
    }

    /// The object that the value is written as.
    pub open spec fn wire(&self) -> JsonModel {
        JsonModel::Object(self.wire_fields())
    }

    /// The value is written flat, under the keys of its layout.
    pub proof fn law_written_flat(&self)
        ensures
            field_keys(self.wire_fields()) == layout_keys(Layout::Activity),
    {
        reveal(Leave::wire_fields);
        reveal(Activity::wire_fields);
        self.0.law_written_flat();
    }

    /// Reads the value from the fields of an object.
    pub fn decode(j: &Json) -> (r: Result<Leave, CodecError>)
        ensures
            match r {
                Ok(value) => normal_record(Layout::Activity, j@) == NormalFields::Ok(
                    value.wire_fields(),
                ),
                Err(e) => normal_record(Layout::Activity, j@) == NormalFields::Err(e@),
            },
        decreases j@, 2nat, 5nat,
    {
        proof {
            reveal(Leave::wire_fields);
            reveal(Activity::wire_fields);
        }
        match Activity::decode(j) {
            Ok(inner) => Ok(Leave(inner)),
            Err(e) => Err(e),
        }
    }

    /// Appends the fields of the value to the fields of an object.
    pub fn encode_into(&self, out: &mut Vec<(String, Json)>)
        ensures
            fields_model(final(out)@) == fields_model(old(out)@) + self.wire_fields(),
        decreases self,
    {
        proof {
            reveal(Leave::wire_fields);
            reveal(Activity::wire_fields);
        }
        self.0.encode_into(out);
    }

    /// Writes the value as an object.
    pub fn encode(&self) -> (r: Json)
        ensures
            r@ == self.wire(),
    {
        let mut fields: Vec<(String, Json)> = Vec::new();
        assert(fields_model(fields@) =~= Seq::empty());
        self.encode_into(&mut fields);
        assert(Seq::empty() + self.wire_fields() =~= self.wire_fields());
        Json::Object(fields)
    }
}

/// The actor likes the object.
#[derive(Debug, PartialEq)]
pub struct Like(Activity);

impl Like {
    /// The fields that the value is written as.
    #[verifier::opaque]
    pub closed spec fn wire_fields(&self) -> Fields
        decreases self, 5nat,
    {
        self.0.wire_fields()
    }

    /// The object that the value is written as.
    pub open spec fn wire(&self) -> JsonModel {
        JsonModel::Object(self.wire_fields())
    }

    /// The value is written flat, under the keys of its layout.
    pub proof fn law_written_flat(&self)
        ensures
            field_keys(self.wire_fields()) == layout_keys(Layout::Activity),
    {
        reveal(Like::wire_fields);
        reveal(Activity::wire_fields);
        self.0.law_written_flat();
    }

    /// Reads the value from the fields of an object.
    pub fn decode(j: &Json) -> (r: Result<Like, CodecError>)
        ensures
            match r {
                Ok(value) => normal_record(Layout::Activity, j@) == NormalFields::Ok(
                    value.wire_fields(),
                ),
                Err(e) => normal_record(Layout::Activity, j@) == NormalFields::Err(e@),
            },
        decreases j@, 2nat, 5nat,
    {
        proof {
            reveal(Like::wire_fields);
            reveal(Activity::wire_fields);
        }
        match Activity::decode(j) {
            Ok(inner) => Ok(Like(inner)),
            Err(e) => Err(e),
        }
    }

    /// Appends the fields of the value to the fields of an object.
    pub fn encode_into(&self, out: &mut Vec<(String, Json)>)
        ensures
            fields_model(final(out)@) == fields_model(old(out)@) + self.wire_fields(),
        decreases self,
    {
        proof {
            reveal(Like::wire_fields);
            reveal(Activity::wire_fields);
        }
        self.0.encode_into(out);
    }

    /// Writes the value as an object.
    pub fn encode(&self) -> (r: Json)
        ensures
            r@ == self.wire(),
    {
        let mut fields: Vec<(String, Json)> = Vec::new();
        assert(fields_model(fields@) =~= Seq::empty());
        self.encode_into(&mut fields);
        assert(Seq::empty() + self.wire_fields() =~= self.wire_fields());
        Json::Object(fields)
    }
}

/// The actor offers the object.
#[derive(Debug, PartialEq)]
pub struct Offer(Activity);

impl Offer {
    /// The fields that the value is written as.
    #[verifier::opaque]
    pub closed spec fn wire_fields(&self) -> Fields
        decreases self, 5nat,
    {
        self.0.wire_fields()
    }

    /// The object that the value is written as.
    pub open spec fn wire(&self) -> JsonModel {
        JsonModel::Object(self.wire_fields())
    }

    /// The value is written flat, under the keys of its layout.
    pub proof fn law_written_flat(&self)
        ensures
            field_keys(self.wire_fields()) == layout_keys(Layout::Activity),
    {
        reveal(Offer::wire_fields);
        reveal(Activity::wire_fields);
        self.0.law_written_flat();
    }

    /// Reads the value from the fields of an object.
    pub fn decode(j: &Json) -> (r: Result<Offer, CodecError>)
        ensures
            match r {
                Ok(value) => normal_record(Layout::Activity, j@) == NormalFields::Ok(
                    value.wire_fields(),
                ),
                Err(e) => normal_record(Layout::Activity, j@) == NormalFields::Err(e@),
            },
        decreases j@, 2nat, 5nat,
    {
        proof {
            reveal(Offer::wire_fields);
            reveal(Activity::wire_fields);
        }
        match Activity::decode(j) {
            Ok(inner) => Ok(Offer(inner)),
            Err(e) => Err(e),
        }
    }

    /// Appends the fields of the value to the fields of an object.
    pub fn encode_into(&self, out: &mut Vec<(String, Json)>)
        ensures
            fields_model(final(out)@) == fields_model(old(out)@) + self.wire_fields(),
        decreases self,
    {
        proof {
            reveal(Offer::wire_fields);
            reveal(Activity::wire_fields);
        }
        self.0.encode_into(out);
    }

    /// Writes the value as an object.
    pub fn encode(&self) -> (r: Json)
        ensures
            r@ == self.wire(),
    {
        let mut fields: Vec<(String, Json)> = Vec::new();
        assert(fields_model(fields@) =~= Seq::empty());
        self.encode_into(&mut fields);
        assert(Seq::empty() + self.wire_fields() =~= self.wire_fields());
        Json::Object(fields)
    }
}

/// The actor invites the target to the object.
#[derive(Debug, PartialEq)]
pub struct Invite(Activity);

impl Invite {
    /// The fields that the value is written as.
    #[verifier::opaque]
    pub closed spec fn wire_fields(&self) -> Fields
        decreases self, 5nat,
    {
        self.0.wire_fields()
    }

    /// The object that the value is written as.
    pub open spec fn wire(&self) -> JsonModel {
        JsonModel::Object(self.wire_fields())
    }

    /// The value is written flat, under the keys of its layout.
    pub proof fn law_written_flat(&self)
        ensures
            field_keys(self.wire_fields()) == layout_keys(Layout::Activity),
    {
        reveal(Invite::wire_fields);
        reveal(Activity::wire_fields);
        self.0.law_written_flat();
    }

    /// Reads the value from the fields of an object.
    pub fn decode(j: &Json) -> (r: Result<Invite, CodecError>)
        ensures
            match r {
                Ok(value) => normal_record(Layout::Activity, j@) == NormalFields::Ok(
                    value.wire_fields(),
                ),
                Err(e) => normal_record(Layout::Activity, j@) == NormalFields::Err(e@),
            },
        decreases j@, 2nat, 5nat,
    {
        proof {
            reveal(Invite::wire_fields);
            reveal(Activity::wire_fields);
        }
        match Activity::decode(j) {
            Ok(inner) => Ok(Invite(inner)),
            Err(e) => Err(e),
        }
    }

    /// Appends the fields of the value to the fields of an object.
    pub fn encode_into(&self, out: &mut Vec<(String, Json)>)
        ensures
            fields_model(final(out)@) == fields_model(old(out)@) + self.wire_fields(),
        decreases self,
    {
        proof {
            reveal(Invite::wire_fields);
            reveal(Activity::wire_fields);
        }
        self.0.encode_into(out);
    }

    /// Writes the value as an object.
    pub fn encode(&self) -> (r: Json)
        ensures
            r@ == self.wire(),
    {
        let mut fields: Vec<(String, Json)> = Vec::new();
        assert(fields_model(fields@) =~= Seq::empty());
        self.encode_into(&mut fields);
        assert(Seq::empty() + self.wire_fields() =~= self.wire_fields());
        Json::Object(fields)
    }
}

/// The actor rejects the object.
#[derive(Debug, PartialEq)]
pub struct Reject(Activity);

impl Reject {
    /// The fields that the value is written as.
    #[verifier::opaque]
    pub closed spec fn wire_fields(&self) -> Fields
        decreases self, 5nat,
    {
        self.0.wire_fields()
    }

    /// The object that the value is written as.
    pub open spec fn wire(&self) -> JsonModel {
        JsonModel::Object(self.wire_fields())
    }

    /// The value is written flat, under the keys of its layout.
    pub proof fn law_written_flat(&self)
        ensures
            field_keys(self.wire_fields()) == layout_keys(Layout::Activity),
    {
        reveal(Reject::wire_fields);
        reveal(Activity::wire_fields);
        self.0.law_written_flat();
    }

    /// Reads the value from the fields of an object.
    pub fn decode(j: &Json) -> (r: Result<Reject, CodecError>)
        ensures
            match r {
                Ok(value) => normal_record(Layout::Activity, j@) == NormalFields::Ok(
                    value.wire_fields(),
                ),
                Err(e) => normal_record(Layout::Activity, j@) == NormalFields::Err(e@),
            },
        decreases j@, 2nat, 5nat,
    {
        proof {
            reveal(Reject::wire_fields);
            reveal(Activity::wire_fields);
        }
        match Activity::decode(j) {
            Ok(inner) => Ok(Reject(inner)),
            Err(e) => Err(e),
        }
    }

    /// Appends the fields of the value to the fields of an object.
    pub fn encode_into(&self, out: &mut Vec<(String, Json)>)
        ensures
            fields_model(final(out)@) == fields_model(old(out)@) + self.wire_fields(),
        decreases self,
    {
        proof {
            reveal(Reject::wire_fields);
            reveal(Activity::wire_fields);
        }
        self.0.encode_into(out);
    }

    /// Writes the value as an object.
    pub fn encode(&self) -> (r: Json)
        ensures
            r@ == self.wire(),
    {
        let mut fields: Vec<(String, Json)> = Vec::new();
        assert(fields_model(fields@) =~= Seq::empty());
        self.encode_into(&mut fields);
        assert(Seq::empty() + self.wire_fields() =~= self.wire_fields());
        Json::Object(fields)
    }
}

/// The actor rejects the object for now.
#[derive(Debug, PartialEq)]
pub struct TentativeReject(Activity);

impl TentativeReject {
    /// The fields that the value is written as.
    #[verifier::opaque]
    pub closed spec fn wire_fields(&self) -> Fields
        decreases self, 5nat,
    {
        self.0.wire_fields()
    }

    /// The object that the value is written as.
    pub open spec fn wire(&self) -> JsonModel {
        JsonModel::Object(self.wire_fields())
    }

    /// The value is written flat, under the keys of its layout.
    pub proof fn law_written_flat(&self)
        ensures
            field_keys(self.wire_fields()) == layout_keys(Layout::Activity),
    {
        reveal(TentativeReject::wire_fields);
        reveal(Activity::wire_fields);
        self.0.law_written_flat();
    }

    /// Reads the value from the fields of an object.
    pub fn decode(j: &Json) -> (r: Result<TentativeReject, CodecError>)
        ensures
            match r {
                Ok(value) => normal_record(Layout::Activity, j@) == NormalFields::Ok(
                    value.wire_fields(),
                ),
                Err(e) => normal_record(Layout::Activity, j@) == NormalFields::Err(e@),
            },
        decreases j@, 2nat, 5nat,
    {
        proof {
            reveal(TentativeReject::wire_fields);
            reveal(Activity::wire_fields);
        }
        match Activity::decode(j) {
            Ok(inner) => Ok(TentativeReject(inner)),
            Err(e) => Err(e),
        }
    }

    /// Appends the fields of the value to the fields of an object.
    pub fn encode_into(&self, out: &mut Vec<(String, Json)>)
        ensures
            fields_model(final(out)@) == fields_model(old(out)@) + self.wire_fields(),
        decreases self,
    {
        proof {
            reveal(TentativeReject::wire_fields);
            reveal(Activity::wire_fields);
        }
        self.0.encode_into(out);
    }

    /// Writes the value as an object.
    pub fn encode(&self) -> (r: Json)
        ensures
            r@ == self.wire(),
    {
        let mut fields: Vec<(String, Json)> = Vec::new();
        assert(fields_model(fields@) =~= Seq::empty());
        self.encode_into(&mut fields);
        assert(Seq::empty() + self.wire_fields() =~= self.wire_fields());
        Json::Object(fields)
    }
}

/// The actor removes the object from the origin.
#[derive(Debug, PartialEq)]
pub struct Remove(Activity);

impl Remove {
    /// The fields that the value is written as.
    #[verifier::opaque]
    pub closed spec fn wire_fields(&self) -> Fields
        decreases self, 5nat,
    {
        self.0.wire_fields()
    }

    /// The object that the value is written as.
    pub open spec fn wire(&self) -> JsonModel {
        JsonModel::Object(self.wire_fields())
    }

    /// The value is written flat, under the keys of its layout.
    pub proof fn law_written_flat(&self)
        ensures
            field_keys(self.wire_fields()) == layout_keys(Layout::Activity),
    {
        reveal(Remove::wire_fields);
        reveal(Activity::wire_fields);
        self.0.law_written_flat();
    }

    /// Reads the value from the fields of an object.
    pub fn decode(j: &Json) -> (r: Result<Remove, CodecError>)
        ensures
            match r {
                Ok(value) => normal_record(Layout::Activity, j@) == NormalFields::Ok(
                    value.wire_fields(),
                ),
                Err(e) => normal_record(Layout::Activity, j@) == NormalFields::Err(e@),
            },
        decreases j@, 2nat, 5nat,
    {
        proof {
            reveal(Remove::wire_fields);
            reveal(Activity::wire_fields);
        }
        match Activity::decode(j) {
            Ok(inner) => Ok(Remove(inner)),
            Err(e) => Err(e),
        }
    }

    /// Appends the fields of the value to the fields of an object.
    pub fn encode_into(&self, out: &mut Vec<(String, Json)>)
        ensures
            fields_model(final(out)@) == fields_model(old(out)@) + self.wire_fields(),
        decreases self,
    {
        proof {
            reveal(Remove::wire_fields);
            reveal(Activity::wire_fields);
        }
        self.0.encode_into(out);
    }

    /// Writes the value as an object.
    pub fn encode(&self) -> (r: Json)
        ensures
            r@ == self.wire(),
    {
        let mut fields: Vec<(String, Json)> = Vec::new();
        assert(fields_model(fields@) =~= Seq::empty());
        self.encode_into(&mut fields);
        assert(Seq::empty() + self.wire_fields() =~= self.wire_fields());
        Json::Object(fields)
    }
}

/// The actor undoes the object.
#[derive(Debug, PartialEq)]
pub struct Undo(Activity);

impl Undo {
    /// The fields that the value is written as.
    #[verifier::opaque]
    pub closed spec fn wire_fields(&self) -> Fields
        decreases self, 5nat,
    {
        self.0.wire_fields()
    }

    /// The object that the value is written as.
    pub open spec fn wire(&self) -> JsonModel {
        JsonModel::Object(self.wire_fields())
    }

    /// The value is written flat, under the keys of its layout.
    pub proof fn law_written_flat(&self)
        ensures
            field_keys(self.wire_fields()) == layout_keys(Layout::Activity),
    {
        reveal(Undo::wire_fields);
        reveal(Activity::wire_fields);
        self.0.law_written_flat();
    }

    /// Reads the value from the fields of an object.
    pub fn decode(j: &Json) -> (r: Result<Undo, CodecError>)
        ensures
            match r {
                Ok(value) => normal_record(Layout::Activity, j@) == NormalFields::Ok(
                    value.wire_fields(),
                ),
                Err(e) => normal_record(Layout::Activity, j@) == NormalFields::Err(e@),
            },
        decreases j@, 2nat, 5nat,
    {
        proof {
            reveal(Undo::wire_fields);
            reveal(Activity::wire_fields);
        }
        match Activity::decode(j) {
            Ok(inner) => Ok(Undo(inner)),
            Err(e) => Err(e),
        }
    }

    /// Appends the fields of the value to the fields of an object.
    pub fn encode_into(&self, out: &mut Vec<(String, Json)>)
        ensures
            fields_model(final(out)@) == fields_model(old(out)@) + self.wire_fields(),
        decreases self,
    {
        proof {
            reveal(Undo::wire_fields);
            reveal(Activity::wire_fields);
        }
        self.0.encode_into(out);
    }

    /// Writes the value as an object.
    pub fn encode(&self) -> (r: Json)
        ensures
            r@ == self.wire(),
    {
        let mut fields: Vec<(String, Json)> = Vec::new();
        assert(fields_model(fields@) =~= Seq::empty());
        self.encode_into(&mut fields);
        assert(Seq::empty() + self.wire_fields() =~= self.wire_fields());
        Json::Object(fields)
    }
}

/// The actor updates the object.
#[derive(Debug, PartialEq)]
pub struct Update(Activity);

impl Update {
    /// The fields that the value is written as.
    #[verifier::opaque]
    pub closed spec fn wire_fields(&self) -> Fields
        decreases self, 5nat,
    {
        self.0.wire_fields()
    }

    /// The object that the value is written as.
    pub open spec fn wire(&self) -> JsonModel {
        JsonModel::Object(self.wire_fields())
    }

    /// The value is written flat, under the keys of its layout.
    pub proof fn law_written_flat(&self)
        ensures
            field_keys(self.wire_fields()) == layout_keys(Layout::Activity),
    {
        reveal(Update::wire_fields);
        reveal(Activity::wire_fields);
        self.0.law_written_flat();
    }

    /// Reads the value from the fields of an object.
    pub fn decode(j: &Json) -> (r: Result<Update, CodecError>)
        ensures
            match r {
                Ok(value) => normal_record(Layout::Activity, j@) == NormalFields::Ok(
                    value.wire_fields(),
                ),
                Err(e) => normal_record(Layout::Activity, j@) == NormalFields::Err(e@),
            },
        decreases j@, 2nat, 5nat,
    {
        proof {
            reveal(Update::wire_fields);
            reveal(Activity::wire_fields);
        }
        match Activity::decode(j) {
            Ok(inner) => Ok(Update(inner)),
            Err(e) => Err(e),
        }
    }

    /// Appends the fields of the value to the fields of an object.
    pub fn encode_into(&self, out: &mut Vec<(String, Json)>)
        ensures
            fields_model(final(out)@) == fields_model(old(out)@) + self.wire_fields(),
        decreases self,
    {
        proof {
            reveal(Update::wire_fields);
            reveal(Activity::wire_fields);
        }
        self.0.encode_into(out);
    }

    /// Writes the value as an object.
    pub fn encode(&self) -> (r: Json)
        ensures
            r@ == self.wire(),
    {
        let mut fields: Vec<(String, Json)> = Vec::new();
        assert(fields_model(fields@) =~= Seq::empty());
        self.encode_into(&mut fields);
        assert(Seq::empty() + self.wire_fields() =~= self.wire_fields());
        Json::Object(fields)
    }
}

/// The actor views the object.
#[derive(Debug, PartialEq)]
pub struct View(Activity);

impl View {
    /// The fields that the value is written as.
    #[verifier::opaque]
    pub closed spec fn wire_fields(&self) -> Fields
        decreases self, 5nat,
    {
        self.0.wire_fields()
    }

    /// The object that the value is written as.
    pub open spec fn wire(&self) -> JsonModel {
        JsonModel::Object(self.wire_fields())
    }

    /// The value is written flat, under the keys of its layout.
    pub proof fn law_written_flat(&self)
        ensures
            field_keys(self.wire_fields()) == layout_keys(Layout::Activity),
    {
        reveal(View::wire_fields);
        reveal(Activity::wire_fields);
        self.0.law_written_flat();
    }

    /// Reads the value from the fields of an object.
    pub fn decode(j: &Json) -> (r: Result<View, CodecError>)
        ensures
            match r {
                Ok(value) => normal_record(Layout::Activity, j@) == NormalFields::Ok(
                    value.wire_fields(),
                ),
                Err(e) => normal_record(Layout::Activity, j@) == NormalFields::Err(e@),
            },
        decreases j@, 2nat, 5nat,
    {
        proof {
            reveal(View::wire_fields);
            reveal(Activity::wire_fields);
        }
        match Activity::decode(j) {
            Ok(inner) => Ok(View(inner)),
            Err(e) => Err(e),
        }
    }

    /// Appends the fields of the value to the fields of an object.
    pub fn encode_into(&self, out: &mut Vec<(String, Json)>)
        ensures
            fields_model(final(out)@) == fields_model(old(out)@) + self.wire_fields(),
        decreases self,
    {
        proof {
            reveal(View::wire_fields);
            reveal(Activity::wire_fields);
        }
        self.0.encode_into(out);
    }

    /// Writes the value as an object.
    pub fn encode(&self) -> (r: Json)
        ensures
            r@ == self.wire(),
    {
        let mut fields: Vec<(String, Json)> = Vec::new();
        assert(fields_model(fields@) =~= Seq::empty());
        self.encode_into(&mut fields);
        assert(Seq::empty() + self.wire_fields() =~= self.wire_fields());
        Json::Object(fields)
    }
}

/// The actor listens to the object.
#[derive(Debug, PartialEq)]
pub struct Listen(Activity);

impl Listen {
    /// The fields that the value is written as.
    #[verifier::opaque]
    pub closed spec fn wire_fields(&self) -> Fields
        decreases self, 5nat,
    {
        self.0.wire_fields()
    }

    /// The object that the value is written as.
    pub open spec fn wire(&self) -> JsonModel {
        JsonModel::Object(self.wire_fields())
    }

    /// The value is written flat, under the keys of its layout.
    pub proof fn law_written_flat(&self)
        ensures
            field_keys(self.wire_fields()) == layout_keys(Layout::Activity),
    {
        reveal(Listen::wire_fields);
        reveal(Activity::wire_fields);
        self.0.law_written_flat();
    }

    /// Reads the value from the fields of an object.
    pub fn decode(j: &Json) -> (r: Result<Listen, CodecError>)
        ensures
            match r {
                Ok(value) => normal_record(Layout::Activity, j@) == NormalFields::Ok(
                    value.wire_fields(),
                ),
                Err(e) => normal_record(Layout::Activity, j@) == NormalFields::Err(e@),
            },
        decreases j@, 2nat, 5nat,
    {
        proof {
            reveal(Listen::wire_fields);
            reveal(Activity::wire_fields);
        }
        match Activity::decode(j) {
            Ok(inner) => Ok(Listen(inner)),
            Err(e) => Err(e),
        }
    }

    /// Appends the fields of the value to the fields of an object.
    pub fn encode_into(&self, out: &mut Vec<(String, Json)>)
        ensures
            fields_model(final(out)@) == fields_model(old(out)@) + self.wire_fields(),
        decreases self,
    {
        proof {
            reveal(Listen::wire_fields);
            reveal(Activity::wire_fields);
        }
        self.0.encode_into(out);
    }

    /// Writes the value as an object.
    pub fn encode(&self) -> (r: Json)
        ensures
            r@ == self.wire(),
    {
        let mut fields: Vec<(String, Json)> = Vec::new();
        assert(fields_model(fields@) =~= Seq::empty());
        self.encode_into(&mut fields);
        assert(Seq::empty() + self.wire_fields() =~= self.wire_fields());
        Json::Object(fields)
    }
}

/// The actor reads the object.
#[derive(Debug, PartialEq)]
pub struct Read(Activity);

impl Read {
    /// The fields that the value is written as.
    #[verifier::opaque]
    pub closed spec fn wire_fields(&self) -> Fields
        decreases self, 5nat,
    {
        self.0.wire_fields()
    }

    /// The object that the value is written as.
    pub open spec fn wire(&self) -> JsonModel {
        JsonModel::Object(self.wire_fields())
    }

    /// The value is written flat, under the keys of its layout.
    pub proof fn law_written_flat(&self)
        ensures
            field_keys(self.wire_fields()) == layout_keys(Layout::Activity),
    {
        reveal(Read::wire_fields);
        reveal(Activity::wire_fields);
        self.0.law_written_flat();
    }

    /// Reads the value from the fields of an object.
    pub fn decode(j: &Json) -> (r: Result<Read, CodecError>)
        ensures
            match r {
                Ok(value) => normal_record(Layout::Activity, j@) == NormalFields::Ok(
                    value.wire_fields(),
                ),
                Err(e) => normal_record(Layout::Activity, j@) == NormalFields::Err(e@),
            },
        decreases j@, 2nat, 5nat,
    {
        proof {
            reveal(Read::wire_fields);
            reveal(Activity::wire_fields);
        }
        match Activity::decode(j) {
            Ok(inner) => Ok(Read(inner)),
            Err(e) => Err(e),
        }
    }

    /// Appends the fields of the value to the fields of an object.
    pub fn encode_into(&self, out: &mut Vec<(String, Json)>)
        ensures
            fields_model(final(out)@) == fields_model(old(out)@) + self.wire_fields(),
        decreases self,
    {
        proof {
            reveal(Read::wire_fields);
            reveal(Activity::wire_fields);
        }
        self.0.encode_into(out);
    }

    /// Writes the value as an object.
    pub fn encode(&self) -> (r: Json)
        ensures
            r@ == self.wire(),
    {
        let mut fields: Vec<(String, Json)> = Vec::new();
        assert(fields_model(fields@) =~= Seq::empty());
        self.encode_into(&mut fields);
        assert(Seq::empty() + self.wire_fields() =~= self.wire_fields());
        Json::Object(fields)
    }
}

/// The actor moves the object from the origin to the target.
#[derive(Debug, PartialEq)]
pub struct Move(Activity);

impl Move {
    /// The fields that the value is written as.
    #[verifier::opaque]
    pub closed spec fn wire_fields(&self) -> Fields
        decreases self, 5nat,
    {
        self.0.wire_fields()
    }

    /// The object that the value is written as.
    pub open spec fn wire(&self) -> JsonModel {
        JsonModel::Object(self.wire_fields())
    }

    /// The value is written flat, under the keys of its layout.
    pub proof fn law_written_flat(&self)
        ensures
            field_keys(self.wire_fields()) == layout_keys(Layout::Activity),
    {
        reveal(Move::wire_fields);
        reveal(Activity::wire_fields);
        self.0.law_written_flat();
    }

    /// Reads the value from the fields of an object.
    pub fn decode(j: &Json) -> (r: Result<Move, CodecError>)
        ensures
            match r {
                Ok(value) => normal_record(Layout::Activity, j@) == NormalFields::Ok(
                    value.wire_fields(),
                ),
                Err(e) => normal_record(Layout::Activity, j@) == NormalFields::Err(e@),
            },
        decreases j@, 2nat, 5nat,
    {
        proof {
            reveal(Move::wire_fields);
            reveal(Activity::wire_fields);
        }
        match Activity::decode(j) {
            Ok(inner) => Ok(Move(inner)),
            Err(e) => Err(e),
        }
    }

    /// Appends the fields of the value to the fields of an object.
    pub fn encode_into(&self, out: &mut Vec<(String, Json)>)
        ensures
            fields_model(final(out)@) == fields_model(old(out)@) + self.wire_fields(),
        decreases self,
    {
        proof {
            reveal(Move::wire_fields);
            reveal(Activity::wire_fields);
        }
        self.0.encode_into(out);
    }

    /// Writes the value as an object.
    pub fn encode(&self) -> (r: Json)
        ensures
            r@ == self.wire(),
    {
        let mut fields: Vec<(String, Json)> = Vec::new();
        assert(fields_model(fields@) =~= Seq::empty());
        self.encode_into(&mut fields);
        assert(Seq::empty() + self.wire_fields() =~= self.wire_fields());
        Json::Object(fields)
    }
}

/// The actor travels from the origin to the target.
#[derive(Debug, PartialEq)]
pub struct Travel(Activity);

impl Travel {
    /// The fields that the value is written as.
    #[verifier::opaque]
    pub closed spec fn wire_fields(&self) -> Fields
        decreases self, 5nat,
    {
        self.0.wire_fields()
    }

    /// The object that the value is written as.
    pub open spec fn wire(&self) -> JsonModel {
        JsonModel::Object(self.wire_fields())
    }

    /// The value is written flat, under the keys of its layout.
    pub proof fn law_written_flat(&self)
        ensures
            field_keys(self.wire_fields()) == layout_keys(Layout::Activity),
    {
        reveal(Travel::wire_fields);
        reveal(Activity::wire_fields);
        self.0.law_written_flat();
    }

    /// Reads the value from the fields of an object.
    pub fn decode(j: &Json) -> (r: Result<Travel, CodecError>)
        ensures
            match r {
                Ok(value) => normal_record(Layout::Activity, j@) == NormalFields::Ok(
                    value.wire_fields(),
                ),
                Err(e) => normal_record(Layout::Activity, j@) == NormalFields::Err(e@),
            },
        decreases j@, 2nat, 5nat,
    {
        proof {
            reveal(Travel::wire_fields);
            reveal(Activity::wire_fields);
        }
        match Activity::decode(j) {
            Ok(inner) => Ok(Travel(inner)),
            Err(e) => Err(e),
        }
    }

    /// Appends the fields of the value to the fields of an object.
    pub fn encode_into(&self, out: &mut Vec<(String, Json)>)
        ensures
            fields_model(final(out)@) == fields_model(old(out)@) + self.wire_fields(),
        decreases self,
    {
        proof {
            reveal(Travel::wire_fields);
            reveal(Activity::wire_fields);
        }
        self.0.encode_into(out);
    }

    /// Writes the value as an object.
    pub fn encode(&self) -> (r: Json)
        ensures
            r@ == self.wire(),
    {
        let mut fields: Vec<(String, Json)> = Vec::new();
        assert(fields_model(fields@) =~= Seq::empty());
        self.encode_into(&mut fields);
        assert(Seq::empty() + self.wire_fields() =~= self.wire_fields());
        Json::Object(fields)
    }
}

/// The actor draws attention to the object.
#[derive(Debug, PartialEq)]
pub struct Announce(Activity);

impl Announce {
    /// The fields that the value is written as.
    #[verifier::opaque]
    pub closed spec fn wire_fields(&self) -> Fields
        decreases self, 5nat,
    {
        self.0.wire_fields()
    }

    /// The object that the value is written as.
    pub open spec fn wire(&self) -> JsonModel {
        JsonModel::Object(self.wire_fields())
    }

    /// The value is written flat, under the keys of its layout.
    pub proof fn law_written_flat(&self)
        ensures
            field_keys(self.wire_fields()) == layout_keys(Layout::Activity),
    {
        reveal(Announce::wire_fields);
        reveal(Activity::wire_fields);
        self.0.law_written_flat();
    }

    /// Reads the value from the fields of an object.
    pub fn decode(j: &Json) -> (r: Result<Announce, CodecError>)
        ensures
            match r {
                Ok(value) => normal_record(Layout::Activity, j@) == NormalFields::Ok(
                    value.wire_fields(),
                ),
                Err(e) => normal_record(Layout::Activity, j@) == NormalFields::Err(e@),
            },
        decreases j@, 2nat, 5nat,
    {
        proof {
            reveal(Announce::wire_fields);
            reveal(Activity::wire_fields);
        }
        match Activity::decode(j) {
            Ok(inner) => Ok(Announce(inner)),
            Err(e) => Err(e),
        }
    }

    /// Appends the fields of the value to the fields of an object.
    pub fn encode_into(&self, out: &mut Vec<(String, Json)>)
        ensures
            fields_model(final(out)@) == fields_model(old(out)@) + self.wire_fields(),
        decreases self,
    {
        proof {
            reveal(Announce::wire_fields);
            reveal(Activity::wire_fields);
        }
        self.0.encode_into(out);
    }

    /// Writes the value as an object.
    pub fn encode(&self) -> (r: Json)
        ensures
            r@ == self.wire(),
    {
        let mut fields: Vec<(String, Json)> = Vec::new();
        assert(fields_model(fields@) =~= Seq::empty());
        self.encode_into(&mut fields);
        assert(Seq::empty() + self.wire_fields() =~= self.wire_fields());
        Json::Object(fields)
    }
}

/// The actor blocks the object.
#[derive(Debug, PartialEq)]
pub struct Block(Activity);

impl Block {
    /// The fields that the value is written as.
    #[verifier::opaque]
    pub closed spec fn wire_fields(&self) -> Fields
        decreases self, 5nat,
    {
        self.0.wire_fields()
    }

    /// The object that the value is written as.
    pub open spec fn wire(&self) -> JsonModel {
        JsonModel::Object(self.wire_fields())
    }

    /// The value is written flat, under the keys of its layout.
    pub proof fn law_written_flat(&self)
        ensures
            field_keys(self.wire_fields()) == layout_keys(Layout::Activity),
    {
        reveal(Block::wire_fields);
        reveal(Activity::wire_fields);
        self.0.law_written_flat();
    }

    /// Reads the value from the fields of an object.
    pub fn decode(j: &Json) -> (r: Result<Block, CodecError>)
        ensures
            match r {
                Ok(value) => normal_record(Layout::Activity, j@) == NormalFields::Ok(
                    value.wire_fields(),
                ),
                Err(e) => normal_record(Layout::Activity, j@) == NormalFields::Err(e@),
            },
        decreases j@, 2nat, 5nat,
    {
        proof {
            reveal(Block::wire_fields);
            reveal(Activity::wire_fields);
        }
        match Activity::decode(j) {
            Ok(inner) => Ok(Block(inner)),
            Err(e) => Err(e),
        }
    }

    /// Appends the fields of the value to the fields of an object.
    pub fn encode_into(&self, out: &mut Vec<(String, Json)>)
        ensures
            fields_model(final(out)@) == fields_model(old(out)@) + self.wire_fields(),
        decreases self,
    {
        proof {
            reveal(Block::wire_fields);
            reveal(Activity::wire_fields);
        }
        self.0.encode_into(out);
    }

    /// Writes the value as an object.
    pub fn encode(&self) -> (r: Json)
        ensures
            r@ == self.wire(),
    {
        let mut fields: Vec<(String, Json)> = Vec::new();
        assert(fields_model(fields@) =~= Seq::empty());
        self.encode_into(&mut fields);
        assert(Seq::empty() + self.wire_fields() =~= self.wire_fields());
        Json::Object(fields)
    }
}

/// The actor reports the object.
#[derive(Debug, PartialEq)]
pub struct Flag(Activity);

impl Flag {
    /// The fields that the value is written as.
    #[verifier::opaque]
    pub closed spec fn wire_fields(&self) -> Fields
        decreases self, 5nat,
    {
        self.0.wire_fields()
    }

    /// The object that the value is written as.
    pub open spec fn wire(&self) -> JsonModel {
        JsonModel::Object(self.wire_fields())
    }

    /// The value is written flat, under the keys of its layout.
    pub proof fn law_written_flat(&self)
        ensures
            field_keys(self.wire_fields()) == layout_keys(Layout::Activity),
    {
        reveal(Flag::wire_fields);
        reveal(Activity::wire_fields);
        self.0.law_written_flat();
    }

    /// Reads the value from the fields of an object.
    pub fn decode(j: &Json) -> (r: Result<Flag, CodecError>)
        ensures
            match r {
                Ok(value) => normal_record(Layout::Activity, j@) == NormalFields::Ok(
                    value.wire_fields(),
                ),
                Err(e) => normal_record(Layout::Activity, j@) == NormalFields::Err(e@),
            },
        decreases j@, 2nat, 5nat,
    {
        proof {
            reveal(Flag::wire_fields);
            reveal(Activity::wire_fields);
        }
        match Activity::decode(j) {
            Ok(inner) => Ok(Flag(inner)),
            Err(e) => Err(e),
        }
    }

    /// Appends the fields of the value to the fields of an object.
    pub fn encode_into(&self, out: &mut Vec<(String, Json)>)
        ensures
            fields_model(final(out)@) == fields_model(old(out)@) + self.wire_fields(),
        decreases self,
    {
        proof {
            reveal(Flag::wire_fields);
            reveal(Activity::wire_fields);
        }
        self.0.encode_into(out);
    }

    /// Writes the value as an object.
    pub fn encode(&self) -> (r: Json)
        ensures
            r@ == self.wire(),
    {
        let mut fields: Vec<(String, Json)> = Vec::new();
        assert(fields_model(fields@) =~= Seq::empty());
        self.encode_into(&mut fields);
        assert(Seq::empty() + self.wire_fields() =~= self.wire_fields());
        Json::Object(fields)
    }
}

/// The actor dislikes the object.
#[derive(Debug, PartialEq)]
pub struct Dislike(Activity);

impl Dislike {
    /// The fields that the value is written as.
    #[verifier::opaque]
    pub closed spec fn wire_fields(&self) -> Fields
        decreases self, 5nat,
    {
        self.0.wire_fields()
    }

    /// The object that the value is written as.
    pub open spec fn wire(&self) -> JsonModel {
        JsonModel::Object(self.wire_fields())
    }

    /// The value is written flat, under the keys of its layout.
    pub proof fn law_written_flat(&self)
        ensures
            field_keys(self.wire_fields()) == layout_keys(Layout::Activity),
    {
        reveal(Dislike::wire_fields);
        reveal(Activity::wire_fields);
        self.0.law_written_flat();
    }

    /// Reads the value from the fields of an object.
    pub fn decode(j: &Json) -> (r: Result<Dislike, CodecError>)
        ensures
            match r {
                Ok(value) => normal_record(Layout::Activity, j@) == NormalFields::Ok(
                    value.wire_fields(),
                ),
                Err(e) => normal_record(Layout::Activity, j@) == NormalFields::Err(e@),
            },
        decreases j@, 2nat, 5nat,
    {
        proof {
            reveal(Dislike::wire_fields);
            reveal(Activity::wire_fields);
        }
        match Activity::decode(j) {
            Ok(inner) => Ok(Dislike(inner)),
            Err(e) => Err(e),
        }
    }

    /// Appends the fields of the value to the fields of an object.
    pub fn encode_into(&self, out: &mut Vec<(String, Json)>)
        ensures
            fields_model(final(out)@) == fields_model(old(out)@) + self.wire_fields(),
        decreases self,
    {
        proof {
            reveal(Dislike::wire_fields);
            reveal(Activity::wire_fields);
        }
        self.0.encode_into(out);
    }

    /// Writes the value as an object.
    pub fn encode(&self) -> (r: Json)
        ensures
            r@ == self.wire(),
    {
        let mut fields: Vec<(String, Json)> = Vec::new();
        assert(fields_model(fields@) =~= Seq::empty());
        self.encode_into(&mut fields);
        assert(Seq::empty() + self.wire_fields() =~= self.wire_fields());
        Json::Object(fields)
    }
}

/// A question that is being asked.
///
/// Its own fields are written first; after them come the fields of the
/// activity that it extends, at the same level.
#[allow(non_snake_case)]
#[derive(Debug, PartialEq)]
pub struct Question {
    oneOf: Option<PropOneOf>,
    anyOf: Option<PropAnyOf>,
    closed: Option<PropClosed>,
    activity_fields: Activity,
}

impl Question {
    /// The fields that the record declares itself, as they are written.
    #[verifier::opaque]
    pub closed spec fn own_fields(&self) -> Fields
        decreases self, 3nat,
    {
        seq![
            ("oneOf"@, objects_wire(self.oneOf)),
            ("anyOf"@, objects_wire(self.anyOf)),
            ("closed"@, closed_wire(self.closed)),
        ]
    }

    /// All fields of the record at one level: its own, then those it takes
    /// over.
    #[verifier::opaque]
    pub closed spec fn wire_fields(&self) -> Fields
        decreases self, 4nat,
    {
        self.own_fields() + self.activity_fields.wire_fields()
    }

    /// The object that the record is written as.
    pub open spec fn wire(&self) -> JsonModel {
        JsonModel::Object(self.wire_fields())
    }

    /// The record is written flat: under the keys that its layout declares
    /// and then under the keys of the layouts that it takes fields over from,
    /// all at one level.
    pub proof fn law_written_flat(&self)
        ensures
            field_keys(self.wire_fields()) == layout_keys(Layout::Question),
        decreases depth(Layout::Question),
    {
        reveal(Question::own_fields);
        reveal(Question::wire_fields);
        reveal(Activity::wire_fields);
        lemma_own_question();
        lemma_layout_keys(Layout::Question);
        assert(field_keys(self.own_fields()) =~= own_keys(Layout::Question));
        self.activity_fields.law_written_flat();
        lemma_keys_appended(self.own_fields(), self.activity_fields.wire_fields());
    }

    /// Reads the record from the fields of an object. Each field is looked up
    /// by its name; fields that the record does not know are passed over.
    pub fn decode(j: &Json) -> (r: Result<Question, CodecError>)
        ensures
            match r {
                Ok(value) => normal_record(Layout::Question, j@) == NormalFields::Ok(
                    value.wire_fields(),
                ),
                Err(e) => normal_record(Layout::Question, j@) == NormalFields::Err(e@),
            },
        decreases j@, 2nat, 2nat,
    {
        match j {
            Json::Object(_) => {},
            _ => {
                proof {
                    lemma_record_refused(Layout::Question, j@);
                }
                return Err(CodecError::at_root(ErrorKind::FieldTypeMismatch));
            },
        }
        proof {
            lemma_own_question();
            lemma_own_start(Layout::Question, j@);
        }
        let one_of = match read_objects(j, "oneOf") {
            Ok(value) => value,
            Err(e) => {
                proof {
                    lemma_field_fails(Layout::Question, j@, 0, e@);
                }
                return Err(e);
            },
        };
        proof {
            lemma_field_read(Layout::Question, j@, 0);
        }
        let any_of = match read_objects(j, "anyOf") {
            Ok(value) => value,
            Err(e) => {
                proof {
                    lemma_field_fails(Layout::Question, j@, 1, e@);
                }
                return Err(e);
            },
        };
        proof {
            lemma_field_read(Layout::Question, j@, 1);
        }
        let closed = match read_closed(j, "closed") {
            Ok(value) => value,
            Err(e) => {
                proof {
                    lemma_field_fails(Layout::Question, j@, 2, e@);
                }
                return Err(e);
            },
        };
        proof {
            lemma_field_read(Layout::Question, j@, 2);
            lemma_record_extended(Layout::Question, j@);
        }
        let activity_fields = match Activity::decode(j) {
            Ok(value) => value,
            Err(e) => {
                return Err(e);
            },
        };
        let value = Question {
            oneOf: one_of,
            anyOf: any_of,
            closed,
            activity_fields,
        };
        assert(normal_own(Layout::Question, j@, 3)->Ok_0 == value.own_fields()) by {
            reveal(Question::own_fields);
        }
        assert(value.wire_fields() == value.own_fields() + value.activity_fields.wire_fields())
            by {
            reveal(Question::wire_fields);
            reveal(Activity::wire_fields);
        }
        Ok(value)
    }

    /// Appends the fields of the record to the fields of an object.
    pub fn encode_into(&self, out: &mut Vec<(String, Json)>)
        ensures
            fields_model(final(out)@) == fields_model(old(out)@) + self.wire_fields(),
        decreases self,
    {
        let ghost start = fields_model(out@);
        let ghost mut done: Fields = Seq::empty();
        proof {
            lemma_nothing_added(start);
        }
        push_field(out, "oneOf", write_objects(&self.oneOf));
        proof {
            done = lemma_added(start, done, "oneOf"@, objects_wire(self.oneOf));
        }
        push_field(out, "anyOf", write_objects(&self.anyOf));
        proof {
            done = lemma_added(start, done, "anyOf"@, objects_wire(self.anyOf));
        }
        push_field(out, "closed", write_closed(&self.closed));
        proof {
            done = lemma_added(start, done, "closed"@, closed_wire(self.closed));
        }
        self.activity_fields.encode_into(out);
        proof {
            lemma_appended(start, done, self.activity_fields.wire_fields());
        }
        assert(done == self.own_fields()) by {
            reveal(Question::own_fields);
        }
        assert(self.wire_fields() == self.own_fields() + self.activity_fields.wire_fields())
            by {
            reveal(Question::wire_fields);
            reveal(Activity::wire_fields);
        }
    }

    /// Writes the record as an object.
    pub fn encode(&self) -> (r: Json)
        ensures
            r@ == self.wire(),
    {
        let mut fields: Vec<(String, Json)> = Vec::new();
        assert(fields_model(fields@) =~= Seq::empty());
        self.encode_into(&mut fields);
        assert(Seq::empty() + self.wire_fields() =~= self.wire_fields());
        Json::Object(fields)
    }
}

impl Payload for Question {
    open spec fn payload_fields(&self) -> Fields {
        self.wire_fields()
    }

    open spec fn payload_normal(j: JsonModel) -> Result<Fields, Failure> {
        normal_record(Layout::Question, j)
    }

    fn read_payload(j: &Json) -> (r: Result<Question, CodecError>) {
        Question::decode(j)
    }

    fn write_payload(&self, out: &mut Vec<(String, Json)>) {
        self.encode_into(out)
    }
}

/// A software application.
#[derive(Debug, PartialEq)]
pub struct Application(Object);

impl Application {
    /// The fields that the value is written as.
    #[verifier::opaque]
    pub closed spec fn wire_fields(&self) -> Fields
        decreases self, 5nat,
    {
        self.0.wire_fields()
    }

    /// The object that the value is written as.
    pub open spec fn wire(&self) -> JsonModel {
        JsonModel::Object(self.wire_fields())
    }

    /// The value is written flat, under the keys of its layout.
    pub proof fn law_written_flat(&self)
        ensures
            field_keys(self.wire_fields()) == layout_keys(Layout::Object),
    {
        reveal(Application::wire_fields);
        reveal(Object::wire_fields);
        self.0.law_written_flat();
    }

    /// Reads the value from the fields of an object.
    pub fn decode(j: &Json) -> (r: Result<Application, CodecError>)
        ensures
            match r {
                Ok(value) => normal_record(Layout::Object, j@) == NormalFields::Ok(
                    value.wire_fields(),
                ),
                Err(e) => normal_record(Layout::Object, j@) == NormalFields::Err(e@),
            },
        decreases j@, 2nat, 5nat,
    {
        proof {
            reveal(Application::wire_fields);
            reveal(Object::wire_fields);
        }
        match Object::decode(j) {
            Ok(inner) => Ok(Application(inner)),
            Err(e) => Err(e),
        }
    }

    /// Appends the fields of the value to the fields of an object.
    pub fn encode_into(&self, out: &mut Vec<(String, Json)>)
        ensures
            fields_model(final(out)@) == fields_model(old(out)@) + self.wire_fields(),
        decreases self,
    {
        proof {
            reveal(Application::wire_fields);
            reveal(Object::wire_fields);
        }
        self.0.encode_into(out);
    }

    /// Writes the value as an object.
    pub fn encode(&self) -> (r: Json)
        ensures
            r@ == self.wire(),
    {
        let mut fields: Vec<(String, Json)> = Vec::new();
        assert(fields_model(fields@) =~= Seq::empty());
        self.encode_into(&mut fields);
        assert(Seq::empty() + self.wire_fields() =~= self.wire_fields());
        Json::Object(fields)
    }
}

/// A group of actors.
#[derive(Debug, PartialEq)]
pub struct Group(Object);

impl Group {
    /// The fields that the value is written as.
    #[verifier::opaque]
    pub closed spec fn wire_fields(&self) -> Fields
        decreases self, 5nat,
    {
        self.0.wire_fields()
    }

    /// The object that the value is written as.
    pub open spec fn wire(&self) -> JsonModel {
        JsonModel::Object(self.wire_fields())
    }

    /// The value is written flat, under the keys of its layout.
    pub proof fn law_written_flat(&self)
        ensures
            field_keys(self.wire_fields()) == layout_keys(Layout::Object),
    {
        reveal(Group::wire_fields);
        reveal(Object::wire_fields);
        self.0.law_written_flat();
    }

    /// Reads the value from the fields of an object.
    pub fn decode(j: &Json) -> (r: Result<Group, CodecError>)
        ensures
            match r {
                Ok(value) => normal_record(Layout::Object, j@) == NormalFields::Ok(
                    value.wire_fields(),
                ),
                Err(e) => normal_record(Layout::Object, j@) == NormalFields::Err(e@),
            },
        decreases j@, 2nat, 5nat,
    {
        proof {
            reveal(Group::wire_fields);
            reveal(Object::wire_fields);
        }
        match Object::decode(j) {
            Ok(inner) => Ok(Group(inner)),
            Err(e) => Err(e),
        }
    }

    /// Appends the fields of the value to the fields of an object.
    pub fn encode_into(&self, out: &mut Vec<(String, Json)>)
        ensures
            fields_model(final(out)@) == fields_model(old(out)@) + self.wire_fields(),
        decreases self,
    {
        proof {
            reveal(Group::wire_fields);
            reveal(Object::wire_fields);
        }
        self.0.encode_into(out);
    }

    /// Writes the value as an object.
    pub fn encode(&self) -> (r: Json)
        ensures
            r@ == self.wire(),
    {
        let mut fields: Vec<(String, Json)> = Vec::new();
        assert(fields_model(fields@) =~= Seq::empty());
        self.encode_into(&mut fields);
        assert(Seq::empty() + self.wire_fields() =~= self.wire_fields());
        Json::Object(fields)
    }
}

/// An organization.
#[derive(Debug, PartialEq)]
pub struct Organization(Object);

impl Organization {
    /// The fields that the value is written as.
    #[verifier::opaque]
    pub closed spec fn wire_fields(&self) -> Fields
        decreases self, 5nat,
    {
        self.0.wire_fields()
    }

    /// The object that the value is written as.
    pub open spec fn wire(&self) -> JsonModel {
        JsonModel::Object(self.wire_fields())
    }

    /// The value is written flat, under the keys of its layout.
    pub proof fn law_written_flat(&self)
        ensures
            field_keys(self.wire_fields()) == layout_keys(Layout::Object),
    {
        reveal(Organization::wire_fields);
        reveal(Object::wire_fields);
        self.0.law_written_flat();
    }

    /// Reads the value from the fields of an object.
    pub fn decode(j: &Json) -> (r: Result<Organization, CodecError>)
        ensures
            match r {
                Ok(value) => normal_record(Layout::Object, j@) == NormalFields::Ok(
                    value.wire_fields(),
                ),
                Err(e) => normal_record(Layout::Object, j@) == NormalFields::Err(e@),
            },
        decreases j@, 2nat, 5nat,
    {
        proof {
            reveal(Organization::wire_fields);
            reveal(Object::wire_fields);
        }
        match Object::decode(j) {
            Ok(inner) => Ok(Organization(inner)),
            Err(e) => Err(e),
        }
    }

    /// Appends the fields of the value to the fields of an object.
    pub fn encode_into(&self, out: &mut Vec<(String, Json)>)
        ensures
            fields_model(final(out)@) == fields_model(old(out)@) + self.wire_fields(),
        decreases self,
    {
        proof {
            reveal(Organization::wire_fields);
            reveal(Object::wire_fields);
        }
        self.0.encode_into(out);
    }

    /// Writes the value as an object.
    pub fn encode(&self) -> (r: Json)
        ensures
            r@ == self.wire(),
    {
        let mut fields: Vec<(String, Json)> = Vec::new();
        assert(fields_model(fields@) =~= Seq::empty());
        self.encode_into(&mut fields);
        assert(Seq::empty() + self.wire_fields() =~= self.wire_fields());
        Json::Object(fields)
    }
}

/// An individual person.
#[derive(Debug, PartialEq)]
pub struct Person(Object);

impl Person {
    /// The fields that the value is written as.
    #[verifier::opaque]
    pub closed spec fn wire_fields(&self) -> Fields
        decreases self, 5nat,
    {
        self.0.wire_fields()
    }

    /// The object that the value is written as.
    pub open spec fn wire(&self) -> JsonModel {
        JsonModel::Object(self.wire_fields())
    }

    /// The value is written flat, under the keys of its layout.
    pub proof fn law_written_flat(&self)
        ensures
            field_keys(self.wire_fields()) == layout_keys(Layout::Object),
    {
        reveal(Person::wire_fields);
        reveal(Object::wire_fields);
        self.0.law_written_flat();
    }

    /// Reads the value from the fields of an object.
    pub fn decode(j: &Json) -> (r: Result<Person, CodecError>)
        ensures
            match r {
                Ok(value) => normal_record(Layout::Object, j@) == NormalFields::Ok(
                    value.wire_fields(),
                ),
                Err(e) => normal_record(Layout::Object, j@) == NormalFields::Err(e@),
            },
        decreases j@, 2nat, 5nat,
    {
        proof {
            reveal(Person::wire_fields);
            reveal(Object::wire_fields);
        }
        match Object::decode(j) {
            Ok(inner) => Ok(Person(inner)),
            Err(e) => Err(e),
        }
    }

    /// Appends the fields of the value to the fields of an object.
    pub fn encode_into(&self, out: &mut Vec<(String, Json)>)
        ensures
            fields_model(final(out)@) == fields_model(old(out)@) + self.wire_fields(),
        decreases self,
    {
        proof {
            reveal(Person::wire_fields);
            reveal(Object::wire_fields);
        }
        self.0.encode_into(out);
    }

    /// Writes the value as an object.
    pub fn encode(&self) -> (r: Json)
        ensures
            r@ == self.wire(),
    {
        let mut fields: Vec<(String, Json)> = Vec::new();
        assert(fields_model(fields@) =~= Seq::empty());
        self.encode_into(&mut fields);
        assert(Seq::empty() + self.wire_fields() =~= self.wire_fields());
        Json::Object(fields)
    }
}

/// A service of any kind.
#[derive(Debug, PartialEq)]
pub struct Service(Object);

impl Service {
    /// The fields that the value is written as.
    #[verifier::opaque]
    pub closed spec fn wire_fields(&self) -> Fields
        decreases self, 5nat,
    {
        self.0.wire_fields()
    }

    /// The object that the value is written as.
    pub open spec fn wire(&self) -> JsonModel {
        JsonModel::Object(self.wire_fields())
    }

    /// The value is written flat, under the keys of its layout.
    pub proof fn law_written_flat(&self)
        ensures
            field_keys(self.wire_fields()) == layout_keys(Layout::Object),
    {
        reveal(Service::wire_fields);
        reveal(Object::wire_fields);
        self.0.law_written_flat();
    }

    /// Reads the value from the fields of an object.
    pub fn decode(j: &Json) -> (r: Result<Service, CodecError>)
        ensures
            match r {
                Ok(value) => normal_record(Layout::Object, j@) == NormalFields::Ok(
                    value.wire_fields(),
                ),
                Err(e) => normal_record(Layout::Object, j@) == NormalFields::Err(e@),
            },
        decreases j@, 2nat, 5nat,
    {
        proof {
            reveal(Service::wire_fields);
            reveal(Object::wire_fields);
        }
        match Object::decode(j) {
            Ok(inner) => Ok(Service(inner)),
            Err(e) => Err(e),
        }
    }

    /// Appends the fields of the value to the fields of an object.
    pub fn encode_into(&self, out: &mut Vec<(String, Json)>)
        ensures
            fields_model(final(out)@) == fields_model(old(out)@) + self.wire_fields(),
        decreases self,
    {
        proof {
            reveal(Service::wire_fields);
            reveal(Object::wire_fields);
        }
        self.0.encode_into(out);
    }

    /// Writes the value as an object.
    pub fn encode(&self) -> (r: Json)
        ensures
            r@ == self.wire(),
    {
        let mut fields: Vec<(String, Json)> = Vec::new();
        assert(fields_model(fields@) =~= Seq::empty());
        self.encode_into(&mut fields);
        assert(Seq::empty() + self.wire_fields() =~= self.wire_fields());
        Json::Object(fields)
    }
}

/// A relationship between two individuals.
///
/// Its own fields are written first; after them come the fields of the
/// object that it extends, at the same level.
#[derive(Debug, PartialEq)]
pub struct Relationship {
    subject: Option<PropSubject>,
    object: Option<PropObject>,
    relationship: Option<PropRelationship>,
    object_fields: Object,
}

impl Relationship {
    /// The fields that the record declares itself, as they are written.
    #[verifier::opaque]
    pub closed spec fn own_fields(&self) -> Fields
        decreases self, 3nat,
    {
        seq![
            ("subject"@, object_wire(self.subject)),
            ("object"@, objects_wire(self.object)),
            ("relationship"@, tagged_objects_wire(self.relationship)),
        ]
    }

    /// All fields of the record at one level: its own, then those it takes
    /// over.
    #[verifier::opaque]
    pub closed spec fn wire_fields(&self) -> Fields
        decreases self, 4nat,
    {
        self.own_fields() + self.object_fields.wire_fields()
    }

    /// The object that the record is written as.
    pub open spec fn wire(&self) -> JsonModel {
        JsonModel::Object(self.wire_fields())
    }

    /// The record is written flat: under the keys that its layout declares
    /// and then under the keys of the layouts that it takes fields over from,
    /// all at one level.
    pub proof fn law_written_flat(&self)
        ensures
            field_keys(self.wire_fields()) == layout_keys(Layout::Relationship),
        decreases depth(Layout::Relationship),
    {
        reveal(Relationship::own_fields);
        reveal(Relationship::wire_fields);
        reveal(Object::wire_fields);
        lemma_own_relationship();
        lemma_layout_keys(Layout::Relationship);
        assert(field_keys(self.own_fields()) =~= own_keys(Layout::Relationship));
        self.object_fields.law_written_flat();
        lemma_keys_appended(self.own_fields(), self.object_fields.wire_fields());
    }

    /// Reads the record from the fields of an object. Each field is looked up
    /// by its name; fields that the record does not know are passed over.
    pub fn decode(j: &Json) -> (r: Result<Relationship, CodecError>)
        ensures
            match r {
                Ok(value) => normal_record(Layout::Relationship, j@) == NormalFields::Ok(
                    value.wire_fields(),
                ),
                Err(e) => normal_record(Layout::Relationship, j@) == NormalFields::Err(e@),
            },
        decreases j@, 2nat, 1nat,
    {
        match j {
            Json::Object(_) => {},
            _ => {
                proof {
                    lemma_record_refused(Layout::Relationship, j@);
                }
                return Err(CodecError::at_root(ErrorKind::FieldTypeMismatch));
            },
        }
        proof {
            lemma_own_relationship();
            lemma_own_start(Layout::Relationship, j@);
        }
        let subject = match read_object(j, "subject") {
            Ok(value) => value,
            Err(e) => {
                proof {
                    lemma_field_fails(Layout::Relationship, j@, 0, e@);
                }
                return Err(e);
            },
        };
        proof {
            lemma_field_read(Layout::Relationship, j@, 0);
        }
        let object = match read_objects(j, "object") {
            Ok(value) => value,
            Err(e) => {
                proof {
                    lemma_field_fails(Layout::Relationship, j@, 1, e@);
                }
                return Err(e);
            },
        };
        proof {
            lemma_field_read(Layout::Relationship, j@, 1);
        }
        let relationship = match read_tagged_objects(j, "relationship") {
            Ok(value) => value,
            Err(e) => {
                proof {
                    lemma_field_fails(Layout::Relationship, j@, 2, e@);
                }
                return Err(e);
            },
        };
        proof {
            lemma_field_read(Layout::Relationship, j@, 2);
            lemma_record_extended(Layout::Relationship, j@);
        }
        let object_fields = match Object::decode(j) {
            Ok(value) => value,
            Err(e) => {
                return Err(e);
            },
        };
        let value = Relationship {
            subject,
            object,
            relationship,
            object_fields,
        };
        assert(normal_own(Layout::Relationship, j@, 3)->Ok_0 == value.own_fields()) by {
            reveal(Relationship::own_fields);
        }
        assert(value.wire_fields() == value.own_fields() + value.object_fields.wire_fields())
            by {
            reveal(Relationship::wire_fields);
            reveal(Object::wire_fields);
        }
        Ok(value)
    }

    /// Appends the fields of the record to the fields of an object.
    pub fn encode_into(&self, out: &mut Vec<(String, Json)>)
        ensures
            fields_model(final(out)@) == fields_model(old(out)@) + self.wire_fields(),
        decreases self,
    {
        let ghost start = fields_model(out@);
        let ghost mut done: Fields = Seq::empty();
        proof {
            lemma_nothing_added(start);
        }
        push_field(out, "subject", write_object(&self.subject));
        proof {
            done = lemma_added(start, done, "subject"@, object_wire(self.subject));
        }
        push_field(out, "object", write_objects(&self.object));
        proof {
            done = lemma_added(start, done, "object"@, objects_wire(self.object));
        }
        push_field(out, "relationship", write_tagged_objects(&self.relationship));
        proof {
            done = lemma_added(
                start,
                done,
                "relationship"@,
                tagged_objects_wire(self.relationship),
            );
        }
        self.object_fields.encode_into(out);
        proof {
            lemma_appended(start, done, self.object_fields.wire_fields());
        }
        assert(done == self.own_fields()) by {
            reveal(Relationship::own_fields);
        }
        assert(self.wire_fields() == self.own_fields() + self.object_fields.wire_fields())
            by {
            reveal(Relationship::wire_fields);
            reveal(Object::wire_fields);
        }
    }

    /// Writes the record as an object.
    pub fn encode(&self) -> (r: Json)
        ensures
            r@ == self.wire(),
    {
        let mut fields: Vec<(String, Json)> = Vec::new();
        assert(fields_model(fields@) =~= Seq::empty());
        self.encode_into(&mut fields);
        assert(Seq::empty() + self.wire_fields() =~= self.wire_fields());
        Json::Object(fields)
    }
}

impl Payload for Relationship {
    open spec fn payload_fields(&self) -> Fields {
        self.wire_fields()
    }

    open spec fn payload_normal(j: JsonModel) -> Result<Fields, Failure> {
        normal_record(Layout::Relationship, j)
    }

    fn read_payload(j: &Json) -> (r: Result<Relationship, CodecError>) {
        Relationship::decode(j)
    }

    fn write_payload(&self, out: &mut Vec<(String, Json)>) {
        self.encode_into(out)
    }
}

/// A written work of several paragraphs.
#[derive(Debug, PartialEq)]
pub struct Article(Object);

impl Article {
    /// The fields that the value is written as.
    #[verifier::opaque]
    pub closed spec fn wire_fields(&self) -> Fields
        decreases self, 5nat,
    {
        self.0.wire_fields()
    }

    /// The object that the value is written as.
    pub open spec fn wire(&self) -> JsonModel {
        JsonModel::Object(self.wire_fields())
    }

    /// The value is written flat, under the keys of its layout.
    pub proof fn law_written_flat(&self)
        ensures
            field_keys(self.wire_fields()) == layout_keys(Layout::Object),
    {
        reveal(Article::wire_fields);
        reveal(Object::wire_fields);
        self.0.law_written_flat();
    }

    /// Reads the value from the fields of an object.
    pub fn decode(j: &Json) -> (r: Result<Article, CodecError>)
        ensures
            match r {
                Ok(value) => normal_record(Layout::Object, j@) == NormalFields::Ok(
                    value.wire_fields(),
                ),
                Err(e) => normal_record(Layout::Object, j@) == NormalFields::Err(e@),
            },
        decreases j@, 2nat, 5nat,
    {
        proof {
            reveal(Article::wire_fields);
            reveal(Object::wire_fields);
        }
        match Object::decode(j) {
            Ok(inner) => Ok(Article(inner)),
            Err(e) => Err(e),
        }
    }

    /// Appends the fields of the value to the fields of an object.
    pub fn encode_into(&self, out: &mut Vec<(String, Json)>)
        ensures
            fields_model(final(out)@) == fields_model(old(out)@) + self.wire_fields(),
        decreases self,
    {
        proof {
            reveal(Article::wire_fields);
            reveal(Object::wire_fields);
        }
        self.0.encode_into(out);
    }

    /// Writes the value as an object.
    pub fn encode(&self) -> (r: Json)
        ensures
            r@ == self.wire(),
    {
        let mut fields: Vec<(String, Json)> = Vec::new();
        assert(fields_model(fields@) =~= Seq::empty());
        self.encode_into(&mut fields);
        assert(Seq::empty() + self.wire_fields() =~= self.wire_fields());
        Json::Object(fields)
    }
}

/// A document of any kind.
#[derive(Debug, PartialEq)]
pub struct Document(Object);

impl Document {
    /// The fields that the value is written as.
    #[verifier::opaque]
    pub closed spec fn wire_fields(&self) -> Fields
        decreases self, 5nat,
    {
        self.0.wire_fields()
    }

    /// The object that the value is written as.
    pub open spec fn wire(&self) -> JsonModel {
        JsonModel::Object(self.wire_fields())
    }

    /// The value is written flat, under the keys of its layout.
    pub proof fn law_written_flat(&self)
        ensures
            field_keys(self.wire_fields()) == layout_keys(Layout::Object),
    {
        reveal(Document::wire_fields);
        reveal(Object::wire_fields);
        self.0.law_written_flat();
    }

    /// Reads the value from the fields of an object.
    pub fn decode(j: &Json) -> (r: Result<Document, CodecError>)
        ensures
            match r {
                Ok(value) => normal_record(Layout::Object, j@) == NormalFields::Ok(
                    value.wire_fields(),
                ),
                Err(e) => normal_record(Layout::Object, j@) == NormalFields::Err(e@),
            },
        decreases j@, 2nat, 5nat,
    {
        proof {
            reveal(Document::wire_fields);
            reveal(Object::wire_fields);
        }
        match Object::decode(j) {
            Ok(inner) => Ok(Document(inner)),
            Err(e) => Err(e),
        }
    }

    /// Appends the fields of the value to the fields of an object.
    pub fn encode_into(&self, out: &mut Vec<(String, Json)>)
        ensures
            fields_model(final(out)@) == fields_model(old(out)@) + self.wire_fields(),
        decreases self,
    {
        proof {
            reveal(Document::wire_fields);
            reveal(Object::wire_fields);
        }
        self.0.encode_into(out);
    }

    /// Writes the value as an object.
    pub fn encode(&self) -> (r: Json)
        ensures
            r@ == self.wire(),
    {
        let mut fields: Vec<(String, Json)> = Vec::new();
        assert(fields_model(fields@) =~= Seq::empty());
        self.encode_into(&mut fields);
        assert(Seq::empty() + self.wire_fields() =~= self.wire_fields());
        Json::Object(fields)
    }
}

/// An audio document.
#[derive(Debug, PartialEq)]
pub struct Audio(Object);

impl Audio {
    /// The fields that the value is written as.
    #[verifier::opaque]
    pub closed spec fn wire_fields(&self) -> Fields
        decreases self, 5nat,
    {
        self.0.wire_fields()
    }

    /// The object that the value is written as.
    pub open spec fn wire(&self) -> JsonModel {
        JsonModel::Object(self.wire_fields())
    }

    /// The value is written flat, under the keys of its layout.
    pub proof fn law_written_flat(&self)
        ensures
            field_keys(self.wire_fields()) == layout_keys(Layout::Object),
    {
        reveal(Audio::wire_fields);
        reveal(Object::wire_fields);
        self.0.law_written_flat();
    }

    /// Reads the value from the fields of an object.
    pub fn decode(j: &Json) -> (r: Result<Audio, CodecError>)
        ensures
            match r {
                Ok(value) => normal_record(Layout::Object, j@) == NormalFields::Ok(
                    value.wire_fields(),
                ),
                Err(e) => normal_record(Layout::Object, j@) == NormalFields::Err(e@),
            },
        decreases j@, 2nat, 5nat,
    {
        proof {
            reveal(Audio::wire_fields);
            reveal(Object::wire_fields);
        }
        match Object::decode(j) {
            Ok(inner) => Ok(Audio(inner)),
            Err(e) => Err(e),
        }
    }

    /// Appends the fields of the value to the fields of an object.
    pub fn encode_into(&self, out: &mut Vec<(String, Json)>)
        ensures
            fields_model(final(out)@) == fields_model(old(out)@) + self.wire_fields(),
        decreases self,
    {
        proof {
            reveal(Audio::wire_fields);
            reveal(Object::wire_fields);
        }
        self.0.encode_into(out);
    }

    /// Writes the value as an object.
    pub fn encode(&self) -> (r: Json)
        ensures
            r@ == self.wire(),
    {
        let mut fields: Vec<(String, Json)> = Vec::new();
        assert(fields_model(fields@) =~= Seq::empty());
        self.encode_into(&mut fields);
        assert(Seq::empty() + self.wire_fields() =~= self.wire_fields());
        Json::Object(fields)
    }
}

/// An image document.
#[derive(Debug, PartialEq)]
pub struct Image(Object);

impl Image {
    /// The fields that the value is written as.
    #[verifier::opaque]
    pub closed spec fn wire_fields(&self) -> Fields
        decreases self, 5nat,
    {
        self.0.wire_fields()
    }

    /// The object that the value is written as.
    pub open spec fn wire(&self) -> JsonModel {
        JsonModel::Object(self.wire_fields())
    }

    /// The value is written flat, under the keys of its layout.
    pub proof fn law_written_flat(&self)
        ensures
            field_keys(self.wire_fields()) == layout_keys(Layout::Object),
    {
        reveal(Image::wire_fields);
        reveal(Object::wire_fields);
        self.0.law_written_flat();
    }

    /// Reads the value from the fields of an object.
    pub fn decode(j: &Json) -> (r: Result<Image, CodecError>)
        ensures
            match r {
                Ok(value) => normal_record(Layout::Object, j@) == NormalFields::Ok(
                    value.wire_fields(),
                ),
                Err(e) => normal_record(Layout::Object, j@) == NormalFields::Err(e@),
            },
        decreases j@, 2nat, 5nat,
    {
        proof {
            reveal(Image::wire_fields);
            reveal(Object::wire_fields);
        }
        match Object::decode(j) {
            Ok(inner) => Ok(Image(inner)),
            Err(e) => Err(e),
        }
    }

    /// Appends the fields of the value to the fields of an object.
    pub fn encode_into(&self, out: &mut Vec<(String, Json)>)
        ensures
            fields_model(final(out)@) == fields_model(old(out)@) + self.wire_fields(),
        decreases self,
    {
        proof {
            reveal(Image::wire_fields);
            reveal(Object::wire_fields);
        }
        self.0.encode_into(out);
    }

    /// Writes the value as an object.
    pub fn encode(&self) -> (r: Json)
        ensures
            r@ == self.wire(),
    {
        let mut fields: Vec<(String, Json)> = Vec::new();
        assert(fields_model(fields@) =~= Seq::empty());
        self.encode_into(&mut fields);
        assert(Seq::empty() + self.wire_fields() =~= self.wire_fields());
        Json::Object(fields)
    }
}

/// A video document.
#[derive(Debug, PartialEq)]
pub struct Video(Object);

impl Video {
    /// The fields that the value is written as.
    #[verifier::opaque]
    pub closed spec fn wire_fields(&self) -> Fields
        decreases self, 5nat,
    {
        self.0.wire_fields()
    }

    /// The object that the value is written as.
    pub open spec fn wire(&self) -> JsonModel {
        JsonModel::Object(self.wire_fields())
    }

    /// The value is written flat, under the keys of its layout.
    pub proof fn law_written_flat(&self)
        ensures
            field_keys(self.wire_fields()) == layout_keys(Layout::Object),
    {
        reveal(Video::wire_fields);
        reveal(Object::wire_fields);
        self.0.law_written_flat();
    }

    /// Reads the value from the fields of an object.
    pub fn decode(j: &Json) -> (r: Result<Video, CodecError>)
        ensures
            match r {
                Ok(value) => normal_record(Layout::Object, j@) == NormalFields::Ok(
                    value.wire_fields(),
                ),
                Err(e) => normal_record(Layout::Object, j@) == NormalFields::Err(e@),
            },
        decreases j@, 2nat, 5nat,
    {
        proof {
            reveal(Video::wire_fields);
            reveal(Object::wire_fields);
        }
        match Object::decode(j) {
            Ok(inner) => Ok(Video(inner)),
            Err(e) => Err(e),
        }
    }

    /// Appends the fields of the value to the fields of an object.
    pub fn encode_into(&self, out: &mut Vec<(String, Json)>)
        ensures
            fields_model(final(out)@) == fields_model(old(out)@) + self.wire_fields(),
        decreases self,
    {
        proof {
            reveal(Video::wire_fields);
            reveal(Object::wire_fields);
        }
        self.0.encode_into(out);
    }

    /// Writes the value as an object.
    pub fn encode(&self) -> (r: Json)
        ensures
            r@ == self.wire(),
    {
        let mut fields: Vec<(String, Json)> = Vec::new();
        assert(fields_model(fields@) =~= Seq::empty());
        self.encode_into(&mut fields);
        assert(Seq::empty() + self.wire_fields() =~= self.wire_fields());
        Json::Object(fields)
    }
}

/// A short written work.
#[derive(Debug, PartialEq)]
pub struct Note(Object);

impl Note {
    /// The fields that the value is written as.
    #[verifier::opaque]
    pub closed spec fn wire_fields(&self) -> Fields
        decreases self, 5nat,
    {
        self.0.wire_fields()
    }

    /// The object that the value is written as.
    pub open spec fn wire(&self) -> JsonModel {
        JsonModel::Object(self.wire_fields())
    }

    /// The value is written flat, under the keys of its layout.
    pub proof fn law_written_flat(&self)
        ensures
            field_keys(self.wire_fields()) == layout_keys(Layout::Object),
    {
        reveal(Note::wire_fields);
        reveal(Object::wire_fields);
        self.0.law_written_flat();
    }

    /// Reads the value from the fields of an object.
    pub fn decode(j: &Json) -> (r: Result<Note, CodecError>)
        ensures
            match r {
                Ok(value) => normal_record(Layout::Object, j@) == NormalFields::Ok(
                    value.wire_fields(),
                ),
                Err(e) => normal_record(Layout::Object, j@) == NormalFields::Err(e@),
            },
        decreases j@, 2nat, 5nat,
    {
        proof {
            reveal(Note::wire_fields);
            reveal(Object::wire_fields);
        }
        match Object::decode(j) {
            Ok(inner) => Ok(Note(inner)),
            Err(e) => Err(e),
        }
    }

    /// Appends the fields of the value to the fields of an object.
    pub fn encode_into(&self, out: &mut Vec<(String, Json)>)
        ensures
            fields_model(final(out)@) == fields_model(old(out)@) + self.wire_fields(),
        decreases self,
    {
        proof {
            reveal(Note::wire_fields);
            reveal(Object::wire_fields);
        }
        self.0.encode_into(out);
    }

    /// Writes the value as an object.
    pub fn encode(&self) -> (r: Json)
        ensures
            r@ == self.wire(),
    {
        let mut fields: Vec<(String, Json)> = Vec::new();
        assert(fields_model(fields@) =~= Seq::empty());
        self.encode_into(&mut fields);
        assert(Seq::empty() + self.wire_fields() =~= self.wire_fields());
        Json::Object(fields)
    }
}

/// A web page.
#[derive(Debug, PartialEq)]
pub struct Page(Object);

impl Page {
    /// The fields that the value is written as.
    #[verifier::opaque]
    pub closed spec fn wire_fields(&self) -> Fields
        decreases self, 5nat,
    {
        self.0.wire_fields()
    }

    /// The object that the value is written as.
    pub open spec fn wire(&self) -> JsonModel {
        JsonModel::Object(self.wire_fields())
    }

    /// The value is written flat, under the keys of its layout.
    pub proof fn law_written_flat(&self)
        ensures
            field_keys(self.wire_fields()) == layout_keys(Layout::Object),
    {
        reveal(Page::wire_fields);
        reveal(Object::wire_fields);
        self.0.law_written_flat();
    }

    /// Reads the value from the fields of an object.
    pub fn decode(j: &Json) -> (r: Result<Page, CodecError>)
        ensures
            match r {
                Ok(value) => normal_record(Layout::Object, j@) == NormalFields::Ok(
                    value.wire_fields(),
                ),
                Err(e) => normal_record(Layout::Object, j@) == NormalFields::Err(e@),
            },
        decreases j@, 2nat, 5nat,
    {
        proof {
            reveal(Page::wire_fields);
            reveal(Object::wire_fields);
        }
        match Object::decode(j) {
            Ok(inner) => Ok(Page(inner)),
            Err(e) => Err(e),
        }
    }

    /// Appends the fields of the value to the fields of an object.
    pub fn encode_into(&self, out: &mut Vec<(String, Json)>)
        ensures
            fields_model(final(out)@) == fields_model(old(out)@) + self.wire_fields(),
        decreases self,
    {
        proof {
            reveal(Page::wire_fields);
            reveal(Object::wire_fields);
        }
        self.0.encode_into(out);
    }

    /// Writes the value as an object.
    pub fn encode(&self) -> (r: Json)
        ensures
            r@ == self.wire(),
    {
        let mut fields: Vec<(String, Json)> = Vec::new();
        assert(fields_model(fields@) =~= Seq::empty());
        self.encode_into(&mut fields);
        assert(Seq::empty() + self.wire_fields() =~= self.wire_fields());
        Json::Object(fields)
    }
}

/// An event of any kind.
#[derive(Debug, PartialEq)]
pub struct Event(Object);

impl Event {
    /// The fields that the value is written as.
    #[verifier::opaque]
    pub closed spec fn wire_fields(&self) -> Fields
        decreases self, 5nat,
    {
        self.0.wire_fields()
    }

    /// The object that the value is written as.
    pub open spec fn wire(&self) -> JsonModel {
        JsonModel::Object(self.wire_fields())
    }

    /// The value is written flat, under the keys of its layout.
    pub proof fn law_written_flat(&self)
        ensures
            field_keys(self.wire_fields()) == layout_keys(Layout::Object),
    {
        reveal(Event::wire_fields);
        reveal(Object::wire_fields);
        self.0.law_written_flat();
    }

    /// Reads the value from the fields of an object.
    pub fn decode(j: &Json) -> (r: Result<Event, CodecError>)
        ensures
            match r {
                Ok(value) => normal_record(Layout::Object, j@) == NormalFields::Ok(
                    value.wire_fields(),
                ),
                Err(e) => normal_record(Layout::Object, j@) == NormalFields::Err(e@),
            },
        decreases j@, 2nat, 5nat,
    {
        proof {
            reveal(Event::wire_fields);
            reveal(Object::wire_fields);
        }
        match Object::decode(j) {
            Ok(inner) => Ok(Event(inner)),
            Err(e) => Err(e),
        }
    }

    /// Appends the fields of the value to the fields of an object.
    pub fn encode_into(&self, out: &mut Vec<(String, Json)>)
        ensures
            fields_model(final(out)@) == fields_model(old(out)@) + self.wire_fields(),
        decreases self,
    {
        proof {
            reveal(Event::wire_fields);
            reveal(Object::wire_fields);
        }
        self.0.encode_into(out);
    }

    /// Writes the value as an object.
    pub fn encode(&self) -> (r: Json)
        ensures
            r@ == self.wire(),
    {
        let mut fields: Vec<(String, Json)> = Vec::new();
        assert(fields_model(fields@) =~= Seq::empty());
        self.encode_into(&mut fields);
        assert(Seq::empty() + self.wire_fields() =~= self.wire_fields());
        Json::Object(fields)
    }
}

/// A logical or physical location.
///
/// Its own fields are written first; after them come the fields of the
/// object that it extends, at the same level.
#[derive(Debug, PartialEq)]
pub struct Place {
    accuracy: Option<PropAccuracy>,
    altitude: Option<PropAltitude>,
    latitude: Option<PropLatitude>,
    longitude: Option<PropLongitude>,
    radius: Option<PropRadius>,
    units: Option<PropUnits>,
    object_fields: Object,
}

impl Place {
    /// The fields that the record declares itself, as they are written.
    #[verifier::opaque]
    pub closed spec fn own_fields(&self) -> Fields
        decreases self, 3nat,
    {
        seq![
            ("accuracy"@, percentage_wire(self.accuracy)),
            ("altitude"@, real_wire(self.altitude)),
            ("latitude"@, real_wire(self.latitude)),
            ("longitude"@, real_wire(self.longitude)),
            ("radius"@, positive_float_wire(self.radius)),
            ("units"@, text_wire(self.units)),
        ]
    }

    /// All fields of the record at one level: its own, then those it takes
    /// over.
    #[verifier::opaque]
    pub closed spec fn wire_fields(&self) -> Fields
        decreases self, 4nat,
    {
        self.own_fields() + self.object_fields.wire_fields()
    }

    /// The object that the record is written as.
    pub open spec fn wire(&self) -> JsonModel {
        JsonModel::Object(self.wire_fields())
    }

    /// The record is written flat: under the keys that its layout declares
    /// and then under the keys of the layouts that it takes fields over from,
    /// all at one level.
    pub proof fn law_written_flat(&self)
        ensures
            field_keys(self.wire_fields()) == layout_keys(Layout::Place),
        decreases depth(Layout::Place),
    {
        reveal(Place::own_fields);
        reveal(Place::wire_fields);
        reveal(Object::wire_fields);
        lemma_own_place();
        lemma_layout_keys(Layout::Place);
        assert(field_keys(self.own_fields()) =~= own_keys(Layout::Place));
        self.object_fields.law_written_flat();
        lemma_keys_appended(self.own_fields(), self.object_fields.wire_fields());
    }

    /// Reads the record from the fields of an object. Each field is looked up
    /// by its name; fields that the record does not know are passed over.
    pub fn decode(j: &Json) -> (r: Result<Place, CodecError>)
        ensures
            match r {
                Ok(value) => normal_record(Layout::Place, j@) == NormalFields::Ok(
                    value.wire_fields(),
                ),
                Err(e) => normal_record(Layout::Place, j@) == NormalFields::Err(e@),
            },
        decreases j@, 2nat, 1nat,
    {
        match j {
            Json::Object(_) => {},
            _ => {
                proof {
                    lemma_record_refused(Layout::Place, j@);
                }
                return Err(CodecError::at_root(ErrorKind::FieldTypeMismatch));
            },
        }
        proof {
            lemma_own_place();
            lemma_own_start(Layout::Place, j@);
        }
        let accuracy = match read_percentage(j, "accuracy") {
            Ok(value) => value,
            Err(e) => {
                proof {
                    lemma_field_fails(Layout::Place, j@, 0, e@);
                }
                return Err(e);
            },
        };
        proof {
            lemma_field_read(Layout::Place, j@, 0);
        }
        let altitude = match read_real(j, "altitude") {
            Ok(value) => value,
            Err(e) => {
                proof {
                    lemma_field_fails(Layout::Place, j@, 1, e@);
                }
                return Err(e);
            },
        };
        proof {
            lemma_field_read(Layout::Place, j@, 1);
        }
        let latitude = match read_real(j, "latitude") {
            Ok(value) => value,
            Err(e) => {
                proof {
                    lemma_field_fails(Layout::Place, j@, 2, e@);
                }
                return Err(e);
            },
        };
        proof {
            lemma_field_read(Layout::Place, j@, 2);
        }
        let longitude = match read_real(j, "longitude") {
            Ok(value) => value,
            Err(e) => {
                proof {
                    lemma_field_fails(Layout::Place, j@, 3, e@);
                }
                return Err(e);
            },
        };
        proof {
            lemma_field_read(Layout::Place, j@, 3);
        }
        let radius = match read_positive_float(j, "radius") {
            Ok(value) => value,
            Err(e) => {
                proof {
                    lemma_field_fails(Layout::Place, j@, 4, e@);
                }
                return Err(e);
            },
        };
        proof {
            lemma_field_read(Layout::Place, j@, 4);
        }
        let units = match read_text(j, "units") {
            Ok(value) => value,
            Err(e) => {
                proof {
                    lemma_field_fails(Layout::Place, j@, 5, e@);
                }
                return Err(e);
            },
        };
        proof {
            lemma_field_read(Layout::Place, j@, 5);
            lemma_record_extended(Layout::Place, j@);
        }
        let object_fields = match Object::decode(j) {
            Ok(value) => value,
            Err(e) => {
                return Err(e);
            },
        };
        let value = Place {
            accuracy,
            altitude,
            latitude,
            longitude,
            radius,
            units,
            object_fields,
        };
        assert(normal_own(Layout::Place, j@, 6)->Ok_0 == value.own_fields()) by {
            reveal(Place::own_fields);
        }
        assert(value.wire_fields() == value.own_fields() + value.object_fields.wire_fields())
            by {
            reveal(Place::wire_fields);
            reveal(Object::wire_fields);
        }
        Ok(value)
    }

    /// Appends the fields of the record to the fields of an object.
    pub fn encode_into(&self, out: &mut Vec<(String, Json)>)
        ensures
            fields_model(final(out)@) == fields_model(old(out)@) + self.wire_fields(),
        decreases self,
    {
        let ghost start = fields_model(out@);
        let ghost mut done: Fields = Seq::empty();
        proof {
            lemma_nothing_added(start);
        }
        push_field(out, "accuracy", write_percentage(&self.accuracy));
        proof {
            done = lemma_added(start, done, "accuracy"@, percentage_wire(self.accuracy));
        }
        push_field(out, "altitude", write_real(&self.altitude));
        proof {
            done = lemma_added(start, done, "altitude"@, real_wire(self.altitude));
        }
        push_field(out, "latitude", write_real(&self.latitude));
        proof {
            done = lemma_added(start, done, "latitude"@, real_wire(self.latitude));
        }
        push_field(out, "longitude", write_real(&self.longitude));
        proof {
            done = lemma_added(start, done, "longitude"@, real_wire(self.longitude));
        }
        push_field(out, "radius", write_positive_float(&self.radius));
        proof {
            done = lemma_added(start, done, "radius"@, positive_float_wire(self.radius));
        }
        push_field(out, "units", write_text(&self.units));
        proof {
            done = lemma_added(start, done, "units"@, text_wire(self.units));
        }
        self.object_fields.encode_into(out);
        proof {
            lemma_appended(start, done, self.object_fields.wire_fields());
        }
        assert(done == self.own_fields()) by {
            reveal(Place::own_fields);
        }
        assert(self.wire_fields() == self.own_fields() + self.object_fields.wire_fields())
            by {
            reveal(Place::wire_fields);
            reveal(Object::wire_fields);
        }
    }

    /// Writes the record as an object.
    pub fn encode(&self) -> (r: Json)
        ensures
            r@ == self.wire(),
    {
        let mut fields: Vec<(String, Json)> = Vec::new();
        assert(fields_model(fields@) =~= Seq::empty());
        self.encode_into(&mut fields);
        assert(Seq::empty() + self.wire_fields() =~= self.wire_fields());
        Json::Object(fields)
    }
}

impl Payload for Place {
    open spec fn payload_fields(&self) -> Fields {
        self.wire_fields()
    }

    open spec fn payload_normal(j: JsonModel) -> Result<Fields, Failure> {
        normal_record(Layout::Place, j)
    }

    fn read_payload(j: &Json) -> (r: Result<Place, CodecError>) {
        Place::decode(j)
    }

    fn write_payload(&self, out: &mut Vec<(String, Json)>) {
        self.encode_into(out)
    }
}

/// A link that mentions someone.
#[derive(Debug, PartialEq)]
pub struct Mention(Link);

impl Mention {
    /// The fields that the value is written as.
    #[verifier::opaque]
    pub closed spec fn wire_fields(&self) -> Fields
        decreases self, 5nat,
    {
        self.0.wire_fields()
    }

    /// The object that the value is written as.
    pub open spec fn wire(&self) -> JsonModel {
        JsonModel::Object(self.wire_fields())
    }

    /// The value is written flat, under the keys of its layout.
    pub proof fn law_written_flat(&self)
        ensures
            field_keys(self.wire_fields()) == layout_keys(Layout::Link),
    {
        reveal(Mention::wire_fields);
        reveal(Link::wire_fields);
        self.0.law_written_flat();
    }

    /// Reads the value from the fields of an object.
    pub fn decode(j: &Json) -> (r: Result<Mention, CodecError>)
        ensures
            match r {
                Ok(value) => normal_record(Layout::Link, j@) == NormalFields::Ok(
                    value.wire_fields(),
                ),
                Err(e) => normal_record(Layout::Link, j@) == NormalFields::Err(e@),
            },
        decreases j@, 2nat, 5nat,
    {
        proof {
            reveal(Mention::wire_fields);
            reveal(Link::wire_fields);
        }
        match Link::decode(j) {
            Ok(inner) => Ok(Mention(inner)),
            Err(e) => Err(e),
        }
    }

    /// Appends the fields of the value to the fields of an object.
    pub fn encode_into(&self, out: &mut Vec<(String, Json)>)
        ensures
            fields_model(final(out)@) == fields_model(old(out)@) + self.wire_fields(),
        decreases self,
    {
        proof {
            reveal(Mention::wire_fields);
            reveal(Link::wire_fields);
        }
        self.0.encode_into(out);
    }

    /// Writes the value as an object.
    pub fn encode(&self) -> (r: Json)
        ensures
            r@ == self.wire(),
    {
        let mut fields: Vec<(String, Json)> = Vec::new();
        assert(fields_model(fields@) =~= Seq::empty());
        self.encode_into(&mut fields);
        assert(Seq::empty() + self.wire_fields() =~= self.wire_fields());
        Json::Object(fields)
    }
}

/// A description of another object.
///
/// Its own fields are written first; after them come the fields of the
/// object that it extends, at the same level.
#[derive(Debug, PartialEq)]
pub struct Profile {
    describes: Option<PropDescribes>,
    object_fields: Object,
}

impl Profile {
    /// The fields that the record declares itself, as they are written.
    #[verifier::opaque]
    pub closed spec fn own_fields(&self) -> Fields
        decreases self, 3nat,
    {
        seq![
            ("describes"@, tagged_object_wire(self.describes)),
        ]
    }

    /// All fields of the record at one level: its own, then those it takes
    /// over.
    #[verifier::opaque]
    pub closed spec fn wire_fields(&self) -> Fields
        decreases self, 4nat,
    {
        self.own_fields() + self.object_fields.wire_fields()
    }

    /// The object that the record is written as.
    pub open spec fn wire(&self) -> JsonModel {
        JsonModel::Object(self.wire_fields())
    }

    /// The record is written flat: under the keys that its layout declares
    /// and then under the keys of the layouts that it takes fields over from,
    /// all at one level.
    pub proof fn law_written_flat(&self)
        ensures
            field_keys(self.wire_fields()) == layout_keys(Layout::Profile),
        decreases depth(Layout::Profile),
    {
        reveal(Profile::own_fields);
        reveal(Profile::wire_fields);
        reveal(Object::wire_fields);
        lemma_own_profile();
        lemma_layout_keys(Layout::Profile);
        assert(field_keys(self.own_fields()) =~= own_keys(Layout::Profile));
        self.object_fields.law_written_flat();
        lemma_keys_appended(self.own_fields(), self.object_fields.wire_fields());
    }

    /// Reads the record from the fields of an object. Each field is looked up
    /// by its name; fields that the record does not know are passed over.
    pub fn decode(j: &Json) -> (r: Result<Profile, CodecError>)
        ensures
            match r {
                Ok(value) => normal_record(Layout::Profile, j@) == NormalFields::Ok(
                    value.wire_fields(),
                ),
                Err(e) => normal_record(Layout::Profile, j@) == NormalFields::Err(e@),
            },
        decreases j@, 2nat, 1nat,
    {
        match j {
            Json::Object(_) => {},
            _ => {
                proof {
                    lemma_record_refused(Layout::Profile, j@);
                }
                return Err(CodecError::at_root(ErrorKind::FieldTypeMismatch));
            },
        }
        proof {
            lemma_own_profile();
            lemma_own_start(Layout::Profile, j@);
        }
        let describes = match read_tagged_object(j, "describes") {
            Ok(value) => value,
            Err(e) => {
                proof {
                    lemma_field_fails(Layout::Profile, j@, 0, e@);
                }
                return Err(e);
            },
        };
        proof {
            lemma_field_read(Layout::Profile, j@, 0);
            lemma_record_extended(Layout::Profile, j@);
        }
        let object_fields = match Object::decode(j) {
            Ok(value) => value,
            Err(e) => {
                return Err(e);
            },
        };
        let value = Profile {
            describes,
            object_fields,
        };
        assert(normal_own(Layout::Profile, j@, 1)->Ok_0 == value.own_fields()) by {
            reveal(Profile::own_fields);
        }
        assert(value.wire_fields() == value.own_fields() + value.object_fields.wire_fields())
            by {
            reveal(Profile::wire_fields);
            reveal(Object::wire_fields);
        }
        Ok(value)
    }

    /// Appends the fields of the record to the fields of an object.
    pub fn encode_into(&self, out: &mut Vec<(String, Json)>)
        ensures
            fields_model(final(out)@) == fields_model(old(out)@) + self.wire_fields(),
        decreases self,
    {
        let ghost start = fields_model(out@);
        let ghost mut done: Fields = Seq::empty();
        proof {
            lemma_nothing_added(start);
        }
        push_field(out, "describes", write_tagged_object(&self.describes));
        proof {
            done = lemma_added(start, done, "describes"@, tagged_object_wire(self.describes));
        }
        self.object_fields.encode_into(out);
        proof {
            lemma_appended(start, done, self.object_fields.wire_fields());
        }
        assert(done == self.own_fields()) by {
            reveal(Profile::own_fields);
        }
        assert(self.wire_fields() == self.own_fields() + self.object_fields.wire_fields())
            by {
            reveal(Profile::wire_fields);
            reveal(Object::wire_fields);
        }
    }

    /// Writes the record as an object.
    pub fn encode(&self) -> (r: Json)
        ensures
            r@ == self.wire(),
    {
        let mut fields: Vec<(String, Json)> = Vec::new();
        assert(fields_model(fields@) =~= Seq::empty());
        self.encode_into(&mut fields);
        assert(Seq::empty() + self.wire_fields() =~= self.wire_fields());
        Json::Object(fields)
    }
}

impl Payload for Profile {
    open spec fn payload_fields(&self) -> Fields {
        self.wire_fields()
    }

    open spec fn payload_normal(j: JsonModel) -> Result<Fields, Failure> {
        normal_record(Layout::Profile, j)
    }

    fn read_payload(j: &Json) -> (r: Result<Profile, CodecError>) {
        Profile::decode(j)
    }

    fn write_payload(&self, out: &mut Vec<(String, Json)>) {
        self.encode_into(out)
    }
}

/// What is left of an object that was deleted.
///
/// Its own fields are written first; after them come the fields of the
/// object that it extends, at the same level.
#[allow(non_snake_case)]
#[derive(Debug, PartialEq)]
pub struct Tombstone {
    formerType: Option<PropFormerType>,
    deleted: Option<PropDeleted>,
    object_fields: Object,
}

impl Tombstone {
    /// The fields that the record declares itself, as they are written.
    #[verifier::opaque]
    pub closed spec fn own_fields(&self) -> Fields
        decreases self, 3nat,
    {
        seq![
            ("formerType"@, tagged_objects_wire(self.formerType)),
            ("deleted"@, instant_wire(self.deleted)),
        ]
    }

    /// All fields of the record at one level: its own, then those it takes
    /// over.
    #[verifier::opaque]
    pub closed spec fn wire_fields(&self) -> Fields
        decreases self, 4nat,
    {
        self.own_fields() + self.object_fields.wire_fields()
    }

    /// The object that the record is written as.
    pub open spec fn wire(&self) -> JsonModel {
        JsonModel::Object(self.wire_fields())
    }

    /// The record is written flat: under the keys that its layout declares
    /// and then under the keys of the layouts that it takes fields over from,
    /// all at one level.
    pub proof fn law_written_flat(&self)
        ensures
            field_keys(self.wire_fields()) == layout_keys(Layout::Tombstone),
        decreases depth(Layout::Tombstone),
    {
        reveal(Tombstone::own_fields);
        reveal(Tombstone::wire_fields);
        reveal(Object::wire_fields);
        lemma_own_tombstone();
        lemma_layout_keys(Layout::Tombstone);
        assert(field_keys(self.own_fields()) =~= own_keys(Layout::Tombstone));
        self.object_fields.law_written_flat();
        lemma_keys_appended(self.own_fields(), self.object_fields.wire_fields());
    }

    /// Reads the record from the fields of an object. Each field is looked up
    /// by its name; fields that the record does not know are passed over.
    pub fn decode(j: &Json) -> (r: Result<Tombstone, CodecError>)
        ensures
            match r {
                Ok(value) => normal_record(Layout::Tombstone, j@) == NormalFields::Ok(
                    value.wire_fields(),
                ),
                Err(e) => normal_record(Layout::Tombstone, j@) == NormalFields::Err(e@),
            },
        decreases j@, 2nat, 1nat,
    {
        match j {
            Json::Object(_) => {},
            _ => {
                proof {
                    lemma_record_refused(Layout::Tombstone, j@);
                }
                return Err(CodecError::at_root(ErrorKind::FieldTypeMismatch));
            },
        }
        proof {
            lemma_own_tombstone();
            lemma_own_start(Layout::Tombstone, j@);
        }
        let former_type = match read_tagged_objects(j, "formerType") {
            Ok(value) => value,
            Err(e) => {
                proof {
                    lemma_field_fails(Layout::Tombstone, j@, 0, e@);
                }
                return Err(e);
            },
        };
        proof {
            lemma_field_read(Layout::Tombstone, j@, 0);
        }
        let deleted = match read_instant(j, "deleted") {
            Ok(value) => value,
            Err(e) => {
                proof {
                    lemma_field_fails(Layout::Tombstone, j@, 1, e@);
                }
                return Err(e);
            },
        };
        proof {
            lemma_field_read(Layout::Tombstone, j@, 1);
            lemma_record_extended(Layout::Tombstone, j@);
        }
        let object_fields = match Object::decode(j) {
            Ok(value) => value,
            Err(e) => {
                return Err(e);
            },
        };
        let value = Tombstone {
            formerType: former_type,
            deleted,
            object_fields,
        };
        assert(normal_own(Layout::Tombstone, j@, 2)->Ok_0 == value.own_fields()) by {
            reveal(Tombstone::own_fields);
        }
        assert(value.wire_fields() == value.own_fields() + value.object_fields.wire_fields())
            by {
            reveal(Tombstone::wire_fields);
            reveal(Object::wire_fields);
        }
        Ok(value)
    }

    /// Appends the fields of the record to the fields of an object.
    pub fn encode_into(&self, out: &mut Vec<(String, Json)>)
        ensures
            fields_model(final(out)@) == fields_model(old(out)@) + self.wire_fields(),
        decreases self,
    {
        let ghost start = fields_model(out@);
        let ghost mut done: Fields = Seq::empty();
        proof {
            lemma_nothing_added(start);
        }
        push_field(out, "formerType", write_tagged_objects(&self.formerType));
        proof {
            done = lemma_added(start, done, "formerType"@, tagged_objects_wire(self.formerType));
        }
        push_field(out, "deleted", write_instant(&self.deleted));
        proof {
            done = lemma_added(start, done, "deleted"@, instant_wire(self.deleted));
        }
        self.object_fields.encode_into(out);
        proof {
            lemma_appended(start, done, self.object_fields.wire_fields());
        }
        assert(done == self.own_fields()) by {
            reveal(Tombstone::own_fields);
        }
        assert(self.wire_fields() == self.own_fields() + self.object_fields.wire_fields())
            by {
            reveal(Tombstone::wire_fields);
            reveal(Object::wire_fields);
        }
    }

    /// Writes the record as an object.
    pub fn encode(&self) -> (r: Json)
        ensures
            r@ == self.wire(),
    {
        let mut fields: Vec<(String, Json)> = Vec::new();
        assert(fields_model(fields@) =~= Seq::empty());
        self.encode_into(&mut fields);
        assert(Seq::empty() + self.wire_fields() =~= self.wire_fields());
        Json::Object(fields)
    }
}

impl Payload for Tombstone {
    open spec fn payload_fields(&self) -> Fields {
        self.wire_fields()
    }

    open spec fn payload_normal(j: JsonModel) -> Result<Fields, Failure> {
        normal_record(Layout::Tombstone, j)
    }

    fn read_payload(j: &Json) -> (r: Result<Tombstone, CodecError>) {
        Tombstone::decode(j)
    }

    fn write_payload(&self, out: &mut Vec<(String, Json)>) {
        self.encode_into(out)
    }
}

} // verus!

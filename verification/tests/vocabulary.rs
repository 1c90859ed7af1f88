use linkeddata::activity_streams::objects::{Activity, Link, Object, Question};
use linkeddata::activity_streams::properties::{
    MaybeClosed, MaybeCollection, MaybeCollectionPage, TaggedCollection, TaggedCollectionPage,
};
use linkeddata::activity_streams::{
    MaybeImage, MaybeLink, MaybeObject, TaggedImage, TaggedLink, TaggedObject,
};
use linkeddata::error::{Bound, ErrorKind, Union};
use linkeddata::json::Json;

fn doc(text: &str) -> Json {
    Json::parse(text).unwrap()
}

fn keys(j: &Json) -> Vec<String> {
    match j {
        Json::Object(fields) => fields.iter().map(|(k, _)| k.clone()).collect(),
        other => panic!("not an object: {:?}", other),
    }
}

const OBJECT_KEYS: [&str; 29] = [
    "attachment", "attributedTo", "audience", "content", "contentMap", "context", "name",
    "nameMap", "endTime", "generator", "icon", "image", "inReplyTo", "location", "preview",
    "published", "replies", "startTime", "summary", "summaryMap", "tag", "updated", "url", "to",
    "bto", "cc", "bcc", "mediaType", "duration",
];

#[test]
fn note_round_trips_through_its_canonical_form() {
    let input = doc(r#"{"type":"Note","name":"A note","content":"Hello","to":["https://example.org/a"]}"#);
    let note = TaggedObject::decode(&input).unwrap();
    assert!(matches!(note, TaggedObject::Note(_)));
    assert_eq!(note.tag(), "Note");
    let written = note.encode();
    assert_eq!(written.get("type"), Some(&Json::Text("Note".to_string())));
    assert_eq!(written.get("name"), Some(&Json::Text("A note".to_string())));
    assert_eq!(written.get("to"), Some(&Json::Text("https://example.org/a".to_string())));
    assert_eq!(written.get("summary"), Some(&Json::Null));
    let again = TaggedObject::decode(&written).unwrap();
    assert_eq!(again, note);
    assert_eq!(again.encode(), written);
}

#[test]
fn every_discriminator_selects_its_variant() {
    let tags = [
        "Object", "Activity", "Collection", "OrderedCollection", "CollectionPage",
        "OrderedCollectionPage", "Accept", "TentativeAccept", "Add", "Arrive", "Create", "Delete",
        "Follow", "Ignore", "Join", "Leave", "Like", "Offer", "Invite", "Reject",
        "TentativeReject", "Remove", "Undo", "Update", "View", "Listen", "Read", "Move", "Travel",
        "Announce", "Block", "Flag", "Dislike", "Question", "Application", "Group",
        "Organization", "Person", "Service", "Relationship", "Article", "Document", "Audio",
        "Image", "Video", "Note", "Page", "Event", "Place", "Mention", "Profile", "Tombstone",
    ];
    for tag in tags {
        let input = Json::Object(vec![
            ("name".to_string(), Json::Text("n".to_string())),
            ("type".to_string(), Json::Text(tag.to_string())),
        ]);
        let value = TaggedObject::decode(&input).unwrap();
        assert_eq!(value.tag(), tag);
        let written = value.encode();
        assert_eq!(keys(&written)[0], "type");
        assert_eq!(written.get("type"), Some(&Json::Text(tag.to_string())));
        assert_eq!(written.get("name"), Some(&Json::Text("n".to_string())));
        assert_eq!(TaggedObject::decode(&written).unwrap(), value);
    }
}

#[test]
fn unknown_discriminator_is_refused() {
    let e = TaggedObject::decode(&doc(r#"{"type":"Sandwich","name":"x"}"#)).unwrap_err();
    assert_eq!(e.kind, ErrorKind::UnknownVariant("Sandwich".to_string()));
    assert!(e.path.is_empty());
    let e = TaggedObject::decode(&doc(r#"{"type":"Link","href":"x"}"#)).unwrap_err();
    assert_eq!(e.kind, ErrorKind::UnknownVariant("Link".to_string()));
    let e = TaggedLink::decode(&doc(r#"{"type":"Note"}"#)).unwrap_err();
    assert_eq!(e.kind, ErrorKind::UnknownVariant("Note".to_string()));
    let e = TaggedObject::decode(&doc(r#"{"type":"note"}"#)).unwrap_err();
    assert_eq!(e.kind, ErrorKind::UnknownVariant("note".to_string()));
}

#[test]
fn missing_discriminator_is_refused() {
    let e = TaggedObject::decode(&doc(r#"{"name":"x"}"#)).unwrap_err();
    assert_eq!(e.kind, ErrorKind::MissingDiscriminator);
    assert!(e.path.is_empty());
}

#[test]
fn a_discriminator_must_be_a_string() {
    let e = TaggedObject::decode(&doc(r#"{"type":7}"#)).unwrap_err();
    assert_eq!(e.kind, ErrorKind::FieldTypeMismatch);
    assert_eq!(e.path, vec!["type".to_string()]);
    let e = TaggedObject::decode(&doc(r#""Note""#)).unwrap_err();
    assert_eq!(e.kind, ErrorKind::FieldTypeMismatch);
    assert!(e.path.is_empty());
}

#[test]
fn maybe_object_tries_its_shapes_in_order() {
    let uri = MaybeObject::decode(&doc(r#""https://example.org/1""#)).unwrap();
    assert_eq!(uri, MaybeObject::URI("https://example.org/1".to_string()));
    let link = MaybeObject::decode(&doc(r#"{"type":"Link","href":"https://example.org/2"}"#)).unwrap();
    assert!(matches!(link, MaybeObject::TaggedLink(TaggedLink::Link(_))));
    let full = MaybeObject::decode(&doc(r#"{"type":"Person","name":"Sally"}"#)).unwrap();
    assert!(matches!(full, MaybeObject::TaggedObject(TaggedObject::Person(_))));
    let e = MaybeObject::decode(&doc("17")).unwrap_err();
    assert_eq!(e.kind, ErrorKind::NoMatchingVariant(Union::Object));
    assert_eq!(e.message(), "the value fits none of the shapes of its union");
}

#[test]
fn the_other_unions_take_their_own_families() {
    assert!(matches!(
        MaybeLink::decode(&doc(r#"{"type":"Link"}"#)).unwrap(),
        MaybeLink::TaggedLink(_)
    ));
    assert_eq!(
        MaybeLink::decode(&doc(r#"{"type":"Note"}"#)).unwrap_err().kind,
        ErrorKind::NoMatchingVariant(Union::Link)
    );
    assert!(matches!(
        MaybeImage::decode(&doc(r#"{"type":"Image","name":"i"}"#)).unwrap(),
        MaybeImage::TaggedImage(TaggedImage::Image(_))
    ));
    assert_eq!(
        MaybeImage::decode(&doc(r#"{"type":"Video"}"#)).unwrap_err().kind,
        ErrorKind::NoMatchingVariant(Union::Image)
    );
    assert!(matches!(
        MaybeCollection::decode(&doc(r#"{"type":"OrderedCollection","totalItems":2}"#)).unwrap(),
        MaybeCollection::TaggedCollection(TaggedCollection::OrderedCollection(_))
    ));
    assert_eq!(
        MaybeCollection::decode(&doc(r#"{"type":"Note"}"#)).unwrap_err().kind,
        ErrorKind::NoMatchingVariant(Union::Collection)
    );
    assert!(matches!(
        MaybeCollectionPage::decode(&doc(r#"{"type":"CollectionPage"}"#)).unwrap(),
        MaybeCollectionPage::Tagged(TaggedCollectionPage::CollectionPage(_))
    ));
    assert_eq!(
        MaybeCollectionPage::decode(&doc(r#"{"type":"Collection"}"#)).unwrap_err().kind,
        ErrorKind::NoMatchingVariant(Union::CollectionPage)
    );
}

#[test]
fn the_order_of_shapes_decides_for_a_date() {
    let value = MaybeClosed::decode(&doc(r#""2016-05-10T00:00:00Z""#)).unwrap();
    assert_eq!(value, MaybeClosed::URI("2016-05-10T00:00:00Z".to_string()));
    assert_eq!(MaybeClosed::decode(&doc("true")).unwrap(), MaybeClosed::Bool(true));
    assert!(matches!(
        MaybeClosed::decode(&doc(r#"{"type":"Note"}"#)).unwrap(),
        MaybeClosed::TaggedObject(TaggedObject::Note(_))
    ));
    assert_eq!(
        MaybeClosed::decode(&doc("4")).unwrap_err().kind,
        ErrorKind::NoMatchingVariant(Union::Closed)
    );
}

#[test]
fn a_date_that_closed_a_question_is_written_as_text() {
    let date = linkeddata::instant::DateTime::parse("2016-05-10T00:00:00+00:00").unwrap();
    let written = MaybeClosed::Date(date).encode();
    assert_eq!(written, Json::Text("2016-05-10T00:00:00Z".to_string()));
    assert_eq!(
        MaybeClosed::decode(&written).unwrap(),
        MaybeClosed::URI("2016-05-10T00:00:00Z".to_string())
    );
}

#[test]
fn an_activity_is_written_flat() {
    let input = doc(
        r#"{"name":"made it","type":"Create","actor":"https://example.org/sally",
            "object":{"type":"Note","content":"hi"},"published":"2015-02-10T15:04:55Z"}"#,
    );
    let value = TaggedObject::decode(&input).unwrap();
    let written = value.encode();
    let mut expected = vec!["type", "actor", "object", "target", "result", "origin", "instrument"];
    expected.extend(OBJECT_KEYS);
    assert_eq!(keys(&written), expected);
    assert_eq!(written.get("actor"), Some(&Json::Text("https://example.org/sally".to_string())));
    assert_eq!(written.get("name"), Some(&Json::Text("made it".to_string())));
    assert_eq!(written.get("published"), Some(&Json::Text("2015-02-10T15:04:55Z".to_string())));
    assert_eq!(written.get("object_fields"), None);
    let object = written.get("object").unwrap();
    assert_eq!(object.get("type"), Some(&Json::Text("Note".to_string())));
    assert_eq!(object.get("content"), Some(&Json::Text("hi".to_string())));
}

#[test]
fn a_question_is_written_flat_through_two_levels() {
    let input = doc(r#"{"type":"Question","name":"Which?","oneOf":["a","b"],"closed":true,"actor":"x"}"#);
    let written = TaggedObject::decode(&input).unwrap().encode();
    let mut expected = vec![
        "type", "oneOf", "anyOf", "closed", "actor", "object", "target", "result", "origin",
        "instrument",
    ];
    expected.extend(OBJECT_KEYS);
    assert_eq!(keys(&written), expected);
    assert_eq!(written.get("closed"), Some(&Json::Bool(true)));
    assert_eq!(written.get("oneOf"), Some(&doc(r#"["a","b"]"#)));
    assert_eq!(written.get("actor"), Some(&Json::Text("x".to_string())));
    assert_eq!(written.get("activity_fields"), None);
}

#[test]
fn a_record_does_not_mind_the_order_of_fields() {
    let a = Link::decode(&doc(r#"{"href":"h","name":"n","width":3}"#)).unwrap();
    let b = Link::decode(&doc(r#"{"width":3,"name":"n","href":"h"}"#)).unwrap();
    assert_eq!(a, b);
    assert_eq!(
        keys(&a.encode()),
        vec!["href", "rel", "mediaType", "name", "nameMap", "hreflang", "height", "width", "preview"]
    );
}

#[test]
fn a_record_passes_over_unknown_fields() {
    let a = Object::decode(&doc(r#"{"name":"n","sparkle":[1,2,3],"type":"ignored here"}"#)).unwrap();
    let b = Object::decode(&doc(r#"{"name":"n"}"#)).unwrap();
    assert_eq!(a, b);
    assert_eq!(keys(&a.encode()), OBJECT_KEYS.to_vec());
}

#[test]
fn a_record_must_be_an_object() {
    assert_eq!(Object::decode(&doc(r#""x""#)).unwrap_err().kind, ErrorKind::FieldTypeMismatch);
    assert_eq!(Activity::decode(&doc("[]")).unwrap_err().kind, ErrorKind::FieldTypeMismatch);
    assert_eq!(Question::decode(&doc("null")).unwrap_err().kind, ErrorKind::FieldTypeMismatch);
}

#[test]
fn the_first_declared_field_that_fails_decides() {
    let e = Link::decode(&doc(r#"{"width":"w","href":5}"#)).unwrap_err();
    assert_eq!(e.kind, ErrorKind::FieldTypeMismatch);
    assert_eq!(e.path, vec!["href".to_string()]);
}

#[test]
fn bound_violation_names_the_field() {
    let e = TaggedObject::decode(&doc(r#"{"type":"Place","accuracy":150}"#)).unwrap_err();
    assert_eq!(
        e.kind,
        ErrorKind::BoundViolation { value: 150.0f64.to_bits(), bound: Bound::Percentage }
    );
    assert_eq!(e.path, vec!["accuracy".to_string()]);
    assert_eq!(e.message(), "Percentage must be +0 <= X <= +100");
    let e = TaggedObject::decode(&doc(r#"{"type":"Place","radius":-2}"#)).unwrap_err();
    assert_eq!(
        e.kind,
        ErrorKind::BoundViolation { value: (-2.0f64).to_bits(), bound: Bound::NonNegative }
    );
    assert_eq!(e.path, vec!["radius".to_string()]);
}

#[test]
fn a_place_keeps_its_numbers() {
    let input = doc(
        r#"{"type":"Place","name":"Fresno","accuracy":94.5,"altitude":15,"latitude":36.75,
            "longitude":-119.7667,"radius":15,"units":"miles"}"#,
    );
    let written = TaggedObject::decode(&input).unwrap().encode();
    assert_eq!(written.get("accuracy"), Some(&doc("94.5")));
    assert_eq!(written.get("altitude"), Some(&doc("15.0")));
    assert_eq!(written.get("latitude"), Some(&doc("36.75")));
    assert_eq!(written.get("longitude"), Some(&doc("-119.7667")));
    assert_eq!(written.get("radius"), Some(&doc("15.0")));
    assert_eq!(written.get("units"), Some(&Json::Text("miles".to_string())));
}

#[test]
fn a_failure_inside_a_nested_record_carries_the_whole_path() {
    let e = TaggedObject::decode(&doc(
        r#"{"type":"Profile","describes":{"type":"Place","accuracy":-5}}"#,
    ))
    .unwrap_err();
    assert_eq!(
        e.kind,
        ErrorKind::BoundViolation { value: (-5.0f64).to_bits(), bound: Bound::Percentage }
    );
    assert_eq!(e.path, vec!["describes".to_string(), "accuracy".to_string()]);
}

#[test]
fn a_union_reports_only_that_no_shape_fits() {
    let e = TaggedObject::decode(&doc(
        r#"{"type":"Note","attachment":{"type":"Place","accuracy":-5}}"#,
    ))
    .unwrap_err();
    assert_eq!(e.kind, ErrorKind::NoMatchingVariant(Union::Object));
    assert_eq!(e.path, vec!["attachment".to_string()]);
}

#[test]
fn an_empty_array_is_refused_in_a_field() {
    let e = TaggedObject::decode(&doc(r#"{"type":"Note","to":[]}"#)).unwrap_err();
    assert_eq!(e.kind, ErrorKind::EmptyCollection);
    assert_eq!(e.path, vec!["to".to_string()]);
}

#[test]
fn null_and_absent_fields_read_alike() {
    let a = TaggedObject::decode(&doc(r#"{"type":"Note","name":null,"to":null}"#)).unwrap();
    let b = TaggedObject::decode(&doc(r#"{"type":"Note"}"#)).unwrap();
    assert_eq!(a, b);
}

#[test]
fn a_collection_holds_its_items_and_pages() {
    let input = doc(
        r#"{"type":"OrderedCollectionPage","startIndex":4,"partOf":"https://example.org/c",
            "next":{"type":"Link","href":"https://example.org/c?page=2"},
            "totalItems":2,"orderedItems":[{"type":"Note","name":"one"},"https://example.org/2"]}"#,
    );
    let value = TaggedObject::decode(&input).unwrap();
    let written = value.encode();
    assert_eq!(written.get("startIndex"), Some(&doc("4")));
    assert_eq!(written.get("totalItems"), Some(&doc("2")));
    assert_eq!(written.get("partOf"), Some(&Json::Text("https://example.org/c".to_string())));
    let next = written.get("next").unwrap();
    assert_eq!(next.get("type"), Some(&Json::Text("Link".to_string())));
    match written.get("orderedItems").unwrap() {
        Json::Array(items) => {
            assert_eq!(items.len(), 2);
            assert_eq!(items[0].get("name"), Some(&Json::Text("one".to_string())));
            assert_eq!(items[1], Json::Text("https://example.org/2".to_string()));
        }
        other => panic!("not an array: {:?}", other),
    }
    assert_eq!(TaggedObject::decode(&written).unwrap(), value);
    assert_eq!(
        TaggedCollection::decode(&input).unwrap().encode(),
        written
    );
}

#[test]
fn a_mention_has_the_fields_of_a_link() {
    let written = TaggedObject::decode(&doc(r#"{"type":"Mention","href":"h","height":2}"#))
        .unwrap()
        .encode();
    assert_eq!(
        keys(&written),
        vec![
            "type", "href", "rel", "mediaType", "name", "nameMap", "hreflang", "height", "width",
            "preview"
        ]
    );
    assert_eq!(written.get("height"), Some(&doc("2")));
}

#[test]
fn a_relationship_and_a_tombstone_hold_tagged_objects() {
    let written = TaggedObject::decode(&doc(
        r#"{"type":"Relationship","subject":"s","object":["a","b"],
            "relationship":[{"type":"Note","name":"knows"}]}"#,
    ))
    .unwrap()
    .encode();
    assert_eq!(written.get("subject"), Some(&Json::Text("s".to_string())));
    assert_eq!(written.get("object"), Some(&doc(r#"["a","b"]"#)));
    let relationship = written.get("relationship").unwrap();
    assert_eq!(relationship.get("type"), Some(&Json::Text("Note".to_string())));
    let e = TaggedObject::decode(&doc(r#"{"type":"Tombstone","formerType":"Note"}"#)).unwrap_err();
    assert_eq!(e.kind, ErrorKind::FieldTypeMismatch);
    assert_eq!(e.path, vec!["formerType".to_string()]);
    let written = TaggedObject::decode(&doc(
        r#"{"type":"Tombstone","formerType":{"type":"Image"},"deleted":"2016-05-03T00:00:00Z"}"#,
    ))
    .unwrap()
    .encode();
    assert_eq!(written.get("deleted"), Some(&Json::Text("2016-05-03T00:00:00Z".to_string())));
}

#[test]
fn parse_reads_a_tagged_object_from_text() {
    let value = TaggedObject::parse(r#"{"type":"Person","name":"Sally"}"#).unwrap();
    assert!(matches!(value, TaggedObject::Person(_)));
    assert_eq!(TaggedObject::parse("{").unwrap_err().kind, ErrorKind::MalformedInput);
    assert_eq!(
        TaggedObject::parse(r#"{"type":"Nope"}"#).unwrap_err().kind,
        ErrorKind::UnknownVariant("Nope".to_string())
    );
}

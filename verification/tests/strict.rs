use linkeddata::error::{Bound, CodecError, ErrorKind, Union};
use linkeddata::json::Json;
use linkeddata::schema::{candidates_tried, Family, Layout, Plain};
use linkeddata::strict::{
    find_unknown, layout_names, layout_of_tag, unknown_record_field, unknown_tagged_field,
};

fn doc(text: &str) -> Json {
    Json::parse(text).unwrap()
}

#[test]
fn layout_names_lists_own_fields_before_inherited_ones() {
    assert_eq!(
        layout_names(Layout::Link),
        vec!["href", "rel", "mediaType", "name", "nameMap", "hreflang", "height", "width", "preview"]
    );
    let question = layout_names(Layout::Question);
    assert_eq!(question.len(), 3 + 6 + 29);
    assert_eq!(&question[..4], &["oneOf", "anyOf", "closed", "actor"]);
    assert_eq!(question[9], "attachment");
    assert_eq!(question[37], "duration");
    assert_eq!(layout_names(Layout::Object).len(), 29);
    assert_eq!(layout_names(Layout::OrderedCollectionPage).len(), 4 + 6 + 29);
}

#[test]
fn the_names_of_a_layout_are_all_different() {
    for layout in [
        Layout::Object, Layout::Link, Layout::Activity, Layout::Collection,
        Layout::OrderedCollection, Layout::CollectionPage, Layout::OrderedCollectionPage,
        Layout::Question, Layout::Relationship, Layout::Place, Layout::Profile, Layout::Tombstone,
    ] {
        let mut names = layout_names(layout);
        let count = names.len();
        names.sort();
        names.dedup();
        assert_eq!(names.len(), count, "{:?}", layout);
        assert!(!names.contains(&"type"));
        assert!(!names.contains(&"@context"));
    }
}

#[test]
fn layout_of_tag_knows_each_family() {
    assert_eq!(layout_of_tag(Family::Object, "Note"), Some(Layout::Object));
    assert_eq!(layout_of_tag(Family::Object, "Like"), Some(Layout::Activity));
    assert_eq!(layout_of_tag(Family::Object, "Dislike"), Some(Layout::Activity));
    assert_eq!(layout_of_tag(Family::Object, "Question"), Some(Layout::Question));
    assert_eq!(layout_of_tag(Family::Object, "Mention"), Some(Layout::Link));
    assert_eq!(layout_of_tag(Family::Object, "Tombstone"), Some(Layout::Tombstone));
    assert_eq!(layout_of_tag(Family::Object, "Link"), None);
    assert_eq!(layout_of_tag(Family::Object, "IntransitiveActivity"), None);
    assert_eq!(layout_of_tag(Family::Link, "Link"), Some(Layout::Link));
    assert_eq!(layout_of_tag(Family::Link, "Mention"), None);
    assert_eq!(layout_of_tag(Family::Image, "Image"), Some(Layout::Object));
    assert_eq!(layout_of_tag(Family::Image, "Video"), None);
    assert_eq!(layout_of_tag(Family::Collection, "OrderedCollection"), Some(Layout::OrderedCollection));
    assert_eq!(layout_of_tag(Family::Collection, "Note"), None);
    assert_eq!(layout_of_tag(Family::CollectionPage, "CollectionPage"), Some(Layout::CollectionPage));
    assert_eq!(layout_of_tag(Family::CollectionPage, "Collection"), None);
}

#[test]
fn find_unknown_reports_the_first_unknown_key() {
    let j = doc(r#"{"a":1,"x":2,"b":3,"y":4}"#);
    assert_eq!(find_unknown(&j, &vec!["a", "b"]), Some("x".to_string()));
    assert_eq!(find_unknown(&j, &vec!["a", "b", "x"]), Some("y".to_string()));
    assert_eq!(find_unknown(&j, &vec!["y", "x", "b", "a"]), None);
    assert_eq!(find_unknown(&doc("[1]"), &vec![]), None);
    assert_eq!(find_unknown(&doc("{}"), &vec![]), None);
}

#[test]
fn a_strict_caller_can_refuse_unknown_fields() {
    let j = doc(r#"{"type":"Note","name":"n","sparkle":true}"#);
    assert_eq!(unknown_tagged_field(Family::Object, &j, false), Some("sparkle".to_string()));
    let j = doc(r#"{"type":"Note","name":"n","to":"x"}"#);
    assert_eq!(unknown_tagged_field(Family::Object, &j, false), None);
    let j = doc(r#"{"@context":"c","type":"Note","name":"n"}"#);
    assert_eq!(unknown_tagged_field(Family::Object, &j, false), Some("@context".to_string()));
    assert_eq!(unknown_tagged_field(Family::Object, &j, true), None);
    let j = doc(r#"{"type":"Note","actor":"a"}"#);
    assert_eq!(unknown_tagged_field(Family::Object, &j, false), Some("actor".to_string()));
    let j = doc(r#"{"type":"Like","actor":"a"}"#);
    assert_eq!(unknown_tagged_field(Family::Object, &j, false), None);
    let j = doc(r#"{"type":"Sandwich","actor":"a"}"#);
    assert_eq!(unknown_tagged_field(Family::Object, &j, false), None);
}

#[test]
fn a_bare_record_does_not_know_the_discriminator() {
    let j = doc(r#"{"href":"h","type":"Link"}"#);
    assert_eq!(unknown_record_field(Layout::Link, &j), Some("type".to_string()));
    assert_eq!(unknown_record_field(Layout::Link, &doc(r#"{"href":"h"}"#)), None);
    assert_eq!(unknown_record_field(Layout::Link, &doc(r#""h""#)), None);
}

#[test]
fn a_union_names_the_shapes_that_it_tried() {
    assert_eq!(
        candidates_tried(Union::Object),
        vec![Plain::Text, Plain::Tagged(Family::Link), Plain::Tagged(Family::Object)]
    );
    assert_eq!(candidates_tried(Union::Link), vec![Plain::Text, Plain::Tagged(Family::Link)]);
    assert_eq!(
        candidates_tried(Union::Closed),
        vec![
            Plain::Text,
            Plain::Tagged(Family::Link),
            Plain::Tagged(Family::Object),
            Plain::Instant,
            Plain::Flag
        ]
    );
    assert_eq!(candidates_tried(Union::Image)[2], Plain::Tagged(Family::Image));
    assert_eq!(candidates_tried(Union::Collection)[2], Plain::Tagged(Family::Collection));
    assert_eq!(candidates_tried(Union::CollectionPage)[2], Plain::Tagged(Family::CollectionPage));
}

#[test]
fn describe_joins_the_path_and_the_sentence() {
    let e = CodecError::at_root(ErrorKind::EmptyCollection);
    assert_eq!(e.describe(), "an array of one or more items is empty");
    let e = CodecError::at_root(ErrorKind::BoundViolation { value: 0, bound: Bound::Percentage })
        .within("accuracy")
        .within("describes");
    assert_eq!(e.path, vec!["describes".to_string(), "accuracy".to_string()]);
    assert_eq!(e.describe(), "describes.accuracy: Percentage must be +0 <= X <= +100");
    let e = CodecError::at_root(ErrorKind::MissingDiscriminator).within("object");
    assert_eq!(e.describe(), "object: the discriminator field is missing");
    assert_eq!(
        CodecError::at_root(ErrorKind::UnknownVariant("X".to_string())).message(),
        "the discriminator names an unknown variant"
    );
    assert_eq!(
        CodecError::at_root(ErrorKind::FieldTypeMismatch).message(),
        "the value has the wrong JSON type"
    );
}

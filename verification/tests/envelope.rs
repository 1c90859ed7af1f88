use linkeddata::activity_streams::objects::Object;
use linkeddata::activity_streams::{MaybeObject, TaggedObject};
use linkeddata::error::ErrorKind;
use linkeddata::json::Json;
use linkeddata::{AsLinkedData, LinkedData};

#[derive(Debug, PartialEq)]
struct TestLD {
    a: String,
}

impl AsLinkedData for TestLD {
    type ContextType = &'static str;

    fn get_ld_context(&self) -> Self::ContextType {
        "TEST"
    }
}

fn doc(text: &str) -> Json {
    Json::parse(text).unwrap()
}

const CREATE: &str = r#"{
    "@context": "https://www.w3.org/ns/activitystreams",
    "summary": "Sally created a note",
    "type": "Create",
    "actor": {
        "type": "Person",
        "name": "Sally"
    },
    "object": {
        "type": "Note",
        "name": "A Simple Note",
        "content": "This is a simple note"
    },
    "published": "2015-02-10T15:04:55Z"
}"#;

#[test]
fn test_parse() {
    let value = LinkedData::<TaggedObject, Json>::parse(CREATE).unwrap();
    println!("{:#?}", value);
    assert!(matches!(value.data, TaggedObject::Create(_)));
    assert_eq!(value.context, Json::Text("https://www.w3.org/ns/activitystreams".to_string()));
}

#[test]
fn into_linked_data_pairs_payload_and_context() {
    let wrapped = TestLD { a: "x".to_string() }.into_linked_data();
    assert_eq!(wrapped.data, TestLD { a: "x".to_string() });
    assert_eq!(wrapped.context, "TEST");
}

#[test]
fn new_keeps_both_parts() {
    let wrapped = LinkedData::new(5u8, "ctx".to_string());
    assert_eq!(wrapped.data, 5);
    assert_eq!(wrapped.context, "ctx");
}

#[test]
fn an_envelope_is_written_with_the_context_last() {
    let value = LinkedData::<TaggedObject, Json>::parse(CREATE).unwrap();
    let written = value.encode();
    match &written {
        Json::Object(fields) => {
            assert_eq!(fields[0].0, "type");
            assert_eq!(fields[fields.len() - 1].0, "@context");
            assert_eq!(fields.iter().filter(|(k, _)| k == "@context").count(), 1);
        }
        other => panic!("not an object: {:?}", other),
    }
    assert_eq!(
        written.get("@context"),
        Some(&Json::Text("https://www.w3.org/ns/activitystreams".to_string()))
    );
    assert_eq!(written.get("summary"), Some(&Json::Text("Sally created a note".to_string())));
    let again = LinkedData::<TaggedObject, Json>::decode(&written).unwrap();
    assert_eq!(again, value);
    assert_eq!(again.encode(), written);
}

#[test]
fn the_payload_does_not_depend_on_the_context() {
    let plain = LinkedData::<TaggedObject, Json>::parse(CREATE).unwrap();
    let spoilt = CREATE.replace(
        r#""https://www.w3.org/ns/activitystreams""#,
        r#"[{"vocab": 17}, null, [true]]"#,
    );
    let other = LinkedData::<TaggedObject, Json>::parse(&spoilt).unwrap();
    assert_eq!(other.data, plain.data);
    assert_ne!(other.context, plain.context);
    assert_eq!(other.context, doc(r#"[{"vocab": 17}, null, [true]]"#));
    let alone = TaggedObject::parse(CREATE).unwrap();
    assert_eq!(alone, plain.data);
}

#[test]
fn a_context_of_the_wrong_type_fails_under_its_key() {
    let e = LinkedData::<TaggedObject, String>::parse(
        r#"{"@context": 5, "type": "Note"}"#,
    )
    .unwrap_err();
    assert_eq!(e.kind, ErrorKind::FieldTypeMismatch);
    assert_eq!(e.path, vec!["@context".to_string()]);
    let ok = LinkedData::<TaggedObject, String>::parse(r#"{"@context": "c", "type": "Note"}"#)
        .unwrap();
    assert_eq!(ok.context, "c");
}

#[test]
fn an_envelope_needs_its_context() {
    let e = LinkedData::<TaggedObject, Json>::parse(r#"{"type": "Note"}"#).unwrap_err();
    assert_eq!(e.kind, ErrorKind::MissingRequiredField);
    assert_eq!(e.path, vec!["@context".to_string()]);
    assert_eq!(e.message(), "a required field is missing");
}

#[test]
fn an_envelope_needs_its_payload() {
    let e = LinkedData::<TaggedObject, Json>::parse(r#"{"@context": "c"}"#).unwrap_err();
    assert_eq!(e.kind, ErrorKind::MissingDiscriminator);
    let e = LinkedData::<TaggedObject, Json>::parse(r#"["@context"]"#).unwrap_err();
    assert_eq!(e.kind, ErrorKind::FieldTypeMismatch);
    let e = LinkedData::<TaggedObject, Json>::parse("not json").unwrap_err();
    assert_eq!(e.kind, ErrorKind::MalformedInput);
}

#[test]
fn a_bare_record_can_be_the_payload() {
    let value = LinkedData::<Object, String>::parse(r#"{"name": "n", "@context": "c"}"#).unwrap();
    assert_eq!(value.context, "c");
    let written = value.encode();
    assert_eq!(written.get("name"), Some(&Json::Text("n".to_string())));
    assert_eq!(written.get("@context"), Some(&Json::Text("c".to_string())));
    assert_eq!(written.get("type"), None);
}

#[test]
fn the_context_field_of_an_object_is_not_the_envelope_context() {
    let value = LinkedData::<TaggedObject, String>::parse(
        r#"{"type": "Note", "context": "https://example.org/thread", "@context": "c"}"#,
    )
    .unwrap();
    let written = value.encode();
    assert_eq!(
        written.get("context"),
        Some(&Json::Text("https://example.org/thread".to_string()))
    );
    assert_eq!(written.get("@context"), Some(&Json::Text("c".to_string())));
    assert!(matches!(
        MaybeObject::decode(&doc(r#""https://example.org/thread""#)).unwrap(),
        MaybeObject::URI(_)
    ));
}

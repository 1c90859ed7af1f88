use linkeddata::activity_streams::TaggedObject;
use linkeddata::json::Json;
use linkeddata::LinkedData;

const DOCUMENTS: [&str; 8] = [
    r#"{"@context":"https://www.w3.org/ns/activitystreams","type":"Object",
        "id":"http://www.test.example/object/1","name":"A Simple, non-specific object"}"#,
    r#"{"@context":"https://www.w3.org/ns/activitystreams","type":"Activity",
        "summary":"Sally did something to a note",
        "actor":{"type":"Person","name":"Sally"},
        "object":{"type":"Note","name":"A Note"}}"#,
    r#"{"@context":"https://www.w3.org/ns/activitystreams","type":"Travel",
        "summary":"Sally went to work",
        "actor":{"type":"Person","name":"Sally"},
        "target":{"type":"Place","name":"Work","latitude":36.75,"longitude":119.7667,"radius":15,
                  "units":"miles","accuracy":94.5}}"#,
    r#"{"@context":"https://www.w3.org/ns/activitystreams","type":"OrderedCollection",
        "summary":"Sally's notes","totalItems":2,
        "orderedItems":[{"type":"Note","name":"A Simple Note"},{"type":"Note","name":"Another Simple Note"}]}"#,
    r#"{"@context":{"@vocab":"https://www.w3.org/ns/activitystreams","ext":"https://canine-extension.example/terms/"},
        "type":"CollectionPage","summary":"Page 1 of Sally's notes",
        "partOf":"http://example.org/foo","next":"http://example.org/foo?page=2",
        "items":["http://example.org/1",{"type":"Link","href":"http://example.org/2","rel":["canonical","preview"]}]}"#,
    r#"{"@context":"https://www.w3.org/ns/activitystreams","type":"Question",
        "name":"What is the answer?",
        "oneOf":[{"type":"Note","name":"Option A"},{"type":"Note","name":"Option B"}],
        "closed":"2016-05-10T00:00:00Z"}"#,
    r#"{"@context":"https://www.w3.org/ns/activitystreams","type":"Tombstone",
        "formerType":[{"type":"Image","name":"gone"}],"deleted":"2016-05-03T00:00:00+02:00",
        "nameMap":{"en":"A simple note","es":"Una nota sencilla"},
        "url":[{"type":"Link","href":"http://example.org/4q-sales-forecast.pdf","mediaType":"application/pdf",
                "height":7,"width":9}],
        "icon":{"type":"Image","name":"Note icon","url":"http://example.org/note.png"},
        "replies":{"type":"Collection","totalItems":1,"items":{"type":"Note","inReplyTo":"http://example.org/posts/1"}}}"#,
    r#"{"@context":null,"type":"Relationship","subject":{"type":"Person","name":"Sally"},
        "relationship":{"type":"Profile","describes":{"type":"Person","name":"John"}},
        "object":[{"type":"Person","name":"John"}],"startTime":"2014-12-31T23:00:00-08:00",
        "endTime":"2015-01-01T06:00:00.125Z","duration":"PT2H"}"#,
];

#[test]
fn writing_and_reading_again_changes_nothing() {
    for text in DOCUMENTS {
        let first = LinkedData::<TaggedObject, Json>::parse(text).unwrap();
        let written = first.encode();
        let second = LinkedData::<TaggedObject, Json>::decode(&written).unwrap();
        assert_eq!(second, first, "{}", text);
        assert_eq!(second.encode(), written, "{}", text);
    }
}

#[test]
fn one_item_arrays_are_written_bare_from_the_first_time() {
    let value = TaggedObject::parse(DOCUMENTS[7]).unwrap();
    let written = value.encode();
    let object = written.get("object").unwrap();
    assert_eq!(object.get("name"), Some(&Json::Text("John".to_string())));
    let value = TaggedObject::parse(DOCUMENTS[6]).unwrap();
    let written = value.encode();
    assert_eq!(
        written.get("formerType").unwrap().get("name"),
        Some(&Json::Text("gone".to_string()))
    );
    assert_eq!(
        written.get("url").unwrap().get("href"),
        Some(&Json::Text("http://example.org/4q-sales-forecast.pdf".to_string()))
    );
    assert_eq!(
        written.get("deleted"),
        Some(&Json::Text("2016-05-03T00:00:00+02:00".to_string()))
    );
}

#[test]
fn a_context_may_be_any_document() {
    let object = LinkedData::<TaggedObject, Json>::parse(DOCUMENTS[4]).unwrap();
    assert!(matches!(object.context, Json::Object(_)));
    assert_eq!(
        object.context.get("@vocab"),
        Some(&Json::Text("https://www.w3.org/ns/activitystreams".to_string()))
    );
    let null = LinkedData::<TaggedObject, Json>::parse(DOCUMENTS[7]).unwrap();
    assert_eq!(null.context, Json::Null);
}

use linkeddata::error::ErrorKind;
use linkeddata::json::{same, Json, Number};

#[test]
fn parse_reads_every_kind_of_value() {
    let j = Json::parse(r#"{"s":"text","t":true,"n":null,"a":[1,-2,1.5],"o":{"k":"v"}}"#).unwrap();
    assert_eq!(
        j,
        Json::Object(vec![
            ("s".to_string(), Json::Text("text".to_string())),
            ("t".to_string(), Json::Bool(true)),
            ("n".to_string(), Json::Null),
            (
                "a".to_string(),
                Json::Array(vec![
                    Json::Number(Number::PosInt(1)),
                    Json::Number(Number::NegInt(-2)),
                    Json::Number(Number::Float(1.5f64.to_bits())),
                ])
            ),
            ("o".to_string(), Json::Object(vec![("k".to_string(), Json::Text("v".to_string()))])),
        ])
    );
}

#[test]
fn parse_keeps_the_order_of_fields() {
    let j = Json::parse(r#"{"zebra":1,"apple":2,"mango":3}"#).unwrap();
    match j {
        Json::Object(fields) => {
            let keys: Vec<&str> = fields.iter().map(|(k, _)| k.as_str()).collect();
            assert_eq!(keys, vec!["zebra", "apple", "mango"]);
        }
        other => panic!("not an object: {:?}", other),
    }
}

#[test]
fn parse_refuses_what_is_no_json() {
    for text in ["", "{", "[1,2", "{\"a\":}", "nul", "1 2", "{'a':1}"] {
        let e = Json::parse(text).unwrap_err();
        assert_eq!(e.kind, ErrorKind::MalformedInput, "{}", text);
        assert!(e.path.is_empty());
        assert_eq!(e.message(), "the text is not a JSON document");
    }
}

#[test]
fn parse_tells_large_integers_from_floats() {
    assert_eq!(
        Json::parse("18446744073709551615").unwrap(),
        Json::Number(Number::PosInt(u64::MAX))
    );
    assert_eq!(
        Json::parse("-9223372036854775808").unwrap(),
        Json::Number(Number::NegInt(i64::MIN))
    );
    assert_eq!(Json::parse("1e3").unwrap(), Json::Number(Number::Float(1000.0f64.to_bits())));
}

#[test]
fn get_finds_a_field_by_its_key() {
    let j = Json::parse(r#"{"a":1,"b":"two"}"#).unwrap();
    assert_eq!(j.get("b"), Some(&Json::Text("two".to_string())));
    assert_eq!(j.get("c"), None);
    assert_eq!(Json::Text("a".to_string()).get("a"), None);
}

#[test]
fn get_takes_the_first_of_equal_keys() {
    let j = Json::Object(vec![
        ("k".to_string(), Json::Bool(true)),
        ("k".to_string(), Json::Bool(false)),
    ]);
    assert_eq!(j.get("k"), Some(&Json::Bool(true)));
}

#[test]
fn copy_is_equal_to_the_document() {
    let j = Json::parse(r#"{"a":[1,{"b":[true,null,"x"]}],"c":-4.25}"#).unwrap();
    assert_eq!(j.copy(), j);
}

#[test]
fn same_compares_characters() {
    assert!(same("type", "type"));
    assert!(!same("type", "Type"));
    assert!(!same("type", "typ"));
    assert!(same("", ""));
}

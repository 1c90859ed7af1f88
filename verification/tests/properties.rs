use linkeddata::activity_streams::properties::{
    decode_count, decode_flag, decode_instant, decode_percentage, decode_positive_float,
    decode_real, decode_relations, decode_text, encode_relations, present, read_count, read_text,
    write_text,
};
use linkeddata::error::{Bound, ErrorKind};
use linkeddata::json::{Json, Number};
use linkeddata::marker_types::LocalizedString;
use linkeddata::util::FoldedSlice;

fn doc(text: &str) -> Json {
    Json::parse(text).unwrap()
}

#[test]
fn folded_strings_read_one_or_many() {
    let one = decode_relations(&doc(r#""x""#)).unwrap();
    assert_eq!(one, FoldedSlice::One(Box::new("x".to_string())));
    let folded = decode_relations(&doc(r#"["x"]"#)).unwrap();
    assert_eq!(folded, FoldedSlice::One(Box::new("x".to_string())));
    let many = decode_relations(&doc(r#"["x","y"]"#)).unwrap();
    assert_eq!(many, FoldedSlice::Many(vec!["x".to_string(), "y".to_string()]));
}

#[test]
fn folded_strings_are_written_in_the_canonical_form() {
    let folded = decode_relations(&doc(r#"["x"]"#)).unwrap();
    assert_eq!(encode_relations(&folded), doc(r#""x""#));
    let one = decode_relations(&doc(r#""x""#)).unwrap();
    assert_eq!(encode_relations(&one), doc(r#""x""#));
    let many = decode_relations(&doc(r#"["x","y"]"#)).unwrap();
    assert_eq!(encode_relations(&many), doc(r#"["x","y"]"#));
}

#[test]
fn folded_strings_refuse_an_empty_array() {
    let e = decode_relations(&doc("[]")).unwrap_err();
    assert_eq!(e.kind, ErrorKind::EmptyCollection);
    assert_eq!(e.message(), "an array of one or more items is empty");
}

#[test]
fn folded_strings_refuse_a_wrong_item() {
    let e = decode_relations(&doc(r#"["x",3,true]"#)).unwrap_err();
    assert_eq!(e.kind, ErrorKind::FieldTypeMismatch);
    let e = decode_relations(&doc("3")).unwrap_err();
    assert_eq!(e.kind, ErrorKind::FieldTypeMismatch);
}

#[test]
fn a_sequence_built_with_one_item_is_written_as_an_array() {
    let built = FoldedSlice::Many(vec!["x".to_string()]);
    assert_eq!(encode_relations(&built), doc(r#"["x"]"#));
}

#[test]
fn text_count_and_flag_ask_for_their_type() {
    assert_eq!(decode_text(&doc(r#""a""#)).unwrap(), "a");
    assert_eq!(decode_text(&doc("1")).unwrap_err().kind, ErrorKind::FieldTypeMismatch);
    assert_eq!(decode_count(&doc("7")).unwrap(), 7);
    assert_eq!(decode_count(&doc("-7")).unwrap_err().kind, ErrorKind::FieldTypeMismatch);
    assert_eq!(decode_count(&doc("7.0")).unwrap_err().kind, ErrorKind::FieldTypeMismatch);
    assert_eq!(decode_count(&doc(r#""7""#)).unwrap_err().kind, ErrorKind::FieldTypeMismatch);
    assert_eq!(decode_flag(&doc("true")).unwrap(), true);
    assert_eq!(decode_flag(&doc("0")).unwrap_err().kind, ErrorKind::FieldTypeMismatch);
}

#[test]
fn real_reads_integers_as_floating_point() {
    assert_eq!(f64::from_bits(decode_real(&doc("5")).unwrap()), 5.0);
    assert_eq!(f64::from_bits(decode_real(&doc("-2")).unwrap()), -2.0);
    assert_eq!(f64::from_bits(decode_real(&doc("0.25")).unwrap()), 0.25);
    assert_eq!(
        f64::from_bits(decode_real(&doc("18446744073709551615")).unwrap()),
        18446744073709551615u64 as f64
    );
    assert_eq!(decode_real(&doc(r#""5""#)).unwrap_err().kind, ErrorKind::FieldTypeMismatch);
}

#[test]
fn percentage_is_checked_when_it_is_read() {
    assert_eq!(f64::from_bits(decode_percentage(&doc("100")).unwrap().get()), 100.0);
    assert_eq!(f64::from_bits(decode_percentage(&doc("0")).unwrap().get()), 0.0);
    assert_eq!(f64::from_bits(decode_percentage(&doc("12.5")).unwrap().get()), 12.5);
    let e = decode_percentage(&doc("101")).unwrap_err();
    assert_eq!(
        e.kind,
        ErrorKind::BoundViolation { value: 101.0f64.to_bits(), bound: Bound::Percentage }
    );
    let e = decode_percentage(&doc("-1")).unwrap_err();
    assert_eq!(
        e.kind,
        ErrorKind::BoundViolation { value: (-1.0f64).to_bits(), bound: Bound::Percentage }
    );
    assert_eq!(decode_percentage(&doc("null")).unwrap_err().kind, ErrorKind::FieldTypeMismatch);
}

#[test]
fn positive_float_is_checked_when_it_is_read() {
    assert_eq!(f64::from_bits(decode_positive_float(&doc("3")).unwrap().get()), 3.0);
    assert_eq!(f64::from_bits(decode_positive_float(&doc("0.0")).unwrap().get()), 0.0);
    let e = decode_positive_float(&doc("-0.0")).unwrap_err();
    assert_eq!(
        e.kind,
        ErrorKind::BoundViolation { value: (-0.0f64).to_bits(), bound: Bound::NonNegative }
    );
    let e = decode_positive_float(&doc("-3")).unwrap_err();
    assert_eq!(
        e.kind,
        ErrorKind::BoundViolation { value: (-3.0f64).to_bits(), bound: Bound::NonNegative }
    );
}

#[test]
fn instant_is_read_from_text() {
    let d = decode_instant(&doc(r#""2016-05-10T00:00:00Z""#)).unwrap();
    assert_eq!(d.seconds(), 1462838400);
    assert_eq!(decode_instant(&doc(r#""soon""#)).unwrap_err().kind, ErrorKind::FieldTypeMismatch);
    assert_eq!(decode_instant(&doc("1462838400")).unwrap_err().kind, ErrorKind::FieldTypeMismatch);
}

#[test]
fn present_passes_over_null_and_absent_fields() {
    let j = doc(r#"{"a":null,"b":1}"#);
    assert_eq!(present(&j, "a"), None);
    assert_eq!(present(&j, "c"), None);
    assert_eq!(present(&j, "b"), Some(&Json::Number(Number::PosInt(1))));
}

#[test]
fn a_field_failure_carries_the_key() {
    let j = doc(r#"{"name":5,"width":"wide"}"#);
    let e = read_text(&j, "name").unwrap_err();
    assert_eq!(e.kind, ErrorKind::FieldTypeMismatch);
    assert_eq!(e.path, vec!["name".to_string()]);
    let e = read_count(&j, "width").unwrap_err();
    assert_eq!(e.path, vec!["width".to_string()]);
    assert_eq!(read_text(&j, "summary").unwrap(), None);
}

#[test]
fn an_absent_value_is_written_as_null() {
    assert_eq!(write_text(&None), Json::Null);
    assert_eq!(write_text(&Some("a".to_string())), Json::Text("a".to_string()));
}

#[test]
fn localized_string_keeps_each_tag_once() {
    let m = LocalizedString::decode(&Json::Object(vec![
        ("en".to_string(), Json::Text("one".to_string())),
        ("fr".to_string(), Json::Text("un".to_string())),
        ("en".to_string(), Json::Text("uno".to_string())),
    ]))
    .unwrap();
    assert_eq!(m.len(), 2);
    assert_eq!(m.encode(), doc(r#"{"en":"uno","fr":"un"}"#));
    let again = LocalizedString::decode(&m.encode()).unwrap();
    assert_eq!(again, m);
}

#[test]
fn localized_string_refuses_what_is_no_text() {
    let e = LocalizedString::decode(&doc(r#"{"en":"one","fr":2}"#)).unwrap_err();
    assert_eq!(e.kind, ErrorKind::FieldTypeMismatch);
    assert_eq!(e.path, vec!["fr".to_string()]);
    let e = LocalizedString::decode(&doc(r#"["en"]"#)).unwrap_err();
    assert_eq!(e.kind, ErrorKind::FieldTypeMismatch);
    assert!(e.path.is_empty());
}

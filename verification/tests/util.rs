use linkeddata::error::ErrorKind;
use linkeddata::util::FoldedSlice;

#[test]
fn from_one_holds_one() {
    let f = FoldedSlice::from_one(7u32);
    assert_eq!(f, FoldedSlice::One(Box::new(7)));
    assert_eq!(f.as_slice(), &[7]);
    assert_eq!(f.len(), 1);
}

#[test]
fn from_many_folds_a_single_item() {
    let f = FoldedSlice::from_many(vec!["Hello!".to_string()]).unwrap();
    assert_eq!(f, FoldedSlice::One(Box::new("Hello!".to_string())));
    assert_eq!(f.as_slice(), &["Hello!".to_string()]);
}

#[test]
fn from_many_keeps_order() {
    let f = FoldedSlice::from_many(vec![3u8, 1, 2]).unwrap();
    assert_eq!(f, FoldedSlice::Many(vec![3, 1, 2]));
    assert_eq!(f.as_slice(), &[3, 1, 2]);
    assert_eq!(f.len(), 3);
}

#[test]
fn from_many_refuses_nothing() {
    let e = FoldedSlice::<u8>::from_many(Vec::new()).unwrap_err();
    assert_eq!(e.kind, ErrorKind::EmptyCollection);
    assert!(e.path.is_empty());
}

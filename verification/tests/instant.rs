use linkeddata::instant::DateTime;

#[test]
fn parse_reads_a_utc_time() {
    let d = DateTime::parse("2016-05-10T00:00:00Z").unwrap();
    assert_eq!(d.seconds(), 1462838400);
    assert_eq!(d.nanoseconds(), 0);
    assert_eq!(d.offset(), 0);
    assert_eq!(d.to_text(), "2016-05-10T00:00:00Z");
}

#[test]
fn parse_reads_an_offset_and_a_fraction() {
    let d = DateTime::parse("2014-12-31T23:00:00.250-08:00").unwrap();
    assert_eq!(d.seconds(), 1420095600);
    assert_eq!(d.nanoseconds(), 250_000_000);
    assert_eq!(d.offset(), -8 * 3600);
    assert_eq!(d.to_text(), "2014-12-31T23:00:00.250-08:00");
}

#[test]
fn text_is_written_in_one_form() {
    let d = DateTime::parse("2016-05-10 00:00:00+00:00").unwrap();
    assert_eq!(d.to_text(), "2016-05-10T00:00:00Z");
    let again = DateTime::parse(&d.to_text()).unwrap();
    assert_eq!(again, d);
}

#[test]
fn parse_refuses_what_is_no_date() {
    assert!(DateTime::parse("yesterday").is_none());
    assert!(DateTime::parse("2016-13-10T00:00:00Z").is_none());
    assert!(DateTime::parse("2016-05-10").is_none());
    assert!(DateTime::parse("").is_none());
}

#[test]
fn new_builds_from_plain_numbers() {
    let d = DateTime::new(0, 0, 3600).unwrap();
    assert_eq!(d.to_text(), "1970-01-01T01:00:00+01:00");
    assert_eq!(d.seconds(), 0);
    assert_eq!(d.offset(), 3600);
}

#[test]
fn new_refuses_what_cannot_be_written() {
    assert!(DateTime::new(0, 0, 86_400).is_none());
    assert!(DateTime::new(0, 0, -86_400).is_none());
    assert!(DateTime::new(i64::MAX, 0, 0).is_none());
    assert!(DateTime::new(0, 2_000_000_000, 0).is_none());
}

#[test]
fn copy_is_equal() {
    let d = DateTime::parse("2020-02-29T12:30:45+05:30").unwrap();
    assert_eq!(d.copy(), d);
}

use linkeddata::bounded::{Percentage, PositiveFloat};
use linkeddata::error::{Bound, ErrorKind};

fn percentage(x: f64) -> Result<Percentage, linkeddata::error::CodecError> {
    Percentage::new(x.to_bits())
}

fn positive(x: f64) -> Result<PositiveFloat, linkeddata::error::CodecError> {
    PositiveFloat::new(x.to_bits())
}

#[test]
fn percentage_bounds_are_inclusive() {
    assert!(percentage(-0.0001).is_err());
    assert!(percentage(0.0).is_ok());
    assert!(percentage(100.0).is_ok());
    assert!(percentage(100.0001).is_err());
}

#[test]
fn percentage_keeps_its_number() {
    let p = percentage(42.5).unwrap();
    assert_eq!(f64::from_bits(p.get()), 42.5);
}

#[test]
fn percentage_accepts_negative_zero() {
    assert!(percentage(-0.0).is_ok());
}

#[test]
fn percentage_refuses_what_is_no_number() {
    assert!(percentage(f64::NAN).is_err());
    assert!(percentage(-f64::NAN).is_err());
    assert!(percentage(f64::INFINITY).is_err());
    assert!(percentage(f64::NEG_INFINITY).is_err());
}

#[test]
fn percentage_violation_carries_value_and_bound() {
    let e = percentage(150.0).unwrap_err();
    assert_eq!(
        e.kind,
        ErrorKind::BoundViolation { value: 150.0f64.to_bits(), bound: Bound::Percentage }
    );
    assert!(e.path.is_empty());
    assert_eq!(e.message(), "Percentage must be +0 <= X <= +100");
}

#[test]
fn percentage_agrees_with_float_comparison() {
    let samples = [
        0.0, -0.0, 1.0, -1.0, 99.999999, 100.0, 100.00000000000001, 5e-324, -5e-324, 1e300,
        -1e300, 50.0, 0.5, 2.2250738585072014e-308, f64::MAX, f64::MIN,
    ];
    for x in samples {
        assert_eq!(percentage(x).is_ok(), x >= 0.0 && x <= 100.0, "{}", x);
    }
}

#[test]
fn positive_float_policy() {
    assert!(positive(0.0).is_ok());
    assert!(positive(-0.0).is_err());
    assert!(positive(-1.0).is_err());
    assert!(positive(1.5).is_ok());
    assert!(positive(f64::INFINITY).is_ok());
    assert!(positive(f64::NAN).is_err());
}

#[test]
fn positive_float_violation_carries_value_and_bound() {
    let e = positive(-1.0).unwrap_err();
    assert_eq!(
        e.kind,
        ErrorKind::BoundViolation { value: (-1.0f64).to_bits(), bound: Bound::NonNegative }
    );
    assert_eq!(e.message(), "Positive float must be >= +0");
}

#[test]
fn positive_float_keeps_its_number() {
    let p = positive(12.25).unwrap();
    assert_eq!(f64::from_bits(p.get()), 12.25);
}

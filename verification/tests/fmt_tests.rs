//! Tests for the display helper.

use flight_tracker::fmt_value;

#[test]
fn fmt_value_renders_integers() {
    assert_eq!(fmt_value(Some(42u16), 0), "42");
    assert_eq!(fmt_value(Some(-500i16), 0), "-500");
}

#[test]
fn fmt_value_applies_precision_to_reals() {
    assert_eq!(fmt_value(Some(3.14159f64), 4), "3.1416");
    assert_eq!(fmt_value(Some(90.0f64), 0), "90");
}

#[test]
fn fmt_value_renders_missing_values_as_placeholder() {
    assert_eq!(fmt_value(None::<u16>, 0), "N/A");
    assert_eq!(fmt_value(None::<f64>, 4), "N/A");
}

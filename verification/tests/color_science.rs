//! Integration tests for the color engine against known values.

use color_worker::color::{self, Rgb};

#[test]
fn hex_to_from_roundtrip() {
    assert_eq!(color::to_hex(255, 0, 0), "#ff0000");
    assert_eq!(color::from_hex("#ff0000"), Some(Rgb::new(255, 0, 0)));
    assert_eq!(color::from_hex("#FF0000"), Some(Rgb::new(255, 0, 0)));
    assert_eq!(color::from_hex("#f00"), Some(Rgb::new(255, 0, 0)));
    assert_eq!(color::from_hex("#ff000080"), Some(Rgb::new(255, 0, 0)));
    // round trip via the worker's own functions
    let c = color::from_hex("#3a7bd5").unwrap();
    assert_eq!(color::to_hex(c.r, c.g, c.b), "#3a7bd5");
}

#[test]
fn invalid_hex_yields_none() {
    for s in ["", "#", "zzz", "#12", "#1234", "#gggggg", "purple"] {
        assert_eq!(color::from_hex(s), None, "{s} should be None");
    }
}

#[test]
fn named_table_is_populated() {
    assert!(color::NAMED_COLORS.len() > 100);
    // 'red' is present and exactly #ff0000.
    let red = color::NAMED_COLORS
        .iter()
        .find(|(n, ..)| *n == "red")
        .unwrap();
    assert_eq!(color::to_hex(red.1, red.2, red.3), "#ff0000");
}

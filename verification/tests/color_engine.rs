//! Unit tests of hex formatting and parsing.

use color_worker::color::{from_hex, to_hex, Rgb};

#[test]
fn hex_roundtrip() {
    assert_eq!(to_hex(255, 0, 0), "#ff0000");
    assert_eq!(from_hex("#ff0000"), Some(Rgb::new(255, 0, 0)));
    assert_eq!(from_hex("ff0000"), Some(Rgb::new(255, 0, 0)));
    assert_eq!(from_hex("#f00"), Some(Rgb::new(255, 0, 0)));
    assert_eq!(from_hex("#ff0000ff"), Some(Rgb::new(255, 0, 0)));
    assert_eq!(from_hex("#abc"), Some(Rgb::new(170, 187, 204)));
}

#[test]
fn invalid_hex_is_none_not_panic() {
    assert_eq!(from_hex("nothex"), None);
    assert_eq!(from_hex("#12"), None);
    assert_eq!(from_hex("#1234"), None);
    assert_eq!(from_hex("#gggggg"), None);
    assert_eq!(from_hex(""), None);
    assert_eq!(from_hex("#"), None);
}

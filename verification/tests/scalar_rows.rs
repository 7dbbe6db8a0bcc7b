//! The row logic of the conversion scalars.

use color_worker::color::Rgb;
use color_worker::scalar::convert::{FromHex, ToHex};

#[test]
fn to_hex_red() {
    let out = ToHex::process_rows(&[Some(255)], &[Some(0)], &[Some(0)]);
    assert_eq!(out[0].as_deref(), Some("#ff0000"));
}

#[test]
fn to_hex_clamps_and_nulls() {
    let out = ToHex::process_rows(&[Some(300), None], &[Some(-5), Some(0)], &[Some(0), Some(0)]);
    assert_eq!(out[0].as_deref(), Some("#ff0000"));
    assert!(out[1].is_none(), "NULL operand → NULL");
}

#[test]
fn from_hex_struct() {
    let out = FromHex::process_rows(&[Some("#ff0000"), Some("nothex"), None]);
    let first = out[0].unwrap();
    assert_eq!(first.r as i32, 255);
    assert_eq!(first.g as i32, 0);
    assert_eq!(first.b as i32, 0);
    assert!(out[1].is_none(), "invalid hex → NULL struct row");
    assert!(out[2].is_none(), "NULL input → NULL struct row");
    assert_eq!(out.len(), 3);
    assert_eq!(first, Rgb::new(255, 0, 0));
}

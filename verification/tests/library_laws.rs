//! Concrete checks of the library's laws, edge cases and row logic.

use color_worker::color::{
    clamp_channel, from_hex, nearest_color_name, nearest_index, to_hex, Rgb, NAMED_COLORS,
    NAMED_COLOR_COUNT, UNREACHABLE_DISTANCE,
};
use color_worker::meta::{keywords_json, object_tags};
use color_worker::scalar::analysis::hex_pair_operands;
use color_worker::scalar::convert::rgb_operands;
use color_worker::table::named::NamedColors;
use color_worker::version;

#[test]
fn clamp_channel_clamps_out_of_range() {
    assert_eq!(clamp_channel(-5), 0);
    assert_eq!(clamp_channel(300), 255);
    assert_eq!(clamp_channel(128), 128);
    assert_eq!(clamp_channel(0), 0);
    assert_eq!(clamp_channel(255), 255);
    assert_eq!(clamp_channel(i32::MIN), 0);
    assert_eq!(clamp_channel(i32::MAX), 255);
}

#[test]
fn to_hex_pads_and_lowercases() {
    assert_eq!(to_hex(0, 15, 16), "#000f10");
    assert_eq!(to_hex(255, 99, 71), "#ff6347");
    assert_eq!(to_hex(0, 0, 0), "#000000");
}

#[test]
fn hex_roundtrip_law_on_samples() {
    for &(r, g, b) in &[(0u8, 0u8, 0u8), (1, 2, 3), (255, 255, 255), (16, 160, 250), (58, 123, 213)] {
        assert_eq!(from_hex(&to_hex(r, g, b)), Some(Rgb::new(r, g, b)));
    }
}

#[test]
fn reformat_law_on_sample() {
    let c = from_hex("#ff6347").unwrap();
    assert_eq!(to_hex(c.r, c.g, c.b), "#ff6347");
}

#[test]
fn short_form_doubles_digits() {
    assert_eq!(from_hex("#f0a"), from_hex("#ff00aa"));
    assert_eq!(from_hex("#f0a"), Some(Rgb::new(255, 0, 170)));
}

#[test]
fn alpha_is_dropped() {
    assert_eq!(from_hex("#12345678"), from_hex("#123456"));
    assert_eq!(from_hex("#12345678"), Some(Rgb::new(0x12, 0x34, 0x56)));
}

#[test]
fn hash_is_optional() {
    assert_eq!(from_hex("abc"), from_hex("#abc"));
    assert_eq!(from_hex("3a7bd5"), Some(Rgb::new(0x3a, 0x7b, 0xd5)));
}

#[test]
fn surrounding_whitespace_is_ignored() {
    assert_eq!(from_hex(" #ff0000\n"), Some(Rgb::new(255, 0, 0)));
    assert_eq!(from_hex("\u{3000}#fff\u{2009}"), Some(Rgb::new(255, 255, 255)));
    assert_eq!(from_hex("\t\r\n"), None);
}

#[test]
fn malformed_hex_is_none() {
    assert_eq!(from_hex("# fff"), None);
    assert_eq!(from_hex("##fff"), None);
    assert_eq!(from_hex("#ff 00 00"), None);
    assert_eq!(from_hex("#\u{ff46}\u{ff46}\u{ff46}"), None);
    assert_eq!(from_hex("#1234567"), None);
    assert_eq!(from_hex("#123456789"), None);
    assert_eq!(from_hex("#12345"), None);
}

#[test]
fn nearest_index_takes_first_minimum() {
    assert_eq!(nearest_index(&[5, 3, 3, 9]), 1);
    assert_eq!(nearest_index(&[7]), 0);
    assert_eq!(nearest_index(&[UNREACHABLE_DISTANCE, UNREACHABLE_DISTANCE]), 0);
    assert_eq!(nearest_index(&[UNREACHABLE_DISTANCE, 4, 2]), 2);
    assert_eq!(nearest_index(&[0, 0]), 0);
}

#[test]
fn nearest_color_name_by_keys() {
    let red = NAMED_COLORS.iter().position(|(n, ..)| *n == "red").unwrap();
    let mut keys = vec![UNREACHABLE_DISTANCE; NAMED_COLOR_COUNT];
    keys[red] = 0;
    assert_eq!(nearest_color_name(&keys), "red");
    let equal = vec![10u64; NAMED_COLOR_COUNT];
    assert_eq!(nearest_color_name(&equal), "aliceblue");
    let none = vec![UNREACHABLE_DISTANCE; NAMED_COLOR_COUNT];
    assert_eq!(nearest_color_name(&none), "aliceblue");
}

#[test]
fn named_colors_rows_pair_names_with_hex() {
    let rows = NamedColors::rows();
    assert_eq!(rows.len(), NAMED_COLOR_COUNT);
    assert_eq!(rows.len(), NAMED_COLORS.len());
    let red = rows.iter().find(|(n, _)| *n == "red").unwrap();
    assert_eq!(red.1, "#ff0000");
    let tomato = rows.iter().find(|(n, _)| *n == "tomato").unwrap();
    assert_eq!(tomato.1, "#ff6347");
    assert_eq!(rows[0], ("aliceblue", "#f0f8ff".to_string()));
}

#[test]
fn named_colors_are_the_147_keywords_with_both_gray_spellings() {
    assert_eq!(NAMED_COLOR_COUNT, 147);
    assert_eq!(NAMED_COLORS.len(), 147);
    let rows = NamedColors::rows();
    for (gray, grey) in [
        ("gray", "grey"),
        ("darkgray", "darkgrey"),
        ("darkslategray", "darkslategrey"),
        ("dimgray", "dimgrey"),
        ("lightgray", "lightgrey"),
        ("lightslategray", "lightslategrey"),
        ("slategray", "slategrey"),
    ] {
        let a = rows.iter().find(|(n, _)| *n == gray).unwrap();
        let b = rows.iter().find(|(n, _)| *n == grey).unwrap();
        assert_eq!(a.1, b.1, "{gray} and {grey} differ");
    }
    assert_eq!(rows.len(), 147);
}

#[test]
fn nearest_color_name_prefers_first_spelling_on_ties() {
    let gray = NAMED_COLORS.iter().position(|(n, ..)| *n == "gray").unwrap();
    let grey = NAMED_COLORS.iter().position(|(n, ..)| *n == "grey").unwrap();
    let mut keys = vec![UNREACHABLE_DISTANCE; NAMED_COLOR_COUNT];
    keys[gray] = 3;
    keys[grey] = 3;
    assert_eq!(nearest_color_name(&keys), "gray");
}

#[test]
fn named_color_names_are_unique_and_ordered() {
    for w in NAMED_COLORS.windows(2) {
        assert!(w[0].0 < w[1].0, "{} !< {}", w[0].0, w[1].0);
    }
}

#[test]
fn keywords_json_escapes_quotes_and_backslashes() {
    assert_eq!(keywords_json(&["color", "rgb to hex"]), r#"["color","rgb to hex"]"#);
    assert_eq!(keywords_json(&[]), "[]");
    assert_eq!(keywords_json(&["a\"b", "c\\d"]), r#"["a\"b","c\\d"]"#);
    assert_eq!(keywords_json(&["ΔE00"]), "[\"ΔE00\"]");
}

#[test]
fn object_tags_lists_the_five_tags() {
    let tags = object_tags("Title", "llm text", "md text", &["k1", "k2"], "Conversion");
    let expect: Vec<(String, String)> = vec![
        ("vgi.title".to_string(), "Title".to_string()),
        ("vgi.doc_llm".to_string(), "llm text".to_string()),
        ("vgi.doc_md".to_string(), "md text".to_string()),
        ("vgi.keywords".to_string(), r#"["k1","k2"]"#.to_string()),
        ("vgi.category".to_string(), "Conversion".to_string()),
    ];
    assert_eq!(tags, expect);
}

#[test]
fn version_is_the_package_version() {
    assert_eq!(version(), "0.1.0");
}

#[test]
fn rgb_operands_clamp_and_null() {
    let rows = rgb_operands(&[Some(300), None, Some(10)], &[Some(-1), Some(0), Some(20)], &[
        Some(5),
        Some(0),
        None,
    ]);
    assert_eq!(rows, vec![Some(Rgb::new(255, 0, 5)), None, None]);
}

#[test]
fn hex_pair_operands_null_when_either_invalid() {
    let rows = hex_pair_operands(&[Some("#ff0000"), Some("nothex"), None, Some("#000")], &[
        Some("#ff0000"),
        Some("#000000"),
        Some("#fff"),
        Some("#fff"),
    ]);
    assert_eq!(rows[0], Some((Rgb::new(255, 0, 0), Rgb::new(255, 0, 0))));
    assert_eq!(rows[1], None);
    assert_eq!(rows[2], None);
    assert_eq!(rows[3], Some((Rgb::new(0, 0, 0), Rgb::new(255, 255, 255))));
}

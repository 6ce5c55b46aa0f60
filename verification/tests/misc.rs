use stegs::error::Error;
use stegs::glyph::encode_message;
use stegs::palette::{SteganoPalette, UsagePalette};
use stegs::radial::normalize_section;

#[test]
fn normalize_section_wraps_both_ways() {
    assert_eq!(normalize_section(6, 12), 6);
    assert_eq!(normalize_section(-6, 12), 6);
    assert_eq!(normalize_section(30, 12), 6);
    assert_eq!(normalize_section(-30, 12), 6);
    assert_eq!(normalize_section(12, 12), 0);
    assert_eq!(normalize_section(-1, 28), 27);
}

#[test]
fn normalize_section_with_negative_count() {
    // The count's sign carries over as Rust's remainder carries it.
    assert_eq!(normalize_section(5, -12), -7);
    assert_eq!(normalize_section(-5, -12), -5);
}

#[test]
fn error_keeps_its_message() {
    let e = Error::new("Margin bigger than width and/or height");
    assert_eq!(e.message(), "Margin bigger than width and/or height");
}

#[test]
fn palette_components() {
    assert_eq!(SteganoPalette::Yellow00.rgb(), Some((245, 194, 102)));
    assert_eq!(SteganoPalette::DarkBlue00.rgb(), Some((28, 53, 63)));
    assert_eq!(SteganoPalette::Transparent.rgb(), None);
}

#[test]
fn palette_paints() {
    assert_eq!(format!("{}", SteganoPalette::Yellow00.to_paint()), "rgb(245,194,102)");
    assert_eq!(format!("{}", SteganoPalette::Grey.to_paint()), "rgb(90,118,126)");
    assert_eq!(format!("{}", SteganoPalette::Transparent.to_paint()), "none");
    let p = UsagePalette::stegano_default();
    assert_eq!(format!("{}", p.primary), "rgb(245,194,102)");
    assert_eq!(format!("{}", p.background_1), "rgb(28,53,63)");
    assert_eq!(format!("{}", p.warning_0), "olive");
    let v = UsagePalette::stegano_variant();
    assert_eq!(format!("{}", v.primary), "rgb(178,92,34)");
    assert_eq!(format!("{}", v.error), "fuchsia");
    let d = UsagePalette::default();
    assert_eq!(format!("{}", d.primary), "aqua");
    assert_eq!(format!("{}", d.background_0), "gray");
    assert_eq!(format!("{}", d.error), "red");
}

#[test]
fn encode_message_of_hello_world() {
    let (normalized, encoded) = encode_message("Hello World");
    assert_eq!(normalized, "hello world");
    assert_eq!(encoded, vec![7, 4, 11, 11, 14, 26, 22, 14, 17, 11, 3]);
}

#[test]
fn encode_message_placeholder_codes() {
    let (normalized, encoded) = encode_message("!!!");
    assert_eq!(normalized, "the hidden line");
    assert_eq!(encoded, vec![19, 7, 4, 26, 7, 8, 3, 3, 4, 13, 26, 11, 8, 13, 4]);
    assert!(encoded.iter().all(|&c| (0..=26).contains(&c)));
}

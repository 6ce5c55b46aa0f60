use stegs::text::{background_fill, escape_attr, escape_text, normalize_message, StegKind};

#[test]
fn normalize_trims_lowercases_and_filters() {
    assert_eq!(normalize_message("  Hello World!  "), "hello world");
    assert_eq!(normalize_message("héllo 123, 💀 world!"), "hllo   world");
    assert_eq!(normalize_message("MISTRUST authority"), "mistrust authority");
}

#[test]
fn normalize_falls_back_to_placeholder() {
    assert_eq!(normalize_message(""), "the hidden line");
    assert_eq!(normalize_message("   "), "the hidden line");
    assert_eq!(normalize_message("123 !?"), " ");
    assert_eq!(normalize_message("123!?"), "the hidden line");
}

#[test]
fn normalized_messages_hold_only_supported_characters() {
    for message in ["ÀbC dÉf", "\t tabs\tand\nlines \n", "ÉÈ", "x"] {
        let n = normalize_message(message);
        assert!(n.chars().all(|c| c.is_ascii_lowercase() || c == ' '));
        assert!(!n.is_empty());
    }
}

#[test]
fn escape_attr_replaces_markup() {
    assert_eq!(escape_attr(r#"a&b"c<d>e"#), "a&amp;b&quot;c&lt;d&gt;e");
    assert_eq!(escape_attr("#f5c266"), "#f5c266");
    assert_eq!(escape_attr("&amp;"), "&amp;amp;");
}

#[test]
fn escape_text_keeps_quotes() {
    assert_eq!(escape_text(r#"a&b"c<d>e"#), "a&amp;b\"c&lt;d&gt;e");
    assert_eq!(escape_text("the hidden line"), "the hidden line");
}

#[test]
fn escaped_text_has_no_markup() {
    for s in ["<svg>", "\"quoted\"", "a < b > c", "&&&"] {
        let a = escape_attr(s);
        assert!(!a.contains('<') && !a.contains('>') && !a.contains('"'));
        let t = escape_text(s);
        assert!(!t.contains('<') && !t.contains('>'));
    }
}

#[test]
fn kind_from_name() {
    assert_eq!(StegKind::from_name("fingerprint"), StegKind::Fingerprint);
    assert_eq!(StegKind::from_name("  MAZE "), StegKind::Fingerprint);
    assert_eq!(StegKind::from_name("01"), StegKind::Fingerprint);
    assert_eq!(StegKind::from_name("spiral"), StegKind::Spiral);
    assert_eq!(StegKind::from_name(""), StegKind::Spiral);
    assert_eq!(StegKind::from_name("00"), StegKind::Spiral);
}

#[test]
fn kind_labels() {
    assert_eq!(StegKind::Spiral.as_label(), "spiral");
    assert_eq!(StegKind::Fingerprint.as_label(), "fingerprint");
}

#[test]
fn background_fill_of_options() {
    assert_eq!(background_fill("transparent"), None);
    assert_eq!(background_fill(" none "), None);
    assert_eq!(background_fill(""), None);
    assert_eq!(background_fill(" #050708 "), Some("#050708".to_string()));
    assert_eq!(background_fill("Transparent"), Some("Transparent".to_string()));
}

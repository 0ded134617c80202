use webp_batch::extension::{
    format_from_hint, is_supported_extension, spells, to_lower, SourceFormat,
};

#[test]
fn supported_extensions_in_lower_case() {
    assert!(is_supported_extension("jpg"));
    assert!(is_supported_extension("jpeg"));
    assert!(is_supported_extension("png"));
    assert!(is_supported_extension("bmp"));
    assert!(is_supported_extension("tiff"));
}

#[test]
fn supported_extensions_in_any_case() {
    assert!(is_supported_extension("JPG"));
    assert!(is_supported_extension("Jpeg"));
    assert!(is_supported_extension("pNg"));
    assert!(is_supported_extension("BMP"));
    assert!(is_supported_extension("TiFf"));
}

#[test]
fn other_extensions_are_unsupported() {
    assert!(!is_supported_extension(""));
    assert!(!is_supported_extension("gif"));
    assert!(!is_supported_extension("webp"));
    assert!(!is_supported_extension("tmp"));
    assert!(!is_supported_extension("tif"));
    assert!(!is_supported_extension("jpgx"));
    assert!(!is_supported_extension("jp"));
    assert!(!is_supported_extension(".jpg"));
    assert!(!is_supported_extension("jpg "));
    assert!(!is_supported_extension("txt"));
}

#[test]
fn letters_outside_ascii_do_not_fold() {
    assert!(!is_supported_extension("ＪＰＧ"));
    assert!(!is_supported_extension("t\u{130}ff"));
    assert!(!is_supported_extension("pńg"));
}

#[test]
fn support_agrees_with_lowercasing() {
    let samples = [
        "jpg", "JPG", "jPeG", "PNG", "bmp", "TIFF", "gif", "webp", "", "jpeg2", "t\u{130}ff",
        "\u{212a}", "Ｊpg",
    ];
    for ext in samples {
        let lowered = ext.to_lowercase();
        let expected = matches!(lowered.as_str(), "jpg" | "jpeg" | "png" | "bmp" | "tiff");
        assert_eq!(is_supported_extension(ext), expected, "extension {:?}", ext);
    }
}

#[test]
fn hints_map_to_formats() {
    assert_eq!(format_from_hint("jpg"), Some(SourceFormat::Jpeg));
    assert_eq!(format_from_hint("jpeg"), Some(SourceFormat::Jpeg));
    assert_eq!(format_from_hint("JPEG"), Some(SourceFormat::Jpeg));
    assert_eq!(format_from_hint("png"), Some(SourceFormat::Png));
    assert_eq!(format_from_hint("Bmp"), Some(SourceFormat::Bmp));
    assert_eq!(format_from_hint("tiff"), Some(SourceFormat::Tiff));
}

#[test]
fn unknown_hints_map_to_nothing() {
    assert_eq!(format_from_hint("gif"), None);
    assert_eq!(format_from_hint("webp"), None);
    assert_eq!(format_from_hint(""), None);
    assert_eq!(format_from_hint("tif"), None);
}

#[test]
fn recognised_hints_are_the_supported_extensions() {
    for ext in ["jpg", "JPEG", "png", "bmp", "tiff", "gif", "webp", "", "tif", "svg"] {
        assert_eq!(format_from_hint(ext).is_some(), is_supported_extension(ext));
    }
}

#[test]
fn to_lower_folds_only_ascii_capitals() {
    assert_eq!(to_lower('A'), 'a');
    assert_eq!(to_lower('Z'), 'z');
    assert_eq!(to_lower('q'), 'q');
    assert_eq!(to_lower('@'), '@');
    assert_eq!(to_lower('['), '[');
    assert_eq!(to_lower('5'), '5');
    assert_eq!(to_lower('É'), 'É');
}

#[test]
fn spells_compares_the_folded_text() {
    assert!(spells("PnG", "png"));
    assert!(!spells("png", "PNG"));
    assert!(!spells("pn", "png"));
    assert!(!spells("pngg", "png"));
    assert!(spells("", ""));
}

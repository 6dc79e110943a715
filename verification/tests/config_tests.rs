use lonely_tribes::config::ParsedConfig;

#[test]
fn unparsable_file_falls_back_to_default() {
    let c = ParsedConfig::new(None);
    assert_eq!(c.screen_dimensions, (1600, 900));
    assert!(!c.maximised);
    assert_eq!(c, ParsedConfig::default());
}

#[test]
fn missing_dimensions_fall_back_to_full_hd() {
    let c = ParsedConfig::new(Some((None, true)));
    assert_eq!(c.screen_dimensions, (1920, 1080));
    assert!(c.maximised);
}

#[test]
fn stored_dimensions_are_kept() {
    let c = ParsedConfig::new(Some((Some((800, 600)), false)));
    assert_eq!(c.screen_dimensions, (800, 600));
    assert!(!c.maximised);
}

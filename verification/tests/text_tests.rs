use hotkey_core::text::{parse_u64, parse_version, str_eq, str_starts_with};

#[test]
fn string_equality_is_exact() {
    assert!(str_eq("", ""));
    assert!(str_eq("Ctrl", "Ctrl"));
    assert!(!str_eq("Ctrl", "Ctr"));
    assert!(!str_eq("Ctrl", "Ctrl "));
    assert!(!str_eq("ctrl", "Ctrl"));
}

#[test]
fn prefix_test_is_exact() {
    assert!(str_starts_with("10.5", "10"));
    assert!(str_starts_with("10", "10"));
    assert!(str_starts_with("anything", ""));
    assert!(!str_starts_with("1", "10"));
    assert!(!str_starts_with("11.2", "10"));
}

#[test]
fn numbers_parse_and_junk_does_not() {
    assert_eq!(parse_u64("0"), Some(0));
    assert_eq!(parse_u64("1803"), Some(1803));
    assert_eq!(parse_u64("22000"), Some(22000));
    assert_eq!(parse_u64(""), None);
    assert_eq!(parse_u64("20H2"), None);
    assert_eq!(parse_u64("-5"), None);
    assert_eq!(parse_u64("1.5"), None);
    // nineteen digits fit; a twentieth does not
    assert_eq!(parse_u64("9999999999999999999"), Some(9999999999999999999));
    assert_eq!(parse_u64("10000000000000000000"), None);
}

#[test]
fn version_strings_parse_as_major_minor() {
    assert_eq!(parse_version("10.9"), Some((10, 9)));
    assert_eq!(parse_version("10.10"), Some((10, 10)));
    assert_eq!(parse_version("11"), Some((11, 0)));
    assert_eq!(parse_version("14.4"), Some((14, 4)));
    assert_eq!(parse_version("10.10.3"), None);
    assert_eq!(parse_version("10."), None);
    assert_eq!(parse_version(".5"), None);
    assert_eq!(parse_version("beta"), None);
    assert_eq!(parse_version(""), None);
}

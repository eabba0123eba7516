use hotkey_core::effects::can_apply_effect;

#[test]
fn acrylic_on_windows_ten_depends_on_build() {
    assert!(!can_apply_effect("acrylic", "Windows", "10", Some("1709")));
    assert!(can_apply_effect("acrylic", "Windows", "10", Some("1803")));
    assert!(can_apply_effect("acrylic", "Windows", "10", Some("1909")));
    // no build information: support is assumed
    assert!(can_apply_effect("acrylic", "Windows", "10", None));
    // a build that is no number does not qualify
    assert!(!can_apply_effect("acrylic", "Windows", "10", Some("20H2")));
}

#[test]
fn acrylic_on_windows_eleven_is_always_supported() {
    assert!(can_apply_effect("acrylic", "Windows", "11", None));
    assert!(can_apply_effect("acrylic", "Windows", "11", Some("1")));
    assert!(can_apply_effect("acrylic", "Windows", "11.2", Some("22000")));
}

#[test]
fn mica_needs_windows_eleven_build_22000() {
    assert!(can_apply_effect("mica", "Windows", "11", None));
    assert!(can_apply_effect("mica", "Windows", "11", Some("22000")));
    assert!(can_apply_effect("mica", "Windows", "11", Some("22631")));
    assert!(!can_apply_effect("mica", "Windows", "11", Some("21999")));
    assert!(!can_apply_effect("mica", "Windows", "10", Some("22000")));
}

#[test]
fn vibrancy_needs_macos_ten_ten() {
    assert!(!can_apply_effect("vibrancy", "macOS", "10.9", None));
    assert!(can_apply_effect("vibrancy", "macOS", "10.10", None));
    assert!(can_apply_effect("vibrancy", "macOS", "10.15", None));
    assert!(can_apply_effect("vibrancy", "macOS", "11", None));
    assert!(can_apply_effect("vibrancy", "macOS", "14.4", None));
    // not a plain major.minor number: no support assumed
    assert!(!can_apply_effect("vibrancy", "macOS", "10.10.3", None));
    assert!(!can_apply_effect("vibrancy", "macOS", "beta", None));
}

#[test]
fn other_pairs_of_system_and_effect_are_unsupported() {
    assert!(!can_apply_effect("acrylic", "Linux", "10", Some("1803")));
    assert!(!can_apply_effect("vibrancy", "Windows", "11", None));
    assert!(!can_apply_effect("mica", "macOS", "14.0", None));
    assert!(!can_apply_effect("blur", "Windows", "11", None));
    assert!(!can_apply_effect("acrylic", "windows", "10", None));
}

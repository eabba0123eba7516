use hotkey_core::commands::{add_keybind, add_keybinds_batch, handle_shortcut_action, resolve_keys};
use hotkey_core::errors::KeybindError;
use hotkey_core::keys::KeyId;
use hotkey_core::pressed::PressedKeys;
use hotkey_core::registry::KeybindManager;

fn pressed(keys: &[KeyId]) -> PressedKeys {
    let mut p = PressedKeys::new();
    for &k in keys {
        p.press(k);
    }
    p
}

#[test]
fn resolve_keys_keeps_order_and_reports_first_unknown() {
    let names = vec!["Ctrl".to_string(), "Shift".to_string(), "S".to_string()];
    assert_eq!(
        resolve_keys(&names),
        Ok(vec![KeyId::ControlLeft, KeyId::ShiftLeft, KeyId::KeyS])
    );
    let names = vec![
        "Ctrl".to_string(),
        "Nope".to_string(),
        "AlsoNope".to_string(),
    ];
    assert_eq!(
        resolve_keys(&names),
        Err(KeybindError::UnknownKey("Nope".to_string()))
    );
}

#[test]
fn add_keybind_with_unknown_name_changes_nothing() {
    let mut m = KeybindManager::new();
    let r = add_keybind(
        &mut m,
        "x".to_string(),
        vec!["Ctrl".to_string(), "Bogus".to_string()],
        "a".to_string(),
    );
    assert_eq!(r, Err(KeybindError::UnknownKey("Bogus".to_string())));
    assert_eq!(m.remove_keybind("x"), Err(KeybindError::NotFound("x".to_string())));
}

#[test]
fn batch_applies_entries_before_the_first_unknown_name() {
    let mut m = KeybindManager::new();
    let entries = vec![
        (
            "one".to_string(),
            vec!["Ctrl".to_string(), "S".to_string()],
            "a1".to_string(),
        ),
        ("two".to_string(), vec!["A".to_string()], "a2".to_string()),
        ("bad".to_string(), vec!["NotAKey".to_string()], "a3".to_string()),
    ];
    let r = add_keybinds_batch(&mut m, entries);
    // the call reports the unknown name
    assert_eq!(r, Err(KeybindError::UnknownKey("NotAKey".to_string())));
    // the two valid entries are present
    assert_eq!(
        m.check_keybinds(&pressed(&[KeyId::ControlLeft, KeyId::KeyS])),
        Some("a1".to_string())
    );
    assert_eq!(m.check_keybinds(&pressed(&[KeyId::KeyA])), Some("a2".to_string()));
    // the invalid entry is absent
    assert_eq!(m.remove_keybind("bad"), Err(KeybindError::NotFound("bad".to_string())));
}

#[test]
fn batch_with_all_names_known_succeeds() {
    let mut m = KeybindManager::new();
    let entries = vec![
        ("one".to_string(), vec!["F1".to_string()], "help".to_string()),
        (
            "two".to_string(),
            vec!["Shift".to_string(), "Delete".to_string()],
            "purge".to_string(),
        ),
    ];
    assert_eq!(add_keybinds_batch(&mut m, entries), Ok(()));
    assert_eq!(m.check_keybinds(&pressed(&[KeyId::F1])), Some("help".to_string()));
    assert_eq!(
        m.check_keybinds(&pressed(&[KeyId::ShiftLeft, KeyId::Delete])),
        Some("purge".to_string())
    );
}

#[test]
fn shortcut_confirmation_names_the_shortcut() {
    assert_eq!(
        handle_shortcut_action("save"),
        "Shortcut save triggered successfully".to_string()
    );
    assert_eq!(
        handle_shortcut_action(""),
        "Shortcut  triggered successfully".to_string()
    );
}

use hotkey_core::errors::KeybindError;
use hotkey_core::keys::KeyId;
use hotkey_core::pressed::PressedKeys;
use hotkey_core::registry::KeybindManager;

fn pressed(keys: &[KeyId]) -> PressedKeys {
    let mut p = PressedKeys::new();
    for &k in keys {
        p.press(k);
    }
    p
}

#[test]
fn new_registry_is_empty_and_enabled() {
    let m = KeybindManager::new();
    assert_eq!(m.check_keybinds(&pressed(&[KeyId::KeyA])), None);
    assert_eq!(m.check_keybinds(&pressed(&[])), None);
}

#[test]
fn add_then_remove_restores_observable_state() {
    let mut m = KeybindManager::new();
    // before the add: the id is absent and nothing matches
    assert_eq!(
        m.remove_keybind("save"),
        Err(KeybindError::NotFound("save".to_string()))
    );
    let keys = vec![KeyId::ControlLeft, KeyId::KeyS];
    assert_eq!(m.add_keybind("save".to_string(), keys, "save-file".to_string()), Ok(()));
    assert_eq!(m.remove_keybind("save"), Ok(()));
    // after the remove: the id is absent and nothing matches, as before
    assert_eq!(
        m.remove_keybind("save"),
        Err(KeybindError::NotFound("save".to_string()))
    );
    assert_eq!(
        m.check_keybinds(&pressed(&[KeyId::ControlLeft, KeyId::KeyS])),
        None
    );
}

#[test]
fn re_adding_an_id_replaces_not_duplicates() {
    let mut m = KeybindManager::new();
    m.add_keybind(
        "id".to_string(),
        vec![KeyId::ControlLeft, KeyId::KeyS],
        "first".to_string(),
    )
    .unwrap();
    m.add_keybind("id".to_string(), vec![KeyId::KeyA], "second".to_string()).unwrap();
    // exactly one keybind stands under the id, with the second keys and action
    assert_eq!(
        m.check_keybinds(&pressed(&[KeyId::KeyA])),
        Some("second".to_string())
    );
    assert_eq!(
        m.check_keybinds(&pressed(&[KeyId::ControlLeft, KeyId::KeyS])),
        None
    );
    assert_eq!(m.remove_keybind("id"), Ok(()));
    assert_eq!(m.remove_keybind("id"), Err(KeybindError::NotFound("id".to_string())));
}

#[test]
fn disabled_registry_never_matches() {
    let mut m = KeybindManager::new();
    m.add_keybind("a".to_string(), vec![KeyId::KeyA], "x".to_string()).unwrap();
    m.disable();
    assert_eq!(m.check_keybinds(&pressed(&[KeyId::KeyA])), None);
    assert_eq!(
        m.check_keybinds(&pressed(&[KeyId::KeyA, KeyId::KeyB, KeyId::ControlLeft])),
        None
    );
    m.enable();
    assert_eq!(m.check_keybinds(&pressed(&[KeyId::KeyA])), Some("x".to_string()));
}

#[test]
fn covered_key_set_matches_some_action() {
    let mut m = KeybindManager::new();
    m.add_keybind(
        "combo".to_string(),
        vec![KeyId::ControlLeft, KeyId::ShiftLeft, KeyId::KeyP],
        "palette".to_string(),
    )
    .unwrap();
    // a superset of the key set still matches
    let p = pressed(&[KeyId::ControlLeft, KeyId::ShiftLeft, KeyId::KeyP, KeyId::KeyZ]);
    assert_eq!(m.check_keybinds(&p), Some("palette".to_string()));
    // a proper subset does not
    let p = pressed(&[KeyId::ControlLeft, KeyId::ShiftLeft]);
    assert_eq!(m.check_keybinds(&p), None);
}

#[test]
fn first_registered_satisfied_keybind_wins() {
    let mut m = KeybindManager::new();
    m.add_keybind("one".to_string(), vec![KeyId::KeyA], "first".to_string()).unwrap();
    m.add_keybind("two".to_string(), vec![KeyId::KeyA, KeyId::KeyB], "second".to_string())
        .unwrap();
    // both keybinds are satisfied; the first registered fires
    let p = pressed(&[KeyId::KeyA, KeyId::KeyB]);
    assert_eq!(m.check_keybinds(&p), Some("first".to_string()));
}

#[test]
fn remove_all_keybinds_empties_the_registry() {
    let mut m = KeybindManager::new();
    m.add_keybind("a".to_string(), vec![KeyId::KeyA], "x".to_string()).unwrap();
    m.add_keybind("b".to_string(), vec![KeyId::KeyB], "y".to_string()).unwrap();
    m.remove_all_keybinds();
    assert_eq!(m.check_keybinds(&pressed(&[KeyId::KeyA, KeyId::KeyB])), None);
    assert_eq!(m.remove_keybind("a"), Err(KeybindError::NotFound("a".to_string())));
    // the flag survives a clear
    m.add_keybind("c".to_string(), vec![KeyId::KeyC], "z".to_string()).unwrap();
    assert_eq!(m.check_keybinds(&pressed(&[KeyId::KeyC])), Some("z".to_string()));
}

#[test]
fn typed_batch_applies_every_entry_in_order() {
    let mut m = KeybindManager::new();
    let entries = vec![
        ("a".to_string(), vec![KeyId::KeyA], "x".to_string()),
        ("b".to_string(), vec![KeyId::KeyB], "y".to_string()),
        ("a".to_string(), vec![KeyId::KeyC], "z".to_string()),
    ];
    assert_eq!(m.add_keybinds_batch(entries), Ok(()));
    // the later entry replaced the earlier one under "a"
    assert_eq!(m.check_keybinds(&pressed(&[KeyId::KeyA])), None);
    assert_eq!(m.check_keybinds(&pressed(&[KeyId::KeyC])), Some("z".to_string()));
    assert_eq!(m.check_keybinds(&pressed(&[KeyId::KeyB])), Some("y".to_string()));
}

#[test]
fn error_messages_quote_the_offending_input() {
    let e = KeybindError::UnknownKey("Bogus".to_string());
    assert_eq!(e.message(), "unrecognized or unmapped key 'Bogus'".to_string());
    let e = KeybindError::NotFound("save".to_string());
    assert_eq!(e.message(), "no keybind with id 'save'".to_string());
}

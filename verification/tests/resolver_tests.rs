use hotkey_core::errors::KeybindError;
use hotkey_core::keys::{string_to_key, KeyId};

#[test]
fn resolving_same_name_twice_yields_same_identifier() {
    let first = string_to_key("Ctrl").unwrap();
    let second = string_to_key("Ctrl").unwrap();
    assert_eq!(first, second);
    let first = string_to_key("S").unwrap();
    let second = string_to_key("S").unwrap();
    assert_eq!(first, second);
}

#[test]
fn unknown_name_fails_with_unknown_key() {
    let r = string_to_key("NotAKey");
    assert_eq!(r, Err(KeybindError::UnknownKey("NotAKey".to_string())));
    let r = string_to_key("");
    assert_eq!(r, Err(KeybindError::UnknownKey(String::new())));
    // the vocabulary is case-sensitive
    let r = string_to_key("ctrl");
    assert_eq!(r, Err(KeybindError::UnknownKey("ctrl".to_string())));
}

#[test]
fn bare_modifier_aliases_left_variant() {
    assert_eq!(string_to_key("Shift").unwrap(), KeyId::ShiftLeft);
    assert_eq!(string_to_key("Shift").unwrap(), string_to_key("ShiftLeft").unwrap());
    assert_eq!(string_to_key("Ctrl").unwrap(), KeyId::ControlLeft);
    assert_eq!(string_to_key("Ctrl").unwrap(), string_to_key("ControlLeft").unwrap());
}

#[test]
fn explicit_left_and_right_forms_are_distinct() {
    assert_ne!(
        string_to_key("ShiftLeft").unwrap(),
        string_to_key("ShiftRight").unwrap()
    );
    assert_ne!(
        string_to_key("ControlLeft").unwrap(),
        string_to_key("ControlRight").unwrap()
    );
    assert_ne!(string_to_key("MetaLeft").unwrap(), string_to_key("MetaRight").unwrap());
}

#[test]
fn letters_digits_and_symbols_resolve() {
    assert_eq!(string_to_key("A").unwrap(), KeyId::KeyA);
    assert_eq!(string_to_key("Z").unwrap(), KeyId::KeyZ);
    assert_eq!(string_to_key("0").unwrap(), KeyId::Num0);
    assert_eq!(string_to_key("9").unwrap(), KeyId::Num9);
    assert_eq!(string_to_key("-").unwrap(), KeyId::Minus);
    assert_eq!(string_to_key("\\").unwrap(), KeyId::BackSlash);
    assert_eq!(string_to_key("/").unwrap(), KeyId::Slash);
    assert_eq!(string_to_key("'").unwrap(), KeyId::Quote);
}

#[test]
fn named_keys_resolve() {
    assert_eq!(string_to_key("F1").unwrap(), KeyId::F1);
    assert_eq!(string_to_key("F12").unwrap(), KeyId::F12);
    assert_eq!(string_to_key("Escape").unwrap(), KeyId::Escape);
    assert_eq!(string_to_key("Space").unwrap(), KeyId::Space);
    assert_eq!(string_to_key("PageDown").unwrap(), KeyId::PageDown);
    assert_eq!(string_to_key("UpArrow").unwrap(), KeyId::UpArrow);
    // both names of the return key land on one identifier
    assert_eq!(string_to_key("Enter").unwrap(), KeyId::Return);
    assert_eq!(string_to_key("Return").unwrap(), KeyId::Return);
    // alias for the left meta key
    assert_eq!(string_to_key("SuperLeft").unwrap(), KeyId::MetaLeft);
    assert_eq!(string_to_key("AltRight").unwrap(), KeyId::AltGr);
}

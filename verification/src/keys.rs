//! The key vocabulary: the internal key identifiers and the resolver from
//! canonical key names to identifiers.
//!
//! The vocabulary is fixed: letters, digits, function keys, modifiers with
//! Left/Right variants and common aliases (a bare "Shift" or "Ctrl" names the
//! left-hand variant), punctuation symbols, and navigation keys. Resolution is
//! a pure, total function with one failure case, an unknown name.

use crate::errors::KeybindError;
use crate::text::str_eq;
use vstd::prelude::*;
use vstd::string::StrSliceExecFns;

verus! {

/// Canonical internal identifier of a physical key, distinct from its string
/// name: several names (an alias and an explicit form) may resolve to the same
/// identifier.
#[derive(Debug, Clone, Copy, PartialEq, Eq, Hash, Structural)]
pub enum KeyId {
    ShiftLeft,
    ShiftRight,
    ControlLeft,
    ControlRight,
    Alt,
    AltGr,
    MetaLeft,
    MetaRight,
    Escape,
    F1,
    F2,
    F3,
    F4,
    F5,
    F6,
    F7,
    F8,
    F9,
    F10,
    F11,
    F12,
    Num0,
    Num1,
    Num2,
    Num3,
    Num4,
    Num5,
    Num6,
    Num7,
    Num8,
    Num9,
    KeyA,
    KeyB,
    KeyC,
    KeyD,
    KeyE,
    KeyF,
    KeyG,
    KeyH,
    KeyI,
    KeyJ,
    KeyK,
    KeyL,
    KeyM,
    KeyN,
    KeyO,
    KeyP,
    KeyQ,
    KeyR,
    KeyS,
    KeyT,
    KeyU,
    KeyV,
    KeyW,
    KeyX,
    KeyY,
    KeyZ,
    Backspace,
    Return,
    Tab,
    Space,
    Delete,
    Home,
    End,
    PageUp,
    PageDown,
    UpArrow,
    DownArrow,
    LeftArrow,
    RightArrow,
    Minus,
    Equal,
    LeftBracket,
    RightBracket,
    SemiColon,
    Quote,
    BackQuote,
    BackSlash,
    Comma,
    Dot,
    Slash,
}

/// The identifier named by a single-character key name: a digit, a letter, or
/// a punctuation symbol.
pub open spec fn single_char_key(c: char) -> Option<KeyId> {
    match c {
        '0' => Some(KeyId::Num0),
        '1' => Some(KeyId::Num1),
        '2' => Some(KeyId::Num2),
        '3' => Some(KeyId::Num3),
        '4' => Some(KeyId::Num4),
        '5' => Some(KeyId::Num5),
        '6' => Some(KeyId::Num6),
        '7' => Some(KeyId::Num7),
        '8' => Some(KeyId::Num8),
        '9' => Some(KeyId::Num9),
        'A' => Some(KeyId::KeyA),
        'B' => Some(KeyId::KeyB),
        'C' => Some(KeyId::KeyC),
        'D' => Some(KeyId::KeyD),
        'E' => Some(KeyId::KeyE),
        'F' => Some(KeyId::KeyF),
        'G' => Some(KeyId::KeyG),
        'H' => Some(KeyId::KeyH),
        'I' => Some(KeyId::KeyI),
        'J' => Some(KeyId::KeyJ),
        'K' => Some(KeyId::KeyK),
        'L' => Some(KeyId::KeyL),
        'M' => Some(KeyId::KeyM),
        'N' => Some(KeyId::KeyN),
        'O' => Some(KeyId::KeyO),
        'P' => Some(KeyId::KeyP),
        'Q' => Some(KeyId::KeyQ),
        'R' => Some(KeyId::KeyR),
        'S' => Some(KeyId::KeyS),
        'T' => Some(KeyId::KeyT),
        'U' => Some(KeyId::KeyU),
        'V' => Some(KeyId::KeyV),
        'W' => Some(KeyId::KeyW),
        'X' => Some(KeyId::KeyX),
        'Y' => Some(KeyId::KeyY),
        'Z' => Some(KeyId::KeyZ),
        '-' => Some(KeyId::Minus),
        '=' => Some(KeyId::Equal),
        '[' => Some(KeyId::LeftBracket),
        ']' => Some(KeyId::RightBracket),
        ';' => Some(KeyId::SemiColon),
        '\'' => Some(KeyId::Quote),
        '`' => Some(KeyId::BackQuote),
        '\\' => Some(KeyId::BackSlash),
        ',' => Some(KeyId::Comma),
        '.' => Some(KeyId::Dot),
        '/' => Some(KeyId::Slash),
        _ => None,
    }
}

/// The identifier named by a multi-character key name: modifiers with their
/// aliases, function keys, and navigation keys.
pub open spec fn named_key(name: Seq<char>) -> Option<KeyId> {
    if name == "ShiftLeft"@ {
        Some(KeyId::ShiftLeft)
    } else if name == "ShiftRight"@ {
        Some(KeyId::ShiftRight)
    } else if name == "Shift"@ {
        Some(KeyId::ShiftLeft)
    } else if name == "ControlLeft"@ {
        Some(KeyId::ControlLeft)
    } else if name == "ControlRight"@ {
        Some(KeyId::ControlRight)
    } else if name == "Ctrl"@ {
        Some(KeyId::ControlLeft)
    } else if name == "AltLeft"@ {
        Some(KeyId::Alt)
    } else if name == "Alt"@ {
        Some(KeyId::Alt)
    } else if name == "AltRight"@ {
        Some(KeyId::AltGr)
    } else if name == "SuperLeft"@ {
        Some(KeyId::MetaLeft)
    } else if name == "MetaLeft"@ {
        Some(KeyId::MetaLeft)
    } else if name == "SuperRight"@ {
        Some(KeyId::MetaRight)
    } else if name == "MetaRight"@ {
        Some(KeyId::MetaRight)
    } else if name == "Escape"@ {
        Some(KeyId::Escape)
    } else if name == "F1"@ {
        Some(KeyId::F1)
    } else if name == "F2"@ {
        Some(KeyId::F2)
    } else if name == "F3"@ {
        Some(KeyId::F3)
    } else if name == "F4"@ {
        Some(KeyId::F4)
    } else if name == "F5"@ {
        Some(KeyId::F5)
    } else if name == "F6"@ {
        Some(KeyId::F6)
    } else if name == "F7"@ {
        Some(KeyId::F7)
    } else if name == "F8"@ {
        Some(KeyId::F8)
    } else if name == "F9"@ {
        Some(KeyId::F9)
    } else if name == "F10"@ {
        Some(KeyId::F10)
    } else if name == "F11"@ {
        Some(KeyId::F11)
    } else if name == "F12"@ {
        Some(KeyId::F12)
    } else if name == "Backspace"@ {
        Some(KeyId::Backspace)
    } else if name == "Enter"@ {
        Some(KeyId::Return)
    } else if name == "Return"@ {
        Some(KeyId::Return)
    } else if name == "Tab"@ {
        Some(KeyId::Tab)
    } else if name == "Space"@ {
        Some(KeyId::Space)
    } else if name == "Delete"@ {
        Some(KeyId::Delete)
    } else if name == "Home"@ {
        Some(KeyId::Home)
    } else if name == "End"@ {
        Some(KeyId::End)
    } else if name == "PageUp"@ {
        Some(KeyId::PageUp)
    } else if name == "PageDown"@ {
        Some(KeyId::PageDown)
    } else if name == "UpArrow"@ {
        Some(KeyId::UpArrow)
    } else if name == "DownArrow"@ {
        Some(KeyId::DownArrow)
    } else if name == "LeftArrow"@ {
        Some(KeyId::LeftArrow)
    } else if name == "RightArrow"@ {
        Some(KeyId::RightArrow)
    } else {
        None
    }
}

/// The fixed name-to-identifier table of the vocabulary, as one total
/// function: `Some` exactly on the names the vocabulary knows.
pub open spec fn key_of_name(name: Seq<char>) -> Option<KeyId> {
    if name.len() == 1 {
        single_char_key(name[0])
    } else {
        named_key(name)
    }
}

/// What `string_to_key` returns for a given name: the identifier the
/// vocabulary maps the name to, or `UnknownKey` carrying that very name.
pub open spec fn resolution_of(name: Seq<char>, r: Result<KeyId, KeybindError>) -> bool {
    match key_of_name(name) {
        Some(k) => r == Ok::<KeyId, KeybindError>(k),
        None => r matches Err(KeybindError::UnknownKey(n)) && n@ == name,
    }
}

/// Law: resolution is deterministic. Any two results the resolver may return
/// for one name agree: the same identifier on a known name, and on an unknown
/// name always `UnknownKey` carrying that very name, never anything else.
pub proof fn lemma_resolution_deterministic(
    name: Seq<char>,
    r1: Result<KeyId, KeybindError>,
    r2: Result<KeyId, KeybindError>,
)
    requires
        resolution_of(name, r1),
        resolution_of(name, r2),
    ensures
        r1 is Ok <==> r2 is Ok,
        r1 is Ok ==> r1 == r2,
        r1 is Err ==> (r1 matches Err(KeybindError::UnknownKey(n1)) && r2 matches Err(
            KeybindError::UnknownKey(n2),
        ) && n1@ == n2@),
{
}

fn single_char_lookup(c: char) -> (r: Option<KeyId>)
    ensures
        r == single_char_key(c),
{
    match c {
        '0' => Some(KeyId::Num0),
        '1' => Some(KeyId::Num1),
        '2' => Some(KeyId::Num2),
        '3' => Some(KeyId::Num3),
        '4' => Some(KeyId::Num4),
        '5' => Some(KeyId::Num5),
        '6' => Some(KeyId::Num6),
        '7' => Some(KeyId::Num7),
        '8' => Some(KeyId::Num8),
        '9' => Some(KeyId::Num9),
        'A' => Some(KeyId::KeyA),
        'B' => Some(KeyId::KeyB),
        'C' => Some(KeyId::KeyC),
        'D' => Some(KeyId::KeyD),
        'E' => Some(KeyId::KeyE),
        'F' => Some(KeyId::KeyF),
        'G' => Some(KeyId::KeyG),
        'H' => Some(KeyId::KeyH),
        'I' => Some(KeyId::KeyI),
        'J' => Some(KeyId::KeyJ),
        'K' => Some(KeyId::KeyK),
        'L' => Some(KeyId::KeyL),
        'M' => Some(KeyId::KeyM),
        'N' => Some(KeyId::KeyN),
        'O' => Some(KeyId::KeyO),
        'P' => Some(KeyId::KeyP),
        'Q' => Some(KeyId::KeyQ),
        'R' => Some(KeyId::KeyR),
        'S' => Some(KeyId::KeyS),
        'T' => Some(KeyId::KeyT),
        'U' => Some(KeyId::KeyU),
        'V' => Some(KeyId::KeyV),
        'W' => Some(KeyId::KeyW),
        'X' => Some(KeyId::KeyX),
        'Y' => Some(KeyId::KeyY),
        'Z' => Some(KeyId::KeyZ),
        '-' => Some(KeyId::Minus),
        '=' => Some(KeyId::Equal),
        '[' => Some(KeyId::LeftBracket),
        ']' => Some(KeyId::RightBracket),
        ';' => Some(KeyId::SemiColon),
        '\'' => Some(KeyId::Quote),
        '`' => Some(KeyId::BackQuote),
        '\\' => Some(KeyId::BackSlash),
        ',' => Some(KeyId::Comma),
        '.' => Some(KeyId::Dot),
        '/' => Some(KeyId::Slash),
        _ => None,
    }
}

fn named_lookup(name: &str) -> (r: Option<KeyId>)
    ensures
        r == named_key(name@),
{
    if str_eq(name, "ShiftLeft") {
        Some(KeyId::ShiftLeft)
    } else if str_eq(name, "ShiftRight") {
        Some(KeyId::ShiftRight)
    } else if str_eq(name, "Shift") {
        Some(KeyId::ShiftLeft)
    } else if str_eq(name, "ControlLeft") {
        Some(KeyId::ControlLeft)
    } else if str_eq(name, "ControlRight") {
        Some(KeyId::ControlRight)
    } else if str_eq(name, "Ctrl") {
        Some(KeyId::ControlLeft)
    } else if str_eq(name, "AltLeft") {
        Some(KeyId::Alt)
    } else if str_eq(name, "Alt") {
        Some(KeyId::Alt)
    } else if str_eq(name, "AltRight") {
        Some(KeyId::AltGr)
    } else if str_eq(name, "SuperLeft") {
        Some(KeyId::MetaLeft)
    } else if str_eq(name, "MetaLeft") {
        Some(KeyId::MetaLeft)
    } else if str_eq(name, "SuperRight") {
        Some(KeyId::MetaRight)
    } else if str_eq(name, "MetaRight") {
        Some(KeyId::MetaRight)
    } else if str_eq(name, "Escape") {
        Some(KeyId::Escape)
    } else if str_eq(name, "F1") {
        Some(KeyId::F1)
    } else if str_eq(name, "F2") {
        Some(KeyId::F2)
    } else if str_eq(name, "F3") {
        Some(KeyId::F3)
    } else if str_eq(name, "F4") {
        Some(KeyId::F4)
    } else if str_eq(name, "F5") {
        Some(KeyId::F5)
    } else if str_eq(name, "F6") {
        Some(KeyId::F6)
    } else if str_eq(name, "F7") {
        Some(KeyId::F7)
    } else if str_eq(name, "F8") {
        Some(KeyId::F8)
    } else if str_eq(name, "F9") {
        Some(KeyId::F9)
    } else if str_eq(name, "F10") {
        Some(KeyId::F10)
    } else if str_eq(name, "F11") {
        Some(KeyId::F11)
    } else if str_eq(name, "F12") {
        Some(KeyId::F12)
    } else if str_eq(name, "Backspace") {
        Some(KeyId::Backspace)
    } else if str_eq(name, "Enter") {
        Some(KeyId::Return)
    } else if str_eq(name, "Return") {
        Some(KeyId::Return)
    } else if str_eq(name, "Tab") {
        Some(KeyId::Tab)
    } else if str_eq(name, "Space") {
        Some(KeyId::Space)
    } else if str_eq(name, "Delete") {
        Some(KeyId::Delete)
    } else if str_eq(name, "Home") {
        Some(KeyId::Home)
    } else if str_eq(name, "End") {
        Some(KeyId::End)
    } else if str_eq(name, "PageUp") {
        Some(KeyId::PageUp)
    } else if str_eq(name, "PageDown") {
        Some(KeyId::PageDown)
    } else if str_eq(name, "UpArrow") {
        Some(KeyId::UpArrow)
    } else if str_eq(name, "DownArrow") {
        Some(KeyId::DownArrow)
    } else if str_eq(name, "LeftArrow") {
        Some(KeyId::LeftArrow)
    } else if str_eq(name, "RightArrow") {
        Some(KeyId::RightArrow)
    } else {
        None
    }
}

/// Resolve a canonical key name to its key identifier. Fails with
/// `UnknownKey` exactly when the name has no entry in the vocabulary, and the
/// error carries the name unchanged.
pub fn string_to_key(name: &str) -> (r: Result<KeyId, KeybindError>)
    ensures
        resolution_of(name@, r),
{
    let n = name.unicode_len();
    let looked_up: Option<KeyId> = if n == 1 {
        single_char_lookup(name.get_char(0))
    } else {
        named_lookup(name)
    };
    match looked_up {
        Some(k) => Ok(k),
        None => Err(KeybindError::UnknownKey(name.to_owned())),
    }
}

} // verus!

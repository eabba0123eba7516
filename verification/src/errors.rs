//! The two recoverable failures of the library: an unknown key name during
//! resolution, and a removal of a keybind identifier that is not registered.

use vstd::prelude::*;
use vstd::string::StringExecFns;

verus! {

/// Error value returned by the fallible registry-facing operations. Both
/// variants carry the offending input so a caller can report it.
#[derive(Debug, PartialEq, Eq)]
pub enum KeybindError {
    /// A key name that the vocabulary does not map to any key identifier.
    UnknownKey(String),
    /// A keybind identifier that is not present in the registry.
    NotFound(String),
}

impl KeybindError {
    /// A human-readable diagnostic for the error, with the offending input
    /// quoted verbatim.
    pub fn message(&self) -> (m: String)
        ensures
            self matches KeybindError::UnknownKey(n) ==> m@ == "unrecognized or unmapped key '"@
                + n@ + "'"@,
            self matches KeybindError::NotFound(id) ==> m@ == "no keybind with id '"@ + id@
                + "'"@,
    {
        match self {
            KeybindError::UnknownKey(n) => {
                String::from_str("unrecognized or unmapped key '").concat(n.as_str()).concat("'")
            },
            KeybindError::NotFound(id) => {
                String::from_str("no keybind with id '").concat(id.as_str()).concat("'")
            },
        }
    }
}

} // verus!

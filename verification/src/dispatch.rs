//! One step of the event dispatch loop: the decision the OS-hook callback
//! takes for each inbound keyboard event. The host runs the actual hook on its
//! own thread and forwards any returned action to its notification sink.

use crate::keys::KeyId;
use crate::pressed::PressedKeys;
use crate::registry::{match_result, KeybindManager, KeybindView};
use vstd::prelude::*;

verus! {

/// One inbound keyboard event: a press or a release of a key the vocabulary
/// knows, or any other event, which is ignored.
#[derive(Debug, Clone, Copy)]
pub enum KeyEvent {
    Press(KeyId),
    Release(KeyId),
    Other,
}

/// The pressed-key set after an event: a press inserts the key, a release
/// removes it, any other event changes nothing.
pub open spec fn pressed_after(pressed: Set<KeyId>, event: KeyEvent) -> Set<KeyId> {
    match event {
        KeyEvent::Press(k) => pressed.insert(k),
        KeyEvent::Release(k) => pressed.remove(k),
        KeyEvent::Other => pressed,
    }
}

/// The action an event triggers. Matching is press-triggered only, and runs
/// against the pressed-key set that already includes the newly pressed key;
/// releases and other events never trigger.
pub open spec fn action_after(
    binds: Seq<KeybindView>,
    enabled: bool,
    pressed: Set<KeyId>,
    event: KeyEvent,
) -> Option<Seq<char>> {
    match event {
        KeyEvent::Press(k) => match_result(binds, enabled, pressed.insert(k)),
        KeyEvent::Release(k) => None,
        KeyEvent::Other => None,
    }
}

/// Process one keyboard event: update the pressed-key set, and on a press
/// match the updated set against the registry. Returns the action to forward
/// to the notification sink, if any. Never fails partway: the state update
/// always happens, whatever the match yields.
pub fn process_event(manager: &KeybindManager, state: &mut PressedKeys, event: KeyEvent) -> (r:
    Option<String>)
    requires
        old(state).wf(),
    ensures
        final(state).wf(),
        final(state)@ == pressed_after(old(state)@, event),
        r is Some <==> action_after(manager.binds(), manager.is_enabled(), old(state)@, event)
            is Some,
        r matches Some(a) ==> action_after(
            manager.binds(),
            manager.is_enabled(),
            old(state)@,
            event,
        ) == Some(a@),
{
    match event {
        KeyEvent::Press(k) => {
            state.press(k);
            manager.check_keybinds(state)
        },
        KeyEvent::Release(k) => {
            state.release(k);
            None
        },
        KeyEvent::Other => None,
    }
}

} // verus!

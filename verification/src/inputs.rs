//! The keypad, as a snapshot of which of its sixteen keys are held down.
use vstd::prelude::*;

verus! {

/// Decisions taken on the state of the keyboard. The caller reads the keyboard
/// and hands in plain values: one flag per keypad key, 0 to F.
pub struct Inputs;

/// Whether any keypad key is held down.
pub open spec fn any_key_pressed(keys: Seq<bool>) -> bool {
    exists|k: int| 0 <= k < 16 && #[trigger] keys[k]
}

/// Whether the emulator must quit: an event was pending and Escape is held.
pub open spec fn quit_requested(event_pending: bool, escape_pressed: bool) -> bool {
    event_pending && escape_pressed
}

/// Whether keypad key `key` is in state `keystate`.
pub open spec fn key_in_state(keys: Seq<bool>, keystate: bool, key: int) -> bool {
    keys[key] == keystate
}

impl Inputs {
    /// Whether the emulator must quit: an event was pending and Escape is held.
    pub fn check(event_pending: bool, escape_pressed: bool) -> (quit: bool)
        ensures
            quit == quit_requested(event_pending, escape_pressed),
    {
        if !event_pending {
            return false;
        }
        escape_pressed
    }

    /// Whether keypad key `key` is in state `keystate` (held or released).
    pub fn is_keystate(keys: &[bool; 16], keystate: bool, key: usize) -> (r: bool)
        requires
            key < 16,
        ensures
            r == key_in_state(keys@, keystate, key as int),
    {
        keys[key] == keystate
    }

    /// Whether keypad key `vx` is held down.
    pub fn check_scancode(keys: &[bool; 16], vx: u8) -> (r: bool)
        requires
            vx < 16,
        ensures
            r == keys@[vx as int],
    {
        keys[vx as usize]
    }
}

} // verus!

//! Device event that the program received.
use vstd::prelude::*;
use crate::codes::KeyCode;
use crate::input::modifiers::Modifiers;

verus! {

/// The state of a key.
#[derive(Debug, PartialEq, Eq, Structural, Hash, Copy, Clone)]
pub enum KeyState {
    /// Key is released.
    Released,
    /// Key is pressed.
    Pressed,
    /// Key is being held down.
    Repeated,
}

impl KeyState {
    /// The event value of this state (its discriminant).
    pub fn value(self) -> (v: i32)
        ensures
            v == (match self {
                KeyState::Released => 0i32,
                KeyState::Pressed => 1i32,
                KeyState::Repeated => 2i32,
            }),
    {
        match self {
            KeyState::Released => 0,
            KeyState::Pressed => 1,
            KeyState::Repeated => 2,
        }
    }
}

/// Represents a key's activation with its context/modifiers.
#[derive(Debug, PartialEq, Eq, Structural, Hash, Copy, Clone)]
pub struct KeyEvent {
    /// Scancode of the key.
    pub code: KeyCode,
    /// State of the key.
    pub state: KeyState,
    /// Modifiers present when event triggered.
    pub modifiers: Modifiers,
}

impl KeyEvent {
    /// Create a new [`KeyEvent`].
    pub fn new(code: KeyCode, state: KeyState, modifiers: Modifiers) -> (e: KeyEvent)
        ensures
            e == (KeyEvent { code, state, modifiers }),
    {
        KeyEvent { code, state, modifiers }
    }
}

} // verus!

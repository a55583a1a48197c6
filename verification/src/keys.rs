//! Holds different variations of key representation depending on the context.
use vstd::prelude::*;
use crate::codes::KeyCode;
use crate::modifiers::Modifiers;

verus! {

#[derive(Debug, PartialEq, Eq, Structural, Hash, Copy, Clone)]
pub enum KeyState {
    Released,
    Pressed,
    Repeated,
}

impl KeyState {
    /// The event value of this state (its discriminant).
    pub fn value(self) -> (v: i32)
        ensures
            v == (match self {
                KeyState::Released => 0i32,
                KeyState::Pressed => 1i32,
                KeyState::Repeated => 2i32,
            }),
    {
        match self {
            KeyState::Released => 0,
            KeyState::Pressed => 1,
            KeyState::Repeated => 2,
        }
    }
}

/// Represents the key being activated alongside its modifiers (like Shift, Ctrl, etc...).
#[derive(Debug, PartialEq, Eq, Structural, Hash, Copy, Clone)]
pub struct Keybind {
    pub code: KeyCode,
    pub state: KeyState,
    pub modifiers: Modifiers,
}

impl Keybind {
    pub fn new(code: KeyCode, state: KeyState, modifiers: Modifiers) -> (k: Keybind)
        ensures
            k == (Keybind { code, state, modifiers }),
    {
        Keybind { code, state, modifiers }
    }
}

/// Defines a simple key action that can be sent to the compositor.
#[derive(Debug, PartialEq, Eq, Structural, Hash, Copy, Clone)]
pub struct KeyAction {
    pub key: KeyCode,
    pub state: KeyState,
}

impl KeyAction {
    pub fn new(key: KeyCode, state: KeyState) -> (a: KeyAction)
        ensures
            a == (KeyAction { key, state }),
    {
        KeyAction { key, state }
    }
}

} // verus!

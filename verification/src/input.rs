//! Holds different variations of key representation depending on the context.
use vstd::prelude::*;
use crate::Pixel;
use crate::codes::{AbsoluteAxisCode, KeyCode, RelativeAxisCode};
use crate::modifiers::Modifiers;

pub mod event;
pub mod modifiers;

verus! {

/// The state of a key in an event.
#[derive(Debug, PartialEq, Eq, Structural, Hash, Copy, Clone)]
pub enum KeyState {
    Released,
    Pressed,
    Repeated,
}

/// The event value that stands for a key state in evdev events.
pub open spec fn spec_key_state_value(state: KeyState) -> i32 {
    match state {
        KeyState::Released => 0,
        KeyState::Pressed => 1,
        KeyState::Repeated => 2,
    }
}

/// The key state that an evdev key event value stands for: 0 a release, 1 a
/// press, anything else a repeat.
pub open spec fn spec_key_state_from_value(value: i32) -> KeyState {
    if value == 0 {
        KeyState::Released
    } else if value == 1 {
        KeyState::Pressed
    } else {
        KeyState::Repeated
    }
}

impl KeyState {
    /// The event value of this state (its discriminant).
    pub fn value(self) -> (v: i32)
        ensures
            v == spec_key_state_value(self),
    {
        match self {
            KeyState::Released => 0,
            KeyState::Pressed => 1,
            KeyState::Repeated => 2,
        }
    }

    /// The state that an evdev key event value stands for.
    pub fn from_value(value: i32) -> (s: KeyState)
        ensures
            s == spec_key_state_from_value(value),
    {
        if value == 0 {
            KeyState::Released
        } else if value == 1 {
            KeyState::Pressed
        } else {
            KeyState::Repeated
        }
    }
}

/// Represents the key being activated alongside its modifiers (like Shift, Ctrl, etc...).
#[derive(Debug, PartialEq, Eq, Structural, Hash, Copy, Clone)]
pub struct Keybind {
    pub code: KeyCode,
    pub state: KeyState,
    pub modifiers: Modifiers,
}

impl Keybind {
    pub fn new(code: KeyCode, state: KeyState, modifiers: Modifiers) -> (k: Keybind)
        ensures
            k == (Keybind { code, state, modifiers }),
    {
        Keybind { code, state, modifiers }
    }
}

/// Defines a simple key action that can be sent to the compositor.
#[derive(Debug, PartialEq, Eq, Structural, Hash, Copy, Clone)]
pub struct KeyAction {
    pub key: KeyCode,
    pub state: KeyState,
}

impl KeyAction {
    pub fn new(key: KeyCode, state: KeyState) -> (a: KeyAction)
        ensures
            a == (KeyAction { key, state }),
    {
        KeyAction { key, state }
    }
}

/// Defines a simple relative mouse action.
#[derive(Debug, PartialEq, Eq, Structural, Hash, Copy, Clone)]
pub struct MouseRelAction {
    /// Along which axis to move.
    pub axis: RelativeAxisCode,
    /// How many pixels to shift.
    pub value: Pixel,
}

impl MouseRelAction {
    pub fn new(axis: RelativeAxisCode, value: i32) -> (a: MouseRelAction)
        ensures
            a == (MouseRelAction { axis, value }),
    {
        MouseRelAction { axis, value }
    }
}

/// Defines a simple absolute mouse action.
#[derive(Debug, PartialEq, Eq, Structural, Hash, Copy, Clone)]
pub struct MouseAbsAction {
    /// Along which axis to move.
    pub axis: AbsoluteAxisCode,
    /// Where to move along the axis.
    pub pos: i32,
}

impl MouseAbsAction {
    pub fn new(axis: AbsoluteAxisCode, pos: i32) -> (a: MouseAbsAction)
        ensures
            a == (MouseAbsAction { axis, pos }),
    {
        MouseAbsAction { axis, pos }
    }
}

/// A mouse action. Either a key action or a relative motion.
#[derive(Debug, PartialEq, Eq, Structural, Hash, Copy, Clone)]
pub enum MouseAction {
    /// Absolute motion of the mouse.
    Abs(MouseAbsAction),
    /// Relative motion of the mouse.
    Rel(MouseRelAction),
    /// Button action of the mouse.
    Key(KeyAction),
}

} // verus!

//! Contains list of possible messages that will be sent across and within processes.
use vstd::prelude::*;
use crate::codes::KeyCode;
use crate::input::{KeyAction, MouseAction};
use crate::keybind_set::KeybindSet;
use crate::modifiers::Modifiers;

verus! {

/// Message that comes from the main unprivileged process to the privileged one.
#[derive(Debug)]
pub enum MsgToPriv {
    Quit,
}

/// Message sent by closure to privileged sockets.
#[derive(Debug)]
pub enum MsgToWorker {
    UInputRequest(MsgToUInput),
}

/// Decides how the modifiers are applied.
#[derive(Debug, PartialEq, Eq, Structural, Clone, Copy)]
pub enum AppliedModifiers {
    /// Use the modifiers currently active.
    Current,
    /// Ensure an exact set of modifiers is active.
    Exact(Modifiers),
}

/// Mesasge to UInput thread.
#[derive(Debug)]
pub enum MsgToUInput {
    SendKeyActions(Vec<KeyAction>),
    SendKeyTap(KeyCode, AppliedModifiers),
    SendMouseActions(Vec<MouseAction>),
    SendMouseClick(KeyCode, AppliedModifiers),
}

/// Mesasge to Input thread.
#[derive(Debug)]
pub enum MsgToInput {
    /// The keybinds that the input loop reports to the core from now on.
    ChangeBindings(KeybindSet),
    /// The pointing devices may have changed.
    PointersChanged,
    /// The keyboards may have changed.
    KeyboardChanged,
}

} // verus!

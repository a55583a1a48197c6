//! Keybinding daemon library: key and modifier bookkeeping, the decisions of the
//! input and virtual-device loops, screen layouts and the messages exchanged
//! between the unprivileged core and the privileged daemon.
#![allow(unused_imports)]

pub mod attribute_set;
pub mod codes;
pub mod duration;
pub mod modifiers;
pub mod input;
pub mod keys;
pub mod keybind_set;
pub mod binding_table;
pub mod binder;
pub mod configs;
pub mod app;
pub mod privileges;
pub mod connector;
pub mod message;
pub mod axis_totals;
pub mod input_manager;
pub mod layout;
pub mod compositor_interface;
pub mod display_monitor;
pub mod wayland_int;
pub mod uinput_manager;

use vstd::prelude::*;

verus! {

/// A distance or coordinate on the screen, in pixels.
pub type Pixel = i32;

} // verus!

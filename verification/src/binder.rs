//! The app setup goes through the binder.
use vstd::prelude::*;
use std::time::Duration;
use crate::binding_table::BindingTable;
use crate::codes::{KeyCode, key_pause};
use crate::duration::{duration_nanos, duration_zero};
use crate::input::{KeyState, Keybind};
use crate::modifiers;

verus! {

/// Holds everything necessary for the app to work. `A` is what a keybinding
/// runs (in the app, a closure over the api).
pub struct Binder<A> {
    /// Maximum number of threads to run closures with.
    max_threads: u16,
    /// The closures for each keybindings.
    bindings: BindingTable<A>,
    /// Keybind that toggles the other keybindings.
    toggle_bindings_key: Keybind,
    /// Keybind that exit the program.
    exit_key: Keybind,
    /// Minimum mouse polling interval betwene relative motion events.
    min_mouse_poll_interval: Duration,
    /// Whether the keybinds are paused or not.
    paused: bool,
}

/// Pressing Pause with no modifier toggles the keybindings by default.
pub open spec fn default_toggle_bindings_key() -> Keybind {
    Keybind { code: KeyCode(119), state: KeyState::Pressed, modifiers: modifiers::NONE }
}

/// Pressing Pause with the right Ctrl exits by default.
pub open spec fn default_exit_key() -> Keybind {
    Keybind { code: KeyCode(119), state: KeyState::Pressed, modifiers: modifiers::RIGHT_CTRL }
}

impl<A> Binder<A> {
    pub closed spec fn spec_max_threads(&self) -> u16 {
        self.max_threads
    }

    pub closed spec fn spec_bindings(&self) -> Map<Keybind, A> {
        self.bindings@
    }

    pub closed spec fn spec_toggle_bindings_key(&self) -> Keybind {
        self.toggle_bindings_key
    }

    pub closed spec fn spec_exit_key(&self) -> Keybind {
        self.exit_key
    }

    pub closed spec fn spec_min_mouse_poll_interval(&self) -> Duration {
        self.min_mouse_poll_interval
    }

    pub closed spec fn spec_paused(&self) -> bool {
        self.paused
    }

    /// The bindings' table is well formed.
    pub closed spec fn wf(&self) -> bool {
        self.bindings.wf()
    }

    /// A binder without bindings, running closures on up to `max_threads`
    /// threads, with the default toggle and exit keys, any mouse polling rate
    /// allowed, and the bindings active.
    pub fn new(max_threads: u16) -> (b: Binder<A>)
        ensures
            b.wf(),
            b.spec_max_threads() == max_threads,
            b.spec_bindings() == Map::<Keybind, A>::empty(),
            b.spec_toggle_bindings_key() == default_toggle_bindings_key(),
            b.spec_exit_key() == default_exit_key(),
            duration_nanos(b.spec_min_mouse_poll_interval()) == 0,
            !b.spec_paused(),
    {
        let toggle_bindings_key = Keybind::new(key_pause(), KeyState::Pressed, modifiers::NONE);
        let exit_key = Keybind::new(key_pause(), KeyState::Pressed, modifiers::RIGHT_CTRL);
        Binder {
            max_threads,
            bindings: BindingTable::new(),
            toggle_bindings_key,
            exit_key,
            // By default, allow any polling rate.
            min_mouse_poll_interval: duration_zero(),
            paused: false,
        }
    }

    /// Create new keybinding.
    ///
    /// # Return
    ///
    /// [`None`] if the binding did not already exist or the old closure if the
    /// binding is overwritting the old binding.
    pub fn create_binding(&mut self, key: Keybind, closure: A) -> (previous: Option<A>)
        requires
            old(self).wf(),
        ensures
            final(self).wf(),
            final(self).spec_bindings() == old(self).spec_bindings().insert(key, closure),
            previous == (if old(self).spec_bindings().dom().contains(key) {
                Some(old(self).spec_bindings()[key])
            } else {
                None
            }),
            final(self).spec_max_threads() == old(self).spec_max_threads(),
            final(self).spec_toggle_bindings_key() == old(self).spec_toggle_bindings_key(),
            final(self).spec_exit_key() == old(self).spec_exit_key(),
            final(self).spec_min_mouse_poll_interval() == old(self).spec_min_mouse_poll_interval(),
            final(self).spec_paused() == old(self).spec_paused(),
    {
        self.bindings.insert(key, closure)
    }

    /// Defines a key to turn keybind activation on or off.
    pub fn set_toggle_bindings_key(&mut self, key: Keybind)
        ensures
            final(self).spec_toggle_bindings_key() == key,
            final(self).wf() == old(self).wf(),
            final(self).spec_bindings() == old(self).spec_bindings(),
            final(self).spec_max_threads() == old(self).spec_max_threads(),
            final(self).spec_exit_key() == old(self).spec_exit_key(),
            final(self).spec_min_mouse_poll_interval() == old(self).spec_min_mouse_poll_interval(),
            final(self).spec_paused() == old(self).spec_paused(),
    {
        self.toggle_bindings_key = key;
    }

    /// Defines a key to exit the daemon.
    pub fn set_exit_key(&mut self, key: Keybind)
        ensures
            final(self).spec_exit_key() == key,
            final(self).wf() == old(self).wf(),
            final(self).spec_bindings() == old(self).spec_bindings(),
            final(self).spec_max_threads() == old(self).spec_max_threads(),
            final(self).spec_toggle_bindings_key() == old(self).spec_toggle_bindings_key(),
            final(self).spec_min_mouse_poll_interval() == old(self).spec_min_mouse_poll_interval(),
            final(self).spec_paused() == old(self).spec_paused(),
    {
        self.exit_key = key;
    }

    /// Set the minimum amount of time that has to pass before sending consecutive
    /// relative mouse movements to the compositor.
    pub fn set_min_mouse_polling_interval(&mut self, interval: Duration)
        ensures
            final(self).spec_min_mouse_poll_interval() == interval,
            final(self).wf() == old(self).wf(),
            final(self).spec_bindings() == old(self).spec_bindings(),
            final(self).spec_max_threads() == old(self).spec_max_threads(),
            final(self).spec_toggle_bindings_key() == old(self).spec_toggle_bindings_key(),
            final(self).spec_exit_key() == old(self).spec_exit_key(),
            final(self).spec_paused() == old(self).spec_paused(),
    {
        self.min_mouse_poll_interval = interval;
    }

    pub fn max_threads(&self) -> (n: u16)
        ensures
            n == self.spec_max_threads(),
    {
        self.max_threads
    }

    pub fn paused(&self) -> (p: bool)
        ensures
            p == self.spec_paused(),
    {
        self.paused
    }

    pub fn exit_key(&self) -> (k: Keybind)
        ensures
            k == self.spec_exit_key(),
    {
        self.exit_key
    }

    pub fn toggle_bindings_key(&self) -> (k: Keybind)
        ensures
            k == self.spec_toggle_bindings_key(),
    {
        self.toggle_bindings_key
    }

    pub fn bindings(&self) -> (b: &BindingTable<A>)
        ensures
            b@ == self.spec_bindings(),
            self.wf() ==> b.wf(),
    {
        &self.bindings
    }

    pub fn set_paused(&mut self, paused: bool)
        ensures
            final(self).spec_paused() == paused,
            final(self).wf() == old(self).wf(),
            final(self).spec_bindings() == old(self).spec_bindings(),
            final(self).spec_max_threads() == old(self).spec_max_threads(),
            final(self).spec_toggle_bindings_key() == old(self).spec_toggle_bindings_key(),
            final(self).spec_exit_key() == old(self).spec_exit_key(),
            final(self).spec_min_mouse_poll_interval() == old(self).spec_min_mouse_poll_interval(),
    {
        self.paused = paused;
    }

    pub fn min_mouse_poll_interval(&self) -> (d: Duration)
        ensures
            d == self.spec_min_mouse_poll_interval(),
    {
        self.min_mouse_poll_interval
    }
}

} // verus!

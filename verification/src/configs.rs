//! The bindings of the app and what each keybind does.
use vstd::prelude::*;
use std::time::Duration;
use crate::binding_table::BindingTable;
use crate::duration::{duration_nanos, duration_zero};
use crate::input::Keybind;

verus! {

/// An action linked to a keybind. `C` is the closure type (in the app, a
/// closure over the api).
#[derive(Clone)]
pub enum Action<C> {
    Closure(C),
    /// Pauses and unpauses closures. When paused, pressing a keybind won't trigger the associated closure.
    TogglePauseClosures,
    /// Start recording a macro.
    MacroRecordingStart,
    /// Stop recording a macro.
    MacroRecordingStop,
    /// Exit the app.
    Exit,
}

/// Holds everything necessary for the app to work with bindings.
pub struct Configs<C> {
    /// Maximum number of threads to run closures with.
    max_threads: u16,
    /// The closures for each keybindings.
    bindings: BindingTable<Action<C>>,
    /// Minimum mouse polling interval betwene relative motion events.
    min_mouse_poll_interval: Duration,
}

impl<C> Configs<C> {
    pub closed spec fn spec_max_threads(&self) -> u16 {
        self.max_threads
    }

    pub closed spec fn spec_bindings(&self) -> Map<Keybind, Action<C>> {
        self.bindings@
    }

    pub closed spec fn spec_min_mouse_poll_interval(&self) -> Duration {
        self.min_mouse_poll_interval
    }

    /// The bindings' table is well formed.
    pub closed spec fn wf(&self) -> bool {
        self.bindings.wf()
    }

    /// No bindings, closures on up to `max_threads` threads, any mouse polling
    /// rate allowed.
    pub fn new(max_threads: u16) -> (c: Configs<C>)
        ensures
            c.wf(),
            c.spec_max_threads() == max_threads,
            c.spec_bindings() == Map::<Keybind, Action<C>>::empty(),
            duration_nanos(c.spec_min_mouse_poll_interval()) == 0,
    {
        Configs {
            max_threads,
            bindings: BindingTable::new(),
            // By default, allow any polling rate.
            min_mouse_poll_interval: duration_zero(),
        }
    }

    /// Create new keybinding with closure.
    ///
    /// # Return
    ///
    /// [`None`] if the binding did not already exist or the old [`Action`] if the binding is overwritting the old binding.
    pub fn create_closure_binding(&mut self, key: Keybind, closure: C) -> (previous: Option<Action<C>>)
        requires
            old(self).wf(),
        ensures
            final(self).wf(),
            final(self).spec_bindings() == old(self).spec_bindings().insert(key, Action::Closure(closure)),
            previous == (if old(self).spec_bindings().dom().contains(key) {
                Some(old(self).spec_bindings()[key])
            } else {
                None
            }),
            final(self).spec_max_threads() == old(self).spec_max_threads(),
            final(self).spec_min_mouse_poll_interval() == old(self).spec_min_mouse_poll_interval(),
    {
        self.bindings.insert(key, Action::Closure(closure))
    }

    /// Create new keybinding with an [`Action`].
    ///
    /// # Return
    ///
    /// [`None`] if the binding did not already exist or the old [`Action`].
    pub fn create_binding(&mut self, key: Keybind, action: Action<C>) -> (previous: Option<Action<C>>)
        requires
            old(self).wf(),
        ensures
            final(self).wf(),
            final(self).spec_bindings() == old(self).spec_bindings().insert(key, action),
            previous == (if old(self).spec_bindings().dom().contains(key) {
                Some(old(self).spec_bindings()[key])
            } else {
                None
            }),
            final(self).spec_max_threads() == old(self).spec_max_threads(),
            final(self).spec_min_mouse_poll_interval() == old(self).spec_min_mouse_poll_interval(),
    {
        self.bindings.insert(key, action)
    }

    /// Set the minimum amount of time that has to pass before sending consecutive
    /// relative mouse movements to the compositor. This only affects relative
    /// actions of actual devices.
    pub fn set_rel_mouse_polling_interval(&mut self, interval: Duration)
        ensures
            final(self).spec_min_mouse_poll_interval() == interval,
            final(self).wf() == old(self).wf(),
            final(self).spec_bindings() == old(self).spec_bindings(),
            final(self).spec_max_threads() == old(self).spec_max_threads(),
    {
        self.min_mouse_poll_interval = interval;
    }

    pub fn max_threads(&self) -> (n: u16)
        ensures
            n == self.spec_max_threads(),
    {
        self.max_threads
    }

    pub fn bindings(&self) -> (b: &BindingTable<Action<C>>)
        ensures
            b@ == self.spec_bindings(),
            self.wf() ==> b.wf(),
    {
        &self.bindings
    }

    pub fn min_mouse_poll_interval(&self) -> (d: Duration)
        ensures
            d == self.spec_min_mouse_poll_interval(),
    {
        self.min_mouse_poll_interval
    }
}

} // verus!

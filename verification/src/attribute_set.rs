//! A set of key codes held by evdev's own bit set, as a device reports the
//! keys that it holds down.
use vstd::prelude::*;
use crate::codes::KeyCode;

verus! {

/// Key codes held in an `evdev::AttributeSet<evdev::KeyCode>`. A set that evdev
/// produced, such as a device's key state, is wrapped directly by the caller.
#[verifier::external_body]
pub struct KeyCodeSet {
    pub set: evdev::AttributeSet<evdev::KeyCode>,
}

/// The scancodes whose bits are set in a [`KeyCodeSet`].
pub uninterp spec fn key_code_set_contents(s: KeyCodeSet) -> Set<u16>;

impl KeyCodeSet {
    /// Whether the bit of `code` is set (`AttributeSet::contains`, which answers
    /// `false` beyond the bit array).
    #[verifier::external_body]
    pub(crate) fn contains(&self, code: KeyCode) -> (b: bool)
        ensures
            b == key_code_set_contents(*self).contains(code.0),
    {
        self.set.contains(evdev::KeyCode::new(code.0))
    }
}

} // verus!

//! Plain stand-ins for the evdev code types, and the evdev constants that the
//! library's logic reads. Each constant is taken from evdev itself; its
//! contract repeats the number that evdev's code table gives it.
use vstd::prelude::*;

verus! {

/// A key or button scancode, as evdev numbers it.
#[derive(Clone, Copy, Debug, PartialEq, Eq, Structural, Hash)]
pub struct KeyCode(pub u16);

impl KeyCode {
    /// Wraps a raw scancode.
    pub fn new(code: u16) -> (k: KeyCode)
        ensures
            k.0 == code,
    {
        KeyCode(code)
    }

    /// The raw scancode.
    pub fn code(self) -> (c: u16)
        ensures
            c == self.0,
    {
        self.0
    }
}

/// A relative axis of a pointing device (motion along x, y, the wheel...).
#[derive(Clone, Copy, Debug, PartialEq, Eq, Structural, Hash)]
pub struct RelativeAxisCode(pub u16);

/// An absolute axis of a pointing device.
#[derive(Clone, Copy, Debug, PartialEq, Eq, Structural, Hash)]
pub struct AbsoluteAxisCode(pub u16);

/// An evdev event as the library reads or writes it: its type, code and value.
#[derive(Clone, Copy, Debug, PartialEq, Eq, Structural, Hash)]
pub struct DeviceEvent {
    pub event_type: u16,
    pub code: u16,
    pub value: i32,
}

/// `evdev::KeyCode::KEY_LEFTSHIFT`, scancode 42 in evdev's table.
#[verifier::external_body]
pub(crate) fn key_leftshift() -> (k: KeyCode)
    ensures
        k.0 == 42,
{
    KeyCode(evdev::KeyCode::KEY_LEFTSHIFT.code())
}

/// `evdev::KeyCode::KEY_RIGHTSHIFT`, scancode 54 in evdev's table.
#[verifier::external_body]
pub(crate) fn key_rightshift() -> (k: KeyCode)
    ensures
        k.0 == 54,
{
    KeyCode(evdev::KeyCode::KEY_RIGHTSHIFT.code())
}

/// `evdev::KeyCode::KEY_LEFTCTRL`, scancode 29 in evdev's table.
#[verifier::external_body]
pub(crate) fn key_leftctrl() -> (k: KeyCode)
    ensures
        k.0 == 29,
{
    KeyCode(evdev::KeyCode::KEY_LEFTCTRL.code())
}

/// `evdev::KeyCode::KEY_RIGHTCTRL`, scancode 97 in evdev's table.
#[verifier::external_body]
pub(crate) fn key_rightctrl() -> (k: KeyCode)
    ensures
        k.0 == 97,
{
    KeyCode(evdev::KeyCode::KEY_RIGHTCTRL.code())
}

/// `evdev::KeyCode::KEY_LEFTALT`, scancode 56 in evdev's table.
#[verifier::external_body]
pub(crate) fn key_leftalt() -> (k: KeyCode)
    ensures
        k.0 == 56,
{
    KeyCode(evdev::KeyCode::KEY_LEFTALT.code())
}

/// `evdev::KeyCode::KEY_RIGHTALT`, scancode 100 in evdev's table.
#[verifier::external_body]
pub(crate) fn key_rightalt() -> (k: KeyCode)
    ensures
        k.0 == 100,
{
    KeyCode(evdev::KeyCode::KEY_RIGHTALT.code())
}

/// `evdev::KeyCode::KEY_LEFTMETA`, scancode 125 in evdev's table.
#[verifier::external_body]
pub(crate) fn key_leftmeta() -> (k: KeyCode)
    ensures
        k.0 == 125,
{
    KeyCode(evdev::KeyCode::KEY_LEFTMETA.code())
}

/// `evdev::KeyCode::KEY_RIGHTMETA`, scancode 126 in evdev's table.
#[verifier::external_body]
pub(crate) fn key_rightmeta() -> (k: KeyCode)
    ensures
        k.0 == 126,
{
    KeyCode(evdev::KeyCode::KEY_RIGHTMETA.code())
}

/// `evdev::KeyCode::KEY_PAUSE`, scancode 119 in evdev's table.
#[verifier::external_body]
pub(crate) fn key_pause() -> (k: KeyCode)
    ensures
        k.0 == 119,
{
    KeyCode(evdev::KeyCode::KEY_PAUSE.code())
}

/// `evdev::EventType::SYNCHRONIZATION`, event type 0x00 in evdev's table.
#[verifier::external_body]
pub(crate) fn event_type_synchronization() -> (t: u16)
    ensures
        t == 0x00,
{
    evdev::EventType::SYNCHRONIZATION.0
}

/// `evdev::EventType::KEY`, event type 0x01 in evdev's table.
#[verifier::external_body]
pub(crate) fn event_type_key() -> (t: u16)
    ensures
        t == 0x01,
{
    evdev::EventType::KEY.0
}

/// `evdev::EventType::RELATIVE`, event type 0x02 in evdev's table.
#[verifier::external_body]
pub(crate) fn event_type_relative() -> (t: u16)
    ensures
        t == 0x02,
{
    evdev::EventType::RELATIVE.0
}

/// `evdev::EventType::ABSOLUTE`, event type 0x03 in evdev's table.
#[verifier::external_body]
pub(crate) fn event_type_absolute() -> (t: u16)
    ensures
        t == 0x03,
{
    evdev::EventType::ABSOLUTE.0
}

/// `evdev::AbsoluteAxisCode::ABS_X`, axis 0x00 in evdev's table.
#[verifier::external_body]
pub(crate) fn abs_x() -> (a: AbsoluteAxisCode)
    ensures
        a.0 == 0x00,
{
    AbsoluteAxisCode(evdev::AbsoluteAxisCode::ABS_X.0)
}

/// `evdev::AbsoluteAxisCode::ABS_Y`, axis 0x01 in evdev's table.
#[verifier::external_body]
pub(crate) fn abs_y() -> (a: AbsoluteAxisCode)
    ensures
        a.0 == 0x01,
{
    AbsoluteAxisCode(evdev::AbsoluteAxisCode::ABS_Y.0)
}

} // verus!

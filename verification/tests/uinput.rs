use libdae::codes::{AbsoluteAxisCode, DeviceEvent, KeyCode, RelativeAxisCode};
use libdae::display_monitor::{MonitorInfo, ScreenSpace};
use libdae::input::{KeyAction, KeyState, MouseAbsAction, MouseAction, MouseRelAction};
use libdae::message::{AppliedModifiers, MsgToUInput};
use libdae::modifiers::{modifier_from_keycode, LEFT_CTRL, LEFT_SHIFT, NONE, RIGHT_ALT};
use libdae::uinput_manager::{
    abs_axis_limits, plan_uinput_message, send_full_motion, virtual_keyboard_keys,
    virtual_mouse_keys, Emission, VirtualDevice,
};

fn key(code: u16, value: i32) -> DeviceEvent {
    DeviceEvent { event_type: evdev::EventType::KEY.0, code, value }
}

fn track(mut held: u16, events: &[DeviceEvent]) -> u16 {
    for e in events {
        let m = modifier_from_keycode(KeyCode::new(e.code));
        if e.value == 0 {
            held &= !m;
        } else if e.value == 1 {
            held |= m;
        }
    }
    held
}

fn batches(out: &[Emission]) -> Vec<(VirtualDevice, Vec<DeviceEvent>)> {
    out.iter().map(|e| (e.device, e.events.clone())).collect()
}

#[test]
fn exact_tap_swaps_the_modifiers_around_the_key() {
    let out = send_full_motion(
        KeyCode::new(30),
        VirtualDevice::Keyboard,
        LEFT_CTRL,
        AppliedModifiers::Exact(LEFT_SHIFT),
        false,
    );
    assert_eq!(
        batches(&out),
        vec![(
            VirtualDevice::Keyboard,
            vec![key(42, 1), key(29, 0), key(30, 1), key(30, 0), key(42, 0), key(29, 1)]
        )]
    );
}

#[test]
fn separate_tap_emits_press_and_release_apart() {
    let out = send_full_motion(
        KeyCode::new(0x110),
        VirtualDevice::RelativeMouse,
        NONE,
        AppliedModifiers::Exact(RIGHT_ALT),
        true,
    );
    assert_eq!(
        batches(&out),
        vec![
            (VirtualDevice::RelativeMouse, vec![key(100, 1), key(0x110, 1)]),
            (VirtualDevice::RelativeMouse, vec![key(0x110, 0), key(100, 0)]),
        ]
    );
}

#[test]
fn current_tap_only_presses_and_releases() {
    let out = send_full_motion(
        KeyCode::new(48),
        VirtualDevice::Keyboard,
        LEFT_SHIFT,
        AppliedModifiers::Current,
        false,
    );
    assert_eq!(batches(&out), vec![(VirtualDevice::Keyboard, vec![key(48, 1), key(48, 0)])]);
}

#[test]
fn tap_holds_requested_modifiers_and_restores_them() {
    for (cur, req) in [
        (0u16, 0x05u16),
        (0x0f, 0x30),
        (0xff, 0),
        (0x12, 0x12),
        (0x81, 0xff81),
        (0x4a03, 0x0c),
        (0xff00, 0x81),
    ] {
        let out = send_full_motion(
            KeyCode::new(30),
            VirtualDevice::Keyboard,
            cur,
            AppliedModifiers::Exact(req),
            true,
        );
        assert_eq!(out.len(), 2);
        assert_eq!(track(cur, &out[0].events), (cur & 0xff00) | (req & 0xff));
        assert_eq!(track(track(cur, &out[0].events), &out[1].events), cur);
    }
}

#[test]
fn key_actions_track_the_modifiers() {
    let mut cur = NONE;
    let msg = MsgToUInput::SendKeyActions(vec![
        KeyAction::new(KeyCode::new(42), KeyState::Pressed),
        KeyAction::new(KeyCode::new(30), KeyState::Pressed),
        KeyAction::new(KeyCode::new(30), KeyState::Released),
        KeyAction::new(KeyCode::new(29), KeyState::Repeated),
    ]);
    let out = plan_uinput_message(&mut cur, &msg);
    assert_eq!(
        batches(&out),
        vec![(VirtualDevice::Keyboard, vec![key(42, 1), key(30, 1), key(30, 0), key(29, 2)])]
    );
    assert_eq!(cur, LEFT_SHIFT);
    let release = MsgToUInput::SendKeyActions(vec![KeyAction::new(KeyCode::new(42), KeyState::Released)]);
    plan_uinput_message(&mut cur, &release);
    assert_eq!(cur, NONE);
}

#[test]
fn empty_key_actions_still_emit() {
    let mut cur = LEFT_CTRL;
    let out = plan_uinput_message(&mut cur, &MsgToUInput::SendKeyActions(vec![]));
    assert_eq!(batches(&out), vec![(VirtualDevice::Keyboard, vec![])]);
    assert_eq!(cur, LEFT_CTRL);
}

#[test]
fn mouse_actions_split_between_devices() {
    let mut cur = NONE;
    let msg = MsgToUInput::SendMouseActions(vec![
        MouseAction::Rel(MouseRelAction::new(RelativeAxisCode(0), 10)),
        MouseAction::Abs(MouseAbsAction::new(AbsoluteAxisCode(0), 100)),
        MouseAction::Key(KeyAction::new(KeyCode::new(0x110), KeyState::Pressed)),
        MouseAction::Abs(MouseAbsAction::new(AbsoluteAxisCode(1), 50)),
    ]);
    let out = plan_uinput_message(&mut cur, &msg);
    let rel = |code, value| DeviceEvent { event_type: 2, code, value };
    let abs = |code, value| DeviceEvent { event_type: 3, code, value };
    assert_eq!(
        batches(&out),
        vec![
            (VirtualDevice::RelativeMouse, vec![rel(0, 10), key(0x110, 1)]),
            (VirtualDevice::AbsoluteMouse, vec![abs(0, -1), abs(1, -1), abs(0, 100), abs(1, 50)]),
        ]
    );
    assert_eq!(cur, NONE);
}

#[test]
fn no_mouse_actions_emit_nothing() {
    let mut cur = NONE;
    let out = plan_uinput_message(&mut cur, &MsgToUInput::SendMouseActions(vec![]));
    assert!(out.is_empty());
}

#[test]
fn key_tap_and_mouse_click_requests() {
    let mut cur = LEFT_SHIFT;
    let tap = plan_uinput_message(&mut cur, &MsgToUInput::SendKeyTap(KeyCode::new(30), AppliedModifiers::Exact(NONE)));
    assert_eq!(
        batches(&tap),
        vec![(VirtualDevice::Keyboard, vec![key(42, 0), key(30, 1), key(30, 0), key(42, 1)])]
    );
    let click = plan_uinput_message(&mut cur, &MsgToUInput::SendMouseClick(KeyCode::new(0x110), AppliedModifiers::Current));
    assert_eq!(
        batches(&click),
        vec![
            (VirtualDevice::RelativeMouse, vec![key(0x110, 1)]),
            (VirtualDevice::RelativeMouse, vec![key(0x110, 0)]),
        ]
    );
    assert_eq!(cur, LEFT_SHIFT);
}

#[test]
fn virtual_device_key_lists() {
    let kbd = virtual_keyboard_keys();
    let expected: Vec<KeyCode> = (0..=248u16)
        .chain(0x160..=0x21e)
        .chain(0x230..=0x27a)
        .map(KeyCode::new)
        .collect();
    assert_eq!(kbd, expected);
    let mouse = virtual_mouse_keys();
    assert_eq!(mouse, (0x100..=0x151u16).map(KeyCode::new).collect::<Vec<_>>());
}

#[test]
fn tablet_axes_span_the_layout() {
    let space = ScreenSpace::new(&[
        MonitorInfo::new(1920, 1080, [0, 0]),
        MonitorInfo::new(1280, 1024, [-1280, 100]),
    ]);
    assert_eq!(abs_axis_limits(&space), ((-1280, 1919), (0, 1123)));
}

use libdae::axis_totals::{accumulate_relative, AxisTotals};
use libdae::codes::{DeviceEvent, KeyCode, RelativeAxisCode};
use libdae::input::{KeyAction, KeyState, Keybind, MouseAction, MouseRelAction};
use libdae::input_manager::{
    dedup_device_paths, device_type_of_name, devices_changed, handle_kbd_events,
    handle_mouse_event, micros_until_next_poll, DevErr, DevType, KbdOutput, MouseOutput,
};
use libdae::keybind_set::KeybindSet;
use libdae::modifiers::{LEFT_CTRL, LEFT_SHIFT, NONE};
use std::time::Duration;

fn key(code: u16, value: i32) -> DeviceEvent {
    DeviceEvent { event_type: evdev::EventType::KEY.0, code, value }
}

fn sync() -> DeviceEvent {
    DeviceEvent { event_type: evdev::EventType::SYNCHRONIZATION.0, code: 0, value: 0 }
}

fn rel(axis: u16, value: i32) -> DeviceEvent {
    DeviceEvent { event_type: evdev::EventType::RELATIVE.0, code: axis, value }
}

fn rel_x() -> u16 {
    evdev::RelativeAxisCode::REL_X.0
}

fn rel_y() -> u16 {
    evdev::RelativeAxisCode::REL_Y.0
}

fn btn_left() -> u16 {
    evdev::KeyCode::BTN_LEFT.code()
}

fn key_actions_of(out: &KbdOutput) -> Vec<KeyAction> {
    match out {
        KbdOutput::SendKeyActions(v) => v.clone(),
        KbdOutput::SendToCore(k) => panic!("expected key actions, got {:?}", k),
    }
}

#[test]
fn keyboard_batches_are_sent_at_synchronization() {
    let events = vec![key(30, 1), sync(), key(30, 0), key(30, 2), key(42, 1), sync()];
    let mut pending = Vec::new();
    let mut held = NONE;
    let out = handle_kbd_events(&events, &mut pending, &mut held, &KeybindSet::new());
    assert_eq!(out.len(), 2);
    assert_eq!(key_actions_of(&out[0]), vec![KeyAction::new(KeyCode::new(30), KeyState::Pressed)]);
    assert_eq!(
        key_actions_of(&out[1]),
        vec![
            KeyAction::new(KeyCode::new(30), KeyState::Released),
            KeyAction::new(KeyCode::new(42), KeyState::Pressed),
        ]
    );
    assert!(pending.is_empty());
    assert_eq!(held, LEFT_SHIFT);
}

#[test]
fn keyboard_bound_key_goes_to_the_core_with_its_modifiers() {
    let bound = Keybind::new(KeyCode::new(30), KeyState::Pressed, LEFT_CTRL);
    let bindings = KeybindSet::from_vec(vec![bound]);
    let events = vec![key(29, 1), key(30, 1), sync()];
    let mut pending = Vec::new();
    let mut held = NONE;
    let out = handle_kbd_events(&events, &mut pending, &mut held, &bindings);
    assert_eq!(out.len(), 2);
    match &out[0] {
        KbdOutput::SendToCore(k) => assert_eq!(*k, bound),
        other => panic!("expected a keybind, got {:?}", other),
    }
    assert_eq!(key_actions_of(&out[1]), vec![KeyAction::new(KeyCode::new(29), KeyState::Pressed)]);
    assert_eq!(held, LEFT_CTRL);
}

#[test]
fn keyboard_events_without_synchronization_stay_pending() {
    let events = vec![key(30, 1), key(29, 0)];
    let mut pending = Vec::new();
    let mut held = LEFT_CTRL;
    let out = handle_kbd_events(&events, &mut pending, &mut held, &KeybindSet::new());
    assert!(out.is_empty());
    assert_eq!(
        pending,
        vec![
            KeyAction::new(KeyCode::new(30), KeyState::Pressed),
            KeyAction::new(KeyCode::new(29), KeyState::Released),
        ]
    );
    assert_eq!(held, NONE);
}

#[test]
fn next_poll_lands_on_the_interval() {
    assert_eq!(micros_until_next_poll(1000, 12345), 655);
    assert_eq!(micros_until_next_poll(1000, 12000), 1000);
    assert_eq!(micros_until_next_poll(7, 0), 7);
}

#[test]
fn mouse_without_poll_interval_sends_everything_at_synchronization() {
    let mut pending = Vec::new();
    let mut held = NONE;
    let mut totals = AxisTotals::new();
    let bindings = KeybindSet::new();
    let since = Duration::from_micros(12345);
    for ev in [rel(rel_x(), 5), key(btn_left(), 1)] {
        let out = handle_mouse_event(
            ev,
            since,
            &mut pending,
            &mut held,
            &bindings,
            Duration::ZERO,
            &mut totals,
            false,
        );
        assert!(out.is_empty());
    }
    let out = handle_mouse_event(
        sync(),
        since,
        &mut pending,
        &mut held,
        &bindings,
        Duration::ZERO,
        &mut totals,
        false,
    );
    assert_eq!(out.len(), 1);
    match &out[0] {
        MouseOutput::SendMouseActions(actions) => assert_eq!(
            actions,
            &vec![
                MouseAction::Rel(MouseRelAction::new(RelativeAxisCode(rel_x()), 5)),
                MouseAction::Key(KeyAction::new(KeyCode::new(btn_left()), KeyState::Pressed)),
            ]
        ),
        other => panic!("unexpected output {:?}", other),
    }
    assert!(pending.is_empty());
    assert!(totals.drain().is_empty());
}

#[test]
fn mouse_with_poll_interval_accumulates_motion_and_arms_the_timer() {
    let mut pending = Vec::new();
    let mut held = NONE;
    let mut totals = AxisTotals::new();
    let bindings = KeybindSet::new();
    let since = Duration::from_micros(12345);
    let interval = Duration::from_millis(1);
    for ev in [rel(rel_x(), 5), rel(rel_y(), -3), key(btn_left(), 1), rel(rel_x(), 2)] {
        let out = handle_mouse_event(
            ev, since, &mut pending, &mut held, &bindings, interval, &mut totals, false,
        );
        assert!(out.is_empty());
    }
    let out = handle_mouse_event(
        sync(),
        since,
        &mut pending,
        &mut held,
        &bindings,
        interval,
        &mut totals,
        false,
    );
    assert_eq!(out.len(), 2);
    match &out[0] {
        MouseOutput::ArmTimer(micros) => assert_eq!(*micros, 655),
        other => panic!("unexpected output {:?}", other),
    }
    match &out[1] {
        MouseOutput::SendMouseActions(actions) => assert_eq!(
            actions,
            &vec![MouseAction::Key(KeyAction::new(KeyCode::new(btn_left()), KeyState::Pressed))]
        ),
        other => panic!("unexpected output {:?}", other),
    }
    assert_eq!(
        totals.drain(),
        vec![
            MouseAction::Rel(MouseRelAction::new(RelativeAxisCode(rel_x()), 7)),
            MouseAction::Rel(MouseRelAction::new(RelativeAxisCode(rel_y()), -3)),
        ]
    );
}

#[test]
fn mouse_with_armed_timer_does_not_arm_it_again() {
    let mut pending = vec![MouseAction::Rel(MouseRelAction::new(RelativeAxisCode(rel_x()), 1))];
    let mut held = NONE;
    let mut totals = AxisTotals::new();
    let out = handle_mouse_event(
        sync(),
        Duration::from_micros(5),
        &mut pending,
        &mut held,
        &KeybindSet::new(),
        Duration::from_millis(2),
        &mut totals,
        true,
    );
    assert_eq!(out.len(), 1);
    match &out[0] {
        MouseOutput::SendMouseActions(actions) => assert!(actions.is_empty()),
        other => panic!("unexpected output {:?}", other),
    }
}

#[test]
fn mouse_bound_button_goes_to_the_core() {
    let bound = Keybind::new(KeyCode::new(btn_left()), KeyState::Pressed, NONE);
    let mut pending = Vec::new();
    let mut held = NONE;
    let mut totals = AxisTotals::new();
    let out = handle_mouse_event(
        key(btn_left(), 1),
        Duration::ZERO,
        &mut pending,
        &mut held,
        &KeybindSet::from_vec(vec![bound]),
        Duration::ZERO,
        &mut totals,
        false,
    );
    assert_eq!(out.len(), 1);
    match &out[0] {
        MouseOutput::SendToCore(k) => assert_eq!(*k, bound),
        other => panic!("unexpected output {:?}", other),
    }
    assert!(pending.is_empty());
}

#[test]
fn accumulation_keeps_non_motion_actions_in_order() {
    let mut totals = AxisTotals::new();
    totals.add(RelativeAxisCode(rel_y()), 4);
    let click = MouseAction::Key(KeyAction::new(KeyCode::new(btn_left()), KeyState::Released));
    let mut actions = vec![
        MouseAction::Rel(MouseRelAction::new(RelativeAxisCode(rel_x()), -2)),
        click,
        MouseAction::Rel(MouseRelAction::new(RelativeAxisCode(rel_y()), 1)),
    ];
    accumulate_relative(&mut totals, &mut actions);
    assert_eq!(actions, vec![click]);
    assert_eq!(
        totals.drain(),
        vec![
            MouseAction::Rel(MouseRelAction::new(RelativeAxisCode(rel_y()), 5)),
            MouseAction::Rel(MouseRelAction::new(RelativeAxisCode(rel_x()), -2)),
        ]
    );
}

fn paths(items: &[&str]) -> Vec<Vec<u8>> {
    items.iter().map(|s| s.as_bytes().to_vec()).collect()
}

#[test]
fn devices_unchanged_when_every_new_path_is_known() {
    let known = vec![Some(b"usb-0/input0".to_vec()), Some(b"usb-1/input0".to_vec())];
    assert_eq!(devices_changed(&paths(&["usb-1/input0", "usb-0/input0"]), &known), Ok(false));
}

#[test]
fn devices_changed_when_a_new_path_is_unknown() {
    let known = vec![Some(b"usb-0/input0".to_vec())];
    assert_eq!(devices_changed(&paths(&["usb-0/input0", "usb-2/input0"]), &known), Ok(true));
}

#[test]
fn devices_unchanged_without_any_device() {
    assert_eq!(devices_changed(&Vec::new(), &Vec::new()), Ok(false));
}

#[test]
fn devices_changed_when_every_device_is_gone() {
    assert_eq!(devices_changed(&Vec::new(), &vec![Some(b"usb-0/input0".to_vec())]), Ok(true));
    assert_eq!(devices_changed(&Vec::new(), &vec![None]), Ok(true));
}

#[test]
fn devices_changed_when_a_known_device_is_removed() {
    let known = vec![Some(vec![1u8]), Some(vec![2u8])];
    assert_eq!(devices_changed(&vec![vec![1u8]], &known), Ok(true));
    assert_eq!(devices_changed(&vec![vec![2u8], vec![1u8], vec![1u8]], &known), Ok(false));
}

#[test]
fn known_device_without_physical_path_is_an_error() {
    let known = vec![Some(b"usb-0/input0".to_vec()), None];
    assert_eq!(
        devices_changed(&paths(&["usb-0/input0"]), &known),
        Err(DevErr::DeviceHasNoPhysicalPath)
    );
}

#[test]
fn device_type_from_its_name() {
    assert_eq!(
        device_type_of_name(b"pci-0000:00:14.0-usb-0:1:1.0-event-kbd"),
        Some(DevType::Kbd)
    );
    assert_eq!(
        device_type_of_name(b"pci-0000:00:14.0-usb-0:2:1.0-event-mouse"),
        Some(DevType::Mouse)
    );
    assert_eq!(device_type_of_name(b"pci-0000:00:14.0-usb-0:2:1.0-event"), None);
    assert_eq!(device_type_of_name(b"kbd"), None);
    assert_eq!(device_type_of_name(b""), None);
}

#[test]
fn duplicate_device_paths_keep_the_first_entry() {
    let input = vec![
        (b"/dev/input/event3".to_vec(), DevType::Kbd),
        (b"/dev/input/event5".to_vec(), DevType::Mouse),
        (b"/dev/input/event3".to_vec(), DevType::Mouse),
    ];
    let unique = dedup_device_paths(&input);
    assert_eq!(
        unique,
        vec![
            (b"/dev/input/event3".to_vec(), DevType::Kbd),
            (b"/dev/input/event5".to_vec(), DevType::Mouse),
        ]
    );
}

#[test]
fn accumulation_overflow_is_detected_before_it_happens() {
    let mut totals = AxisTotals::new();
    totals.add(RelativeAxisCode(rel_x()), i32::MAX - 1);
    let ok = vec![MouseAction::Rel(MouseRelAction::new(RelativeAxisCode(rel_x()), 1))];
    let too_far = vec![
        MouseAction::Rel(MouseRelAction::new(RelativeAxisCode(rel_x()), 1)),
        MouseAction::Rel(MouseRelAction::new(RelativeAxisCode(rel_y()), -5)),
        MouseAction::Rel(MouseRelAction::new(RelativeAxisCode(rel_x()), 1)),
    ];
    assert!(totals.can_accumulate(&ok));
    assert!(!totals.can_accumulate(&too_far));
    assert!(totals.can_accumulate(&Vec::new()));
    // Checking leaves the totals as they were.
    assert_eq!(
        totals.drain(),
        vec![MouseAction::Rel(MouseRelAction::new(RelativeAxisCode(rel_x()), i32::MAX - 1))]
    );
}

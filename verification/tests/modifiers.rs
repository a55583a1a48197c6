use libdae::attribute_set::KeyCodeSet;
use libdae::codes::KeyCode;
use libdae::modifiers::{
    keycodes_from_modifiers, modifier_from_keycode, modifiers_from_key_codes, LEFT_ALT, LEFT_CTRL,
    LEFT_META, LEFT_SHIFT, NONE, RIGHT_ALT, RIGHT_CTRL, RIGHT_META, RIGHT_SHIFT,
};

fn code(k: evdev::KeyCode) -> KeyCode {
    KeyCode::new(k.code())
}

#[test]
fn keycodes_of_two_modifiers_in_fixed_order() {
    let codes = keycodes_from_modifiers(RIGHT_CTRL | LEFT_SHIFT);
    assert_eq!(
        codes,
        vec![code(evdev::KeyCode::KEY_LEFTSHIFT), code(evdev::KeyCode::KEY_RIGHTCTRL)]
    );
}

#[test]
fn keycodes_of_all_modifiers() {
    let codes = keycodes_from_modifiers(0xffff);
    let expected: Vec<KeyCode> = [
        evdev::KeyCode::KEY_LEFTSHIFT,
        evdev::KeyCode::KEY_RIGHTSHIFT,
        evdev::KeyCode::KEY_LEFTCTRL,
        evdev::KeyCode::KEY_RIGHTCTRL,
        evdev::KeyCode::KEY_LEFTALT,
        evdev::KeyCode::KEY_RIGHTALT,
        evdev::KeyCode::KEY_LEFTMETA,
        evdev::KeyCode::KEY_RIGHTMETA,
    ]
    .iter()
    .map(|k| code(*k))
    .collect();
    assert_eq!(codes, expected);
}

#[test]
fn keycodes_ignore_bits_above_the_modifiers() {
    assert!(keycodes_from_modifiers(0xff00).is_empty());
    assert!(keycodes_from_modifiers(NONE).is_empty());
}

#[test]
fn modifier_of_each_modifier_key() {
    assert_eq!(modifier_from_keycode(code(evdev::KeyCode::KEY_LEFTSHIFT)), LEFT_SHIFT);
    assert_eq!(modifier_from_keycode(code(evdev::KeyCode::KEY_RIGHTSHIFT)), RIGHT_SHIFT);
    assert_eq!(modifier_from_keycode(code(evdev::KeyCode::KEY_LEFTCTRL)), LEFT_CTRL);
    assert_eq!(modifier_from_keycode(code(evdev::KeyCode::KEY_RIGHTCTRL)), RIGHT_CTRL);
    assert_eq!(modifier_from_keycode(code(evdev::KeyCode::KEY_LEFTALT)), LEFT_ALT);
    assert_eq!(modifier_from_keycode(code(evdev::KeyCode::KEY_RIGHTALT)), RIGHT_ALT);
    assert_eq!(modifier_from_keycode(code(evdev::KeyCode::KEY_LEFTMETA)), LEFT_META);
    assert_eq!(modifier_from_keycode(code(evdev::KeyCode::KEY_RIGHTMETA)), RIGHT_META);
}

#[test]
fn modifier_of_other_keys_is_none() {
    assert_eq!(modifier_from_keycode(code(evdev::KeyCode::KEY_A)), NONE);
    assert_eq!(modifier_from_keycode(code(evdev::KeyCode::KEY_PAUSE)), NONE);
    assert_eq!(modifier_from_keycode(KeyCode::new(0)), NONE);
}

#[test]
fn modifiers_from_a_key_set() {
    let mut attrs = evdev::AttributeSet::<evdev::KeyCode>::new();
    attrs.insert(evdev::KeyCode::KEY_LEFTMETA);
    attrs.insert(evdev::KeyCode::KEY_A);
    attrs.insert(evdev::KeyCode::KEY_RIGHTALT);
    let set = KeyCodeSet { set: attrs };
    assert_eq!(modifiers_from_key_codes(&set), LEFT_META | RIGHT_ALT);
}

#[test]
fn modifiers_from_an_evdev_key_state() {
    let attrs: evdev::AttributeSet<evdev::KeyCode> =
        [evdev::KeyCode::KEY_RIGHTSHIFT, evdev::KeyCode::KEY_LEFTCTRL, evdev::KeyCode::KEY_Z]
            .iter()
            .collect();
    let set = KeyCodeSet { set: attrs };
    assert_eq!(modifiers_from_key_codes(&set), RIGHT_SHIFT | LEFT_CTRL);
}

#[test]
fn modifiers_from_an_empty_set() {
    let set = KeyCodeSet { set: evdev::AttributeSet::new() };
    assert_eq!(modifiers_from_key_codes(&set), NONE);
}

#[test]
fn modifiers_roundtrip_through_a_key_set() {
    for m in [0u16, 0x01, 0x5a, 0xff, 0x1234, 0xffff, 0x8001] {
        let mut attrs = evdev::AttributeSet::<evdev::KeyCode>::new();
        for k in keycodes_from_modifiers(m) {
            attrs.insert(evdev::KeyCode::new(k.code()));
        }
        assert_eq!(modifiers_from_key_codes(&KeyCodeSet { set: attrs }), m & 0xff);
    }
}

#[test]
fn pressing_listed_keys_produces_the_modifiers() {
    for m in [0u16, 0x03, 0xa5, 0xff00, 0xffff] {
        let mut held: u16 = 0x10;
        for k in keycodes_from_modifiers(m) {
            held |= modifier_from_keycode(k);
        }
        assert_eq!(held, 0x10 | (m & 0xff));
        for k in keycodes_from_modifiers(m) {
            held &= !modifier_from_keycode(k);
        }
        assert_eq!(held, 0x10 & !(m & 0xff));
    }
}

#[test]
fn modifiers_of_any_key_set_are_the_union_of_its_keys_flags() {
    let keys = [
        evdev::KeyCode::KEY_RIGHTCTRL,
        evdev::KeyCode::KEY_Q,
        evdev::KeyCode::KEY_LEFTALT,
        evdev::KeyCode::KEY_RIGHTCTRL,
        evdev::KeyCode::BTN_LEFT,
    ];
    let attrs: evdev::AttributeSet<evdev::KeyCode> = keys.iter().collect();
    let union = keys.iter().fold(NONE, |acc, k| acc | modifier_from_keycode(code(*k)));
    assert_eq!(modifiers_from_key_codes(&KeyCodeSet { set: attrs }), union);
    assert_eq!(union, RIGHT_CTRL | LEFT_ALT);
}

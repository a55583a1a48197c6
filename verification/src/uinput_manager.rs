//! What the virtual devices emit: the events that each request to the uinput
//! loop turns into, and the modifiers that the loop tracks.
use vstd::prelude::*;
use crate::codes::{
    DeviceEvent, KeyCode, abs_x, abs_y, event_type_absolute, event_type_key, event_type_relative,
};
use crate::input::{KeyAction, KeyState, MouseAction, spec_key_state_value};
use crate::display_monitor::ScreenSpace;
use crate::input_manager::flag_of_key;
use crate::message::{AppliedModifiers, MsgToUInput};
use crate::modifiers::{
    Modifiers, NONE, key_events, keycodes_from_modifiers, lemma_track_all_concat,
    lemma_track_all_push, lemma_track_listed_keys, modifier_from_keycode, spec_keycodes_from_modifiers,
    spec_modifier_from_keycode, spec_track_all, spec_track_modifiers, low_mask, modifier_key,
};

verus! {

/// The virtual devices that the privileged process drives.
#[derive(Debug, PartialEq, Eq, Structural, Clone, Copy)]
pub enum VirtualDevice {
    /// The virtual keyboard.
    Keyboard,
    /// The virtual mouse with buttons and relative axes.
    RelativeMouse,
    /// The virtual tablet with absolute axes.
    AbsoluteMouse,
}

/// A batch of events to emit at once on one virtual device.
#[derive(Debug)]
pub struct Emission {
    pub device: VirtualDevice,
    pub events: Vec<DeviceEvent>,
}

impl View for Emission {
    type V = (VirtualDevice, Seq<DeviceEvent>);

    open spec fn view(&self) -> (VirtualDevice, Seq<DeviceEvent>) {
        (self.device, self.events@)
    }
}

/// The emissions as values.
pub open spec fn emissions_view(out: Seq<Emission>) -> Seq<(VirtualDevice, Seq<DeviceEvent>)> {
    out.map_values(|e: Emission| e@)
}

/// A key event with the given code and value.
pub open spec fn key_event(code: u16, value: i32) -> DeviceEvent {
    DeviceEvent { event_type: 0x01, code, value }
}

/// One key event per key of `keys`, all with `value`.
pub open spec fn key_value_events(keys: Seq<KeyCode>, value: i32) -> Seq<DeviceEvent> {
    keys.map_values(|k: KeyCode| key_event(k.0, value))
}

/// The code and value of each event, as the modifier tracking reads them.
pub open spec fn event_pairs(events: Seq<DeviceEvent>) -> Seq<(u16, i32)> {
    events.map_values(|e: DeviceEvent| (e.code, e.value))
}

/// Modifier keys that a tap presses for its duration.
pub open spec fn modifiers_to_add(cur: Modifiers, req: AppliedModifiers) -> Seq<KeyCode> {
    match req {
        AppliedModifiers::Current => Seq::empty(),
        AppliedModifiers::Exact(r) => spec_keycodes_from_modifiers(!cur & r, 8),
    }
}

/// Modifier keys that a tap releases for its duration.
pub open spec fn modifiers_to_remove(cur: Modifiers, req: AppliedModifiers) -> Seq<KeyCode> {
    match req {
        AppliedModifiers::Current => Seq::empty(),
        AppliedModifiers::Exact(r) => spec_keycodes_from_modifiers(cur & !r, 8),
    }
}

/// The first half of a tap: adjust the modifiers, then press the key.
pub open spec fn tap_press_half(key: KeyCode, cur: Modifiers, req: AppliedModifiers) -> Seq<
    DeviceEvent,
> {
    key_value_events(modifiers_to_add(cur, req), 1) + key_value_events(
        modifiers_to_remove(cur, req),
        0,
    ) + seq![key_event(key.0, 1)]
}

/// The second half of a tap: release the key, then undo the modifier changes.
pub open spec fn tap_release_half(key: KeyCode, cur: Modifiers, req: AppliedModifiers) -> Seq<
    DeviceEvent,
> {
    seq![key_event(key.0, 0)] + key_value_events(modifiers_to_add(cur, req), 0) + key_value_events(
        modifiers_to_remove(cur, req),
        1,
    )
}

/// The batches of a tap: both halves at once, or each half on its own.
pub open spec fn spec_full_motion(
    key: KeyCode,
    cur: Modifiers,
    req: AppliedModifiers,
    send_separate: bool,
) -> Seq<Seq<DeviceEvent>> {
    if send_separate {
        seq![tap_press_half(key, cur, req), tap_release_half(key, cur, req)]
    } else {
        seq![tap_press_half(key, cur, req) + tap_release_half(key, cur, req)]
    }
}

/// The key event that a key action becomes.
pub open spec fn key_action_event(a: KeyAction) -> DeviceEvent {
    key_event(a.key.0, spec_key_state_value(a.state))
}

/// The events of a key action list, in order.
pub open spec fn key_action_events(actions: Seq<KeyAction>) -> Seq<DeviceEvent> {
    actions.map_values(|a: KeyAction| key_action_event(a))
}

/// The two events that open an absolute motion batch, so that the kernel
/// accepts a move to the position the cursor already has.
pub open spec fn abs_priming() -> Seq<DeviceEvent> {
    seq![
        DeviceEvent { event_type: 0x03, code: 0x00, value: -1i32 },
        DeviceEvent { event_type: 0x03, code: 0x01, value: -1i32 },
    ]
}

/// The relative-mouse events and the absolute-mouse events of a mouse action list.
pub open spec fn spec_mouse_events(actions: Seq<MouseAction>) -> (Seq<DeviceEvent>, Seq<DeviceEvent>)
    decreases actions.len(),
{
    if actions.len() == 0 {
        (Seq::empty(), Seq::empty())
    } else {
        let (rel, abs) = spec_mouse_events(actions.drop_last());
        match actions.last() {
            MouseAction::Abs(a) => (
                rel,
                (if abs.len() == 0 {
                    abs_priming()
                } else {
                    abs
                }).push(DeviceEvent { event_type: 0x03, code: a.axis.0, value: a.pos }),
            ),
            MouseAction::Rel(r) => (
                rel.push(DeviceEvent { event_type: 0x02, code: r.axis.0, value: r.value }),
                abs,
            ),
            MouseAction::Key(k) => (rel.push(key_action_event(k)), abs),
        }
    }
}

/// What the uinput loop emits for a request, and the modifiers it tracks after it.
pub open spec fn spec_uinput_step(cur: Modifiers, msg: MsgToUInput) -> (
    Seq<(VirtualDevice, Seq<DeviceEvent>)>,
    Modifiers,
) {
    match msg {
        MsgToUInput::SendKeyActions(actions) => {
            let events = key_action_events(actions@);
            (seq![(VirtualDevice::Keyboard, events)], spec_track_all(cur, event_pairs(events)))
        },
        MsgToUInput::SendKeyTap(key, req) => (
            spec_full_motion(key, cur, req, false).map_values(
                |b: Seq<DeviceEvent>| (VirtualDevice::Keyboard, b),
            ),
            cur,
        ),
        MsgToUInput::SendMouseActions(actions) => {
            let (rel, abs) = spec_mouse_events(actions@);
            (
                (if rel.len() > 0 {
                    seq![(VirtualDevice::RelativeMouse, rel)]
                } else {
                    Seq::empty()
                }) + (if abs.len() > 0 {
                    seq![(VirtualDevice::AbsoluteMouse, abs)]
                } else {
                    Seq::empty()
                }),
                cur,
            )
        },
        MsgToUInput::SendMouseClick(key, req) => (
            spec_full_motion(key, cur, req, true).map_values(
                |b: Seq<DeviceEvent>| (VirtualDevice::RelativeMouse, b),
            ),
            cur,
        ),
    }
}

/// Appends one key event per key of `keys`, all with `value`.
fn push_key_events(events: &mut Vec<DeviceEvent>, keys: &Vec<KeyCode>, value: i32)
    ensures
        final(events)@ == old(events)@ + key_value_events(keys@, value),
{
    let type_key = event_type_key();
    let mut i: usize = 0;
    while i < keys.len()
        invariant
            i <= keys@.len(),
            type_key == 0x01,
            events@ == old(events)@ + key_value_events(keys@.subrange(0, i as int), value),
        decreases keys@.len() - i,
    {
        events.push(DeviceEvent { event_type: type_key, code: keys[i].code(), value });
        proof {
            assert(key_value_events(keys@.subrange(0, i + 1), value) =~= key_value_events(
                keys@.subrange(0, i as int),
                value,
            ).push(key_event(keys@[i as int].0, value)));
        }
        i += 1;
    }
    assert(keys@.subrange(0, keys@.len() as int) =~= keys@);
}

/// The batches of a full key motion using specified modifiers: a press and a
/// release of `key_code`, with the modifiers made exactly `req_modifiers`
/// for its duration and restored afterwards. One batch, or two when the
/// press and the release are to be emitted separately.
pub fn send_full_motion(
    key_code: KeyCode,
    device: VirtualDevice,
    cur_modifiers: Modifiers,
    req_modifiers: AppliedModifiers,
    send_separate: bool,
) -> (batches: Vec<Emission>)
    ensures
        emissions_view(batches@) == spec_full_motion(
            key_code,
            cur_modifiers,
            req_modifiers,
            send_separate,
        ).map_values(|b: Seq<DeviceEvent>| (device, b)),
{
    let type_key = event_type_key();
    let mut batches: Vec<Emission> = Vec::new();
    let mut events: Vec<DeviceEvent> = Vec::new();
    let (mod_to_add, mod_to_rm) = match req_modifiers {
        AppliedModifiers::Current => (Vec::new(), Vec::new()),
        AppliedModifiers::Exact(req) => (
            keycodes_from_modifiers(!cur_modifiers & req),
            keycodes_from_modifiers(cur_modifiers & !req),
        ),
    };
    assert(mod_to_add@ == modifiers_to_add(cur_modifiers, req_modifiers));
    assert(mod_to_rm@ == modifiers_to_remove(cur_modifiers, req_modifiers));
    push_key_events(&mut events, &mod_to_add, 1);
    push_key_events(&mut events, &mod_to_rm, 0);
    events.push(DeviceEvent { event_type: type_key, code: key_code.code(), value: 1 });
    let ghost press = events@;
    assert(press =~= tap_press_half(key_code, cur_modifiers, req_modifiers));
    if send_separate {
        batches.push(Emission { device, events });
        events = Vec::new();
    }
    let ghost start = events@;
    events.push(DeviceEvent { event_type: type_key, code: key_code.code(), value: 0 });
    push_key_events(&mut events, &mod_to_add, 0);
    push_key_events(&mut events, &mod_to_rm, 1);
    assert(events@ =~= start + tap_release_half(key_code, cur_modifiers, req_modifiers));
    batches.push(Emission { device, events });
    assert(emissions_view(batches@) =~= spec_full_motion(
        key_code,
        cur_modifiers,
        req_modifiers,
        send_separate,
    ).map_values(|b: Seq<DeviceEvent>| (device, b)));
    batches
}

/// Tracks the modifiers through key events, as the uinput loop does.
fn track_key_events(cur: &mut Modifiers, events: &Vec<DeviceEvent>)
    ensures
        *final(cur) == spec_track_all(*old(cur), event_pairs(events@)),
{
    let mut i: usize = 0;
    while i < events.len()
        invariant
            i <= events@.len(),
            *cur == spec_track_all(*old(cur), event_pairs(events@.subrange(0, i as int))),
        decreases events@.len() - i,
    {
        let state = events[i].value;
        let is_key_modi = modifier_from_keycode(KeyCode(events[i].code));
        if state == 0 {
            // On release, remove the modifier.
            *cur = *cur & !is_key_modi;
        } else if state == 1 {
            // On press, add the modifier.
            *cur = *cur | is_key_modi;
        }
        proof {
            let pre = event_pairs(events@.subrange(0, i as int));
            assert(event_pairs(events@.subrange(0, i + 1)) =~= pre.push(
                (events@[i as int].code, events@[i as int].value),
            ));
            lemma_track_all_push(*old(cur), pre, (events@[i as int].code, events@[i as int].value));
        }
        i += 1;
    }
    assert(events@.subrange(0, events@.len() as int) =~= events@);
}

/// Splits mouse actions into the events of the relative mouse and those of
/// the absolute one.
fn mouse_events(actions: &Vec<MouseAction>) -> (res: (Vec<DeviceEvent>, Vec<DeviceEvent>))
    ensures
        (res.0@, res.1@) == spec_mouse_events(actions@),
{
    let type_key = event_type_key();
    let type_mouse_rel = event_type_relative();
    let type_mouse_abs = event_type_absolute();
    let mut rel_events: Vec<DeviceEvent> = Vec::new();
    let mut abs_events: Vec<DeviceEvent> = Vec::new();
    let mut i: usize = 0;
    while i < actions.len()
        invariant
            i <= actions@.len(),
            type_key == 0x01,
            type_mouse_rel == 0x02,
            type_mouse_abs == 0x03,
            (rel_events@, abs_events@) == spec_mouse_events(actions@.subrange(0, i as int)),
        decreases actions@.len() - i,
    {
        proof {
            assert(actions@.subrange(0, i + 1).drop_last() =~= actions@.subrange(0, i as int));
        }
        match actions[i] {
            MouseAction::Abs(mouse_abs_action) => {
                // Add these in first to ensure the kernel accepts to move the cursor to the
                // same position twice.
                if abs_events.len() == 0 {
                    abs_events.push(DeviceEvent { event_type: type_mouse_abs, code: abs_x().0, value: -1 });
                    abs_events.push(DeviceEvent { event_type: type_mouse_abs, code: abs_y().0, value: -1 });
                    assert(abs_events@ =~= abs_priming());
                }
                abs_events.push(
                    DeviceEvent {
                        event_type: type_mouse_abs,
                        code: mouse_abs_action.axis.0,
                        value: mouse_abs_action.pos,
                    },
                );
            },
            MouseAction::Rel(mouse_rel_action) => {
                rel_events.push(
                    DeviceEvent {
                        event_type: type_mouse_rel,
                        code: mouse_rel_action.axis.0,
                        value: mouse_rel_action.value,
                    },
                );
            },
            MouseAction::Key(key_action) => {
                rel_events.push(
                    DeviceEvent {
                        event_type: type_key,
                        code: key_action.key.code(),
                        value: key_action.state.value(),
                    },
                );
            },
        }
        i += 1;
    }
    assert(actions@.subrange(0, actions@.len() as int) =~= actions@);
    (rel_events, abs_events)
}

/// Turns a request to the uinput loop into the batches to emit, and tracks the
/// modifiers that the virtual keyboard holds through the key actions it sends.
pub fn plan_uinput_message(cur_modifiers: &mut Modifiers, msg: &MsgToUInput) -> (out: Vec<Emission>)
    ensures
        (emissions_view(out@), *final(cur_modifiers)) == spec_uinput_step(*old(cur_modifiers), *msg),
{
    let mut out: Vec<Emission> = Vec::new();
    match msg {
        MsgToUInput::SendKeyActions(key_actions) => {
            let type_key = event_type_key();
            let mut events: Vec<DeviceEvent> = Vec::new();
            let mut i: usize = 0;
            while i < key_actions.len()
                invariant
                    i <= key_actions@.len(),
                    type_key == 0x01,
                    events@ == key_action_events(key_actions@.subrange(0, i as int)),
                decreases key_actions@.len() - i,
            {
                let key_action = key_actions[i];
                events.push(
                    DeviceEvent {
                        event_type: type_key,
                        code: key_action.key.code(),
                        value: key_action.state.value(),
                    },
                );
                proof {
                    assert(key_action_events(key_actions@.subrange(0, i + 1)) =~= key_action_events(
                        key_actions@.subrange(0, i as int),
                    ).push(key_action_event(key_actions@[i as int])));
                }
                i += 1;
            }
            assert(key_actions@.subrange(0, key_actions@.len() as int) =~= key_actions@);
            track_key_events(cur_modifiers, &events);
            out.push(Emission { device: VirtualDevice::Keyboard, events });
        },
        MsgToUInput::SendKeyTap(key_code, req_modifiers) => {
            out = send_full_motion(*key_code, VirtualDevice::Keyboard, *cur_modifiers, *req_modifiers, false);
        },
        MsgToUInput::SendMouseActions(mouse_actions) => {
            let (rel_events, abs_events) = mouse_events(mouse_actions);
            if rel_events.len() > 0 {
                out.push(Emission { device: VirtualDevice::RelativeMouse, events: rel_events });
            }
            if abs_events.len() > 0 {
                out.push(Emission { device: VirtualDevice::AbsoluteMouse, events: abs_events });
            }
        },
        MsgToUInput::SendMouseClick(key_code, req_modifiers) => {
            out = send_full_motion(*key_code, VirtualDevice::RelativeMouse, *cur_modifiers, *req_modifiers, true);
        },
    }
    assert(emissions_view(out@) =~= spec_uinput_step(*old(cur_modifiers), *msg).0);
    out
}

proof fn lemma_event_pairs_concat(a: Seq<DeviceEvent>, b: Seq<DeviceEvent>)
    ensures
        event_pairs(a + b) == event_pairs(a) + event_pairs(b),
{
    assert(event_pairs(a + b) =~= event_pairs(a) + event_pairs(b));
}

proof fn lemma_key_value_pairs(keys: Seq<KeyCode>, value: i32)
    ensures
        event_pairs(key_value_events(keys, value)) == key_events(keys, value),
{
    assert(event_pairs(key_value_events(keys, value)) =~= key_events(keys, value));
}

proof fn lemma_track_single(held: Modifiers, code: u16, value: i32)
    ensures
        spec_track_all(held, seq![(code, value)]) == spec_track_modifiers(held, code, value),
{
    lemma_track_all_push(held, Seq::empty(), (code, value));
    assert(Seq::<(u16, i32)>::empty().push((code, value)) =~= seq![(code, value)]);
}

proof fn lemma_tap_bits(c: u16, r: u16)
    by (bit_vector)
    ensures
        ((c | ((!c & r) & 0xff)) & !((c & !r) & 0xff)) | 0 == (c & 0xff00) | (r & 0xff),
        (((((c & 0xff00) | (r & 0xff)) & !0u16) & !((!c & r) & 0xff)) | ((c & !r) & 0xff)) == c,
        (c | 0) & !0u16 == c,
        c | 0 == c,
{
}

/// A tap with `Exact` modifiers holds exactly the requested modifiers on the
/// eight modifier flags when its key goes down (other bits are left as they
/// were), and once it is over the held modifiers are those from before; a tap
/// with the `Current` modifiers changes none. This holds when the tapped key
/// is no modifier itself.
pub proof fn law_tap_restores_modifiers(key: KeyCode, cur: Modifiers, req: AppliedModifiers)
    requires
        spec_modifier_from_keycode(key.0) == NONE,
    ensures
        spec_track_all(cur, event_pairs(tap_press_half(key, cur, req))) == (match req {
            AppliedModifiers::Current => cur,
            AppliedModifiers::Exact(r) => (cur & 0xff00) | (r & 0xff),
        }),
        spec_track_all(
            cur,
            event_pairs(tap_press_half(key, cur, req) + tap_release_half(key, cur, req)),
        ) == cur,
{
    let add = modifiers_to_add(cur, req);
    let rm = modifiers_to_remove(cur, req);
    let a1 = key_value_events(add, 1);
    let r0 = key_value_events(rm, 0);
    let a0 = key_value_events(add, 0);
    let r1 = key_value_events(rm, 1);
    let kd = seq![key_event(key.0, 1)];
    let ku = seq![key_event(key.0, 0)];
    lemma_key_value_pairs(add, 1);
    lemma_key_value_pairs(add, 0);
    lemma_key_value_pairs(rm, 1);
    lemma_key_value_pairs(rm, 0);
    assert(event_pairs(kd) =~= seq![(key.0, 1i32)]);
    assert(event_pairs(ku) =~= seq![(key.0, 0i32)]);
    lemma_event_pairs_concat(a1, r0);
    lemma_event_pairs_concat(a1 + r0, kd);
    lemma_event_pairs_concat(ku, a0);
    lemma_event_pairs_concat(ku + a0, r1);
    let press = a1 + r0 + kd;
    let release = ku + a0 + r1;
    lemma_event_pairs_concat(press, release);
    let m = match req {
        AppliedModifiers::Current => 0u16,
        AppliedModifiers::Exact(r) => !cur & r,
    };
    let n = match req {
        AppliedModifiers::Current => 0u16,
        AppliedModifiers::Exact(r) => cur & !r,
    };
    // The held modifiers after each part.
    let s1 = spec_track_all(cur, event_pairs(a1));
    let s2 = spec_track_all(s1, event_pairs(r0));
    let s3 = spec_track_all(s2, event_pairs(kd));
    let s4 = spec_track_all(s3, event_pairs(ku));
    let s5 = spec_track_all(s4, event_pairs(a0));
    let s6 = spec_track_all(s5, event_pairs(r1));
    lemma_track_all_concat(cur, event_pairs(a1), event_pairs(r0));
    lemma_track_all_concat(cur, event_pairs(a1) + event_pairs(r0), event_pairs(kd));
    lemma_track_all_concat(s3, event_pairs(ku), event_pairs(a0));
    lemma_track_all_concat(s3, event_pairs(ku) + event_pairs(a0), event_pairs(r1));
    lemma_track_all_concat(cur, event_pairs(press), event_pairs(release));
    lemma_track_single(s2, key.0, 1);
    lemma_track_single(s3, key.0, 0);
    match req {
        AppliedModifiers::Current => {
            assert(add =~= Seq::<KeyCode>::empty());
            assert(rm =~= Seq::<KeyCode>::empty());
            assert(key_events(add, 1) =~= Seq::empty());
            assert(key_events(add, 0) =~= Seq::empty());
            assert(key_events(rm, 1) =~= Seq::empty());
            assert(key_events(rm, 0) =~= Seq::empty());
            assert(s1 == cur);
            assert(s2 == cur);
            lemma_tap_bits(cur, 0);
        },
        AppliedModifiers::Exact(r) => {
            lemma_track_listed_keys(cur, m, 8);
            lemma_track_listed_keys(s1, n, 8);
            lemma_track_listed_keys(s4, m, 8);
            lemma_track_listed_keys(s5, n, 8);
            lemma_tap_bits(cur, r);
        },
    }
}

/// The event that a relative or button mouse action becomes: relative
/// motion along its axis by its value, or the button with the value of its
/// state (0 released, 1 pressed, 2 repeated).
pub open spec fn mouse_action_event(a: MouseAction) -> DeviceEvent {
    match a {
        MouseAction::Rel(r) => DeviceEvent { event_type: 0x02, code: r.axis.0, value: r.value },
        MouseAction::Key(k) => DeviceEvent {
            event_type: 0x01,
            code: k.key.0,
            value: match k.state {
                KeyState::Released => 0i32,
                KeyState::Pressed => 1i32,
                KeyState::Repeated => 2i32,
            },
        },
        MouseAction::Abs(m) => DeviceEvent { event_type: 0x03, code: m.axis.0, value: m.pos },
    }
}

proof fn lemma_mouse_events_filtered(actions: Seq<MouseAction>)
    ensures
        spec_mouse_events(actions).0 == actions.filter(|a: MouseAction| !(a is Abs)).map_values(
            |a: MouseAction| mouse_action_event(a),
        ),
        actions.filter(|a: MouseAction| a is Abs).len() == 0 ==> spec_mouse_events(actions).1
            == Seq::<DeviceEvent>::empty(),
        actions.filter(|a: MouseAction| a is Abs).len() > 0 ==> spec_mouse_events(actions).1 == seq![
            DeviceEvent { event_type: 0x03, code: 0x00, value: -1i32 },
            DeviceEvent { event_type: 0x03, code: 0x01, value: -1i32 },
        ] + actions.filter(|a: MouseAction| a is Abs).map_values(|a: MouseAction| mouse_action_event(a)),
    decreases actions.len(),
{
    reveal_with_fuel(Seq::filter, 1);
    if actions.len() > 0 {
        let init = actions.drop_last();
        let last = actions.last();
        lemma_mouse_events_filtered(init);
        let f = |a: MouseAction| mouse_action_event(a);
        let nonabs = init.filter(|a: MouseAction| !(a is Abs));
        let abs = init.filter(|a: MouseAction| a is Abs);
        assert(nonabs.push(last).map_values(f) =~= nonabs.map_values(f).push(f(last)));
        assert(abs.push(last).map_values(f) =~= abs.map_values(f).push(f(last)));
        if abs.len() == 0 {
            assert(abs.map_values(f) =~= Seq::<DeviceEvent>::empty());
        }
        let prime = seq![
            DeviceEvent { event_type: 0x03, code: 0x00, value: -1i32 },
            DeviceEvent { event_type: 0x03, code: 0x01, value: -1i32 },
        ];
        assert(abs_priming() =~= prime);
        assert((prime + abs.map_values(f)).push(f(last)) =~= prime + abs.map_values(f).push(f(last)));
        assert(prime.push(f(last)) =~= prime + Seq::<DeviceEvent>::empty().push(f(last)));
    }
}

/// A mouse actions request emits, on the virtual mouse, one event per
/// relative or button action, in order, each button with its own state; and
/// on the virtual tablet, when there is an absolute action, the two priming
/// events and then one event per absolute action, in order. The held
/// modifiers do not change.
pub proof fn law_mouse_actions_emit_each_action(cur: Modifiers, msg: MsgToUInput)
    requires
        msg is SendMouseActions,
    ensures
        ({
            let actions = msg->SendMouseActions_0@;
            let rel = actions.filter(|a: MouseAction| !(a is Abs)).map_values(
                |a: MouseAction| mouse_action_event(a),
            );
            let absf = actions.filter(|a: MouseAction| a is Abs);
            let abs = seq![
                DeviceEvent { event_type: 0x03, code: 0x00, value: -1i32 },
                DeviceEvent { event_type: 0x03, code: 0x01, value: -1i32 },
            ] + absf.map_values(|a: MouseAction| mouse_action_event(a));
            &&& spec_uinput_step(cur, msg).1 == cur
            &&& spec_uinput_step(cur, msg).0 == (if rel.len() > 0 {
                seq![(VirtualDevice::RelativeMouse, rel)]
            } else {
                Seq::empty()
            }) + (if absf.len() > 0 {
                seq![(VirtualDevice::AbsoluteMouse, abs)]
            } else {
                Seq::empty()
            })
        }),
{
    let actions = msg->SendMouseActions_0@;
    lemma_mouse_events_filtered(actions);
}

/// A key actions request emits, on the virtual keyboard and in one batch,
/// one key event per action, in order, each with the value of its own state
/// (0 released, 1 pressed, 2 repeated); a single action presses or releases
/// its key's modifier flag in the held modifiers, and a repeat keeps them.
pub proof fn law_key_actions_emit_each_action(cur: Modifiers, msg: MsgToUInput)
    requires
        msg is SendKeyActions,
    ensures
        ({
            let actions = msg->SendKeyActions_0@;
            let events = actions.map_values(
                |a: KeyAction| mouse_action_event(MouseAction::Key(a)),
            );
            &&& spec_uinput_step(cur, msg).0 == seq![(VirtualDevice::Keyboard, events)]
            &&& forall|i: int| 0 <= i < events.len() ==> #[trigger] events[i] == DeviceEvent {
                event_type: 0x01,
                code: actions[i].key.0,
                value: match actions[i].state {
                    KeyState::Released => 0i32,
                    KeyState::Pressed => 1i32,
                    KeyState::Repeated => 2i32,
                },
            }
            &&& actions.len() == 1 ==> spec_uinput_step(cur, msg).1 == (match actions[0].state {
                KeyState::Released => cur & !flag_of_key(actions[0].key.0),
                KeyState::Pressed => cur | flag_of_key(actions[0].key.0),
                KeyState::Repeated => cur,
            })
        }),
{
    let actions = msg->SendKeyActions_0@;
    let events = key_action_events(actions);
    assert(events =~= actions.map_values(|a: KeyAction| mouse_action_event(MouseAction::Key(a))));
    if actions.len() == 1 {
        let pairs = event_pairs(events);
        assert(pairs.drop_last() =~= Seq::<(u16, i32)>::empty());
        assert(pairs.last() == (actions[0].key.0, spec_key_state_value(actions[0].state)));
        assert(pairs =~= Seq::<(u16, i32)>::empty().push(pairs.last()));
        lemma_track_all_push(cur, Seq::empty(), pairs.last());
        assert(spec_track_all(cur, Seq::<(u16, i32)>::empty()) == cur);
        assert(spec_modifier_from_keycode(actions[0].key.0) == flag_of_key(actions[0].key.0));
    }
    assert(spec_uinput_step(cur, msg).0 == seq![(VirtualDevice::Keyboard, events)]);
}

proof fn lemma_listed_keys_are_modifier_keys(m: Modifiers, n: int)
    requires
        0 <= n <= 8,
    ensures
        forall|j: int|
            0 <= j < spec_keycodes_from_modifiers(m, n).len() ==> flag_of_key(
                #[trigger] spec_keycodes_from_modifiers(m, n)[j].0,
            ) != 0,
    decreases n,
{
    if n > 0 {
        lemma_listed_keys_are_modifier_keys(m, n - 1);
        let prev = spec_keycodes_from_modifiers(m, n - 1);
        let k = KeyCode(modifier_key(n - 1));
        assert(flag_of_key(k.0) != 0);
        assert forall|j: int| 0 <= j < prev.push(k).len() implies flag_of_key(
            #[trigger] prev.push(k)[j].0,
        ) != 0 by {
            if j < prev.len() {
                assert(prev.push(k)[j] == prev[j]);
            }
        }
    }
}

/// The events of the batches, one batch after the other.
pub open spec fn batch_events(batches: Seq<(VirtualDevice, Seq<DeviceEvent>)>) -> Seq<DeviceEvent>
    decreases batches.len(),
{
    if batches.len() == 0 {
        Seq::empty()
    } else {
        batch_events(batches.drop_last()) + batches.last().1
    }
}

/// The modifiers held while a tapped key is down: unchanged for `Current`;
/// for `Exact(r)`, the flags of `r` on the eight modifier bits, other bits as
/// they were.
pub open spec fn requested_modifiers(cur: Modifiers, req: AppliedModifiers) -> Modifiers {
    match req {
        AppliedModifiers::Current => cur,
        AppliedModifiers::Exact(r) => (cur & 0xff00) | (r & 0xff),
    }
}

/// In `all`, the key is pressed at `p` and released right after, no other
/// event is of the key, every event is a key event, the held modifiers are
/// `requested` once the key is down and `cur` again at the end.
pub open spec fn key_tapped_at(
    all: Seq<DeviceEvent>,
    key: KeyCode,
    p: int,
    cur: Modifiers,
    requested: Modifiers,
) -> bool {
    &&& 0 <= p && p + 1 < all.len()
    &&& all[p] == DeviceEvent { event_type: 0x01, code: key.0, value: 1i32 }
    &&& all[p + 1] == DeviceEvent { event_type: 0x01, code: key.0, value: 0i32 }
    &&& forall|j: int|
        0 <= j < all.len() && j != p && j != p + 1 ==> (#[trigger] all[j]).code != key.0
            && all[j].event_type == 0x01
    &&& spec_track_all(cur, event_pairs(all.subrange(0, p + 1))) == requested
    &&& spec_track_all(cur, event_pairs(all)) == cur
}

proof fn lemma_tap_key_events(cur: Modifiers, key: KeyCode, req: AppliedModifiers) -> (p: int)
    requires
        flag_of_key(key.0) == 0,
    ensures
        ({
            let all = tap_press_half(key, cur, req) + tap_release_half(key, cur, req);
            key_tapped_at(all, key, p, cur, requested_modifiers(cur, req))
        }),
{
    let ph = tap_press_half(key, cur, req);
    let rh = tap_release_half(key, cur, req);
    let all = ph + rh;
    let add = modifiers_to_add(cur, req);
    let rm = modifiers_to_remove(cur, req);
    let a1 = key_value_events(add, 1);
    let r0 = key_value_events(rm, 0);
    let a0 = key_value_events(add, 0);
    let r1 = key_value_events(rm, 1);
    let press = DeviceEvent { event_type: 0x01, code: key.0, value: 1i32 };
    let release = DeviceEvent { event_type: 0x01, code: key.0, value: 0i32 };
    assert(ph == a1 + r0 + seq![press]);
    assert(rh == seq![release] + a0 + r1);
    let p = (a1.len() + r0.len()) as int;
    match req {
        AppliedModifiers::Current => {},
        AppliedModifiers::Exact(r) => {
            lemma_listed_keys_are_modifier_keys(!cur & r, 8);
            lemma_listed_keys_are_modifier_keys(cur & !r, 8);
        },
    }
    assert(all[p] == press);
    assert(all[p + 1] == release);
    assert forall|j: int| 0 <= j < all.len() && j != p && j != p + 1 implies (#[trigger] all[j]).code
        != key.0 && all[j].event_type == 0x01 by {
        if j < a1.len() {
            assert(all[j] == a1[j]);
            assert(flag_of_key(add[j].0) != 0);
        } else if j < p {
            assert(all[j] == r0[j - a1.len()]);
            assert(flag_of_key(rm[j - a1.len()].0) != 0);
        } else if j < p + 2 + a0.len() {
            assert(all[j] == a0[j - p - 2]);
            assert(flag_of_key(add[j - p - 2].0) != 0);
        } else {
            assert(all[j] == r1[j - p - 2 - a0.len()]);
            assert(flag_of_key(rm[j - p - 2 - a0.len()].0) != 0);
        }
    }
    assert(all.subrange(0, p + 1) =~= ph);
    assert(spec_modifier_from_keycode(key.0) == NONE);
    law_tap_restores_modifiers(key, cur, req);
    p
}

/// What a tap of `key` emits, as `out` (the batches and the held modifiers
/// after them): the held modifiers are unchanged; the batches, one or (when
/// `separate`) two, are all on `device`; the first of two ends with the key's
/// press and the second starts with its release; and for a key that is no
/// modifier, in the events of all batches in order, the key is pressed once
/// and released right after, every other event is a key event of another
/// key, the requested modifiers are held at the press and the modifiers from
/// before are held at the end.
pub open spec fn tap_emits(
    cur: Modifiers,
    key: KeyCode,
    req: AppliedModifiers,
    out: (Seq<(VirtualDevice, Seq<DeviceEvent>)>, Modifiers),
    device: VirtualDevice,
    separate: bool,
) -> bool {
    let batches = out.0;
    &&& out.1 == cur
    &&& batches.len() == (if separate { 2int } else { 1int })
    &&& forall|i: int| 0 <= i < batches.len() ==> (#[trigger] batches[i]).0 == device
    &&& separate ==> batches[0].1.last() == DeviceEvent { event_type: 0x01, code: key.0, value: 1i32 }
        && batches[1].1[0] == DeviceEvent { event_type: 0x01, code: key.0, value: 0i32 }
    &&& flag_of_key(key.0) == 0 ==> exists|p: int|
        #[trigger] key_tapped_at(batch_events(batches), key, p, cur, requested_modifiers(cur, req))
}

proof fn lemma_tap_emits(cur: Modifiers, key: KeyCode, req: AppliedModifiers, separate: bool)
    ensures
        separate ==> tap_emits(
            cur,
            key,
            req,
            spec_uinput_step(cur, MsgToUInput::SendMouseClick(key, req)),
            VirtualDevice::RelativeMouse,
            true,
        ),
        !separate ==> tap_emits(
            cur,
            key,
            req,
            spec_uinput_step(cur, MsgToUInput::SendKeyTap(key, req)),
            VirtualDevice::Keyboard,
            false,
        ),
{
    let ph = tap_press_half(key, cur, req);
    let rh = tap_release_half(key, cur, req);
    assert(ph.last() == DeviceEvent { event_type: 0x01, code: key.0, value: 1i32 });
    assert(rh[0] == DeviceEvent { event_type: 0x01, code: key.0, value: 0i32 });
    reveal_with_fuel(batch_events, 3);
    let batches = if separate {
        spec_uinput_step(cur, MsgToUInput::SendMouseClick(key, req)).0
    } else {
        spec_uinput_step(cur, MsgToUInput::SendKeyTap(key, req)).0
    };
    let all = batch_events(batches);
    if separate {
        assert(batches[0].1 == ph && batches[1].1 == rh);
        assert(batches.drop_last().drop_last() =~= Seq::<(VirtualDevice, Seq<DeviceEvent>)>::empty());
        assert(all =~= Seq::<DeviceEvent>::empty() + ph + rh);
    } else {
        assert(batches[0].1 == ph + rh);
        assert(batches.drop_last() =~= Seq::<(VirtualDevice, Seq<DeviceEvent>)>::empty());
        assert(all =~= Seq::<DeviceEvent>::empty() + (ph + rh));
    }
    assert(all =~= ph + rh);
    if flag_of_key(key.0) == 0 {
        let p = lemma_tap_key_events(cur, key, req);
        assert(key_tapped_at(all, key, p, cur, requested_modifiers(cur, req)));
    }
}

/// A key tap request emits on the virtual keyboard in one batch, and a mouse
/// click request on the virtual mouse in two batches (the press, then the
/// release), what `tap_emits` describes: for a key that is no modifier, one
/// press of the key directly followed by its release, the requested
/// modifiers held at the press and restored at the end.
pub proof fn law_tap_presses_then_releases(cur: Modifiers, key: KeyCode, req: AppliedModifiers)
    ensures
        tap_emits(
            cur,
            key,
            req,
            spec_uinput_step(cur, MsgToUInput::SendKeyTap(key, req)),
            VirtualDevice::Keyboard,
            false,
        ),
        tap_emits(
            cur,
            key,
            req,
            spec_uinput_step(cur, MsgToUInput::SendMouseClick(key, req)),
            VirtualDevice::RelativeMouse,
            true,
        ),
{
    lemma_tap_emits(cur, key, req, false);
    lemma_tap_emits(cur, key, req, true);
}

/// The key codes from `start` up to, not including, `end`.
pub open spec fn code_range(start: int, end: int) -> Seq<KeyCode> {
    Seq::new((end - start) as nat, |i: int| KeyCode((start + i) as u16))
}

/// Appends the key codes from `start` up to, not including, `end`.
fn push_code_range(keys: &mut Vec<KeyCode>, start: u16, end: u16)
    requires
        start <= end,
    ensures
        final(keys)@ == old(keys)@ + code_range(start as int, end as int),
{
    let mut c = start;
    while c < end
        invariant
            start <= c <= end,
            keys@ == old(keys)@ + code_range(start as int, c as int),
        decreases end - c,
    {
        keys.push(KeyCode(c));
        proof {
            assert(code_range(start as int, c + 1) =~= code_range(start as int, c as int).push(KeyCode(c)));
        }
        c += 1;
    }
}

/// The keys of the virtual keyboard: the scancodes 0 to 248, 0x160 to 0x21e
/// and 0x230 to 0x27a.
pub fn virtual_keyboard_keys() -> (keys: Vec<KeyCode>)
    ensures
        keys@ == code_range(0, 249) + code_range(0x160, 0x21f) + code_range(0x230, 0x27b),
{
    let mut keys: Vec<KeyCode> = Vec::new();
    push_code_range(&mut keys, 0, 249);
    push_code_range(&mut keys, 0x160, 0x21f);
    push_code_range(&mut keys, 0x230, 0x27b);
    assert(keys@ =~= code_range(0, 249) + code_range(0x160, 0x21f) + code_range(0x230, 0x27b));
    keys
}

/// The buttons of the virtual relative mouse: the scancodes 0x100 to 0x151.
pub fn virtual_mouse_keys() -> (keys: Vec<KeyCode>)
    ensures
        keys@ == code_range(0x100, 0x152),
{
    let mut keys: Vec<KeyCode> = Vec::new();
    push_code_range(&mut keys, 0x100, 0x152);
    assert(keys@ =~= code_range(0x100, 0x152));
    keys
}

/// The bounds of the virtual tablet's axes over a screen layout: x from the
/// layout's least x to one before its greatest, and y likewise.
pub fn abs_axis_limits(screen_space: &ScreenSpace) -> (limits: ((i32, i32), (i32, i32)))
    requires
        screen_space@.0.1.0 > i32::MIN,
        screen_space@.0.1.1 > i32::MIN,
    ensures
        limits.0.0 == screen_space@.0.0.0,
        limits.0.1 == screen_space@.0.1.0 - 1,
        limits.1.0 == screen_space@.0.0.1,
        limits.1.1 == screen_space@.0.1.1 - 1,
{
    let range = screen_space.range();
    ((range.0[0], range.1[0] - 1), (range.0[1], range.1[1] - 1))
}

} // verus!

//! The decisions of the input loop: what each device event becomes, which keys
//! go to the core and which to the virtual devices, and when the emulated mouse
//! poll fires.
use vstd::prelude::*;
use crate::axis_totals::{AxisTotals, accumulate_relative, accumulation_fits, spec_accumulate};
use crate::codes::{
    DeviceEvent, KeyCode, RelativeAxisCode, event_type_key, event_type_relative,
    event_type_synchronization,
};
use crate::input::{
    KeyAction, KeyState, Keybind, MouseAction, MouseRelAction, spec_key_state_from_value,
};
use crate::duration::{duration_as_micros, duration_is_zero, duration_nanos};
use crate::keybind_set::KeybindSet;
use std::time::Duration;
use crate::modifiers::{Modifiers, modifier_from_keycode, spec_track_modifiers};
use crate::axis_totals::{
    spec_add_motion, total_of, axes_distinct, motion_fits, has_axis, sum_motion,
    law_accumulation_keeps_motion,
};

verus! {

/// The kind of an input device.
#[derive(Debug, PartialEq, Eq, Structural, Clone, Copy)]
pub enum DevType {
    Kbd,
    Mouse,
}

/// What the keyboard handling asks to be done.
#[derive(Debug)]
pub enum KbdOutput {
    /// Send these key actions to the virtual keyboard.
    SendKeyActions(Vec<KeyAction>),
    /// Report this bound key to the core.
    SendToCore(Keybind),
}

/// [`KbdOutput`] as a value.
pub enum KbdOutputView {
    SendKeyActions(Seq<KeyAction>),
    SendToCore(Keybind),
}

impl View for KbdOutput {
    type V = KbdOutputView;

    open spec fn view(&self) -> KbdOutputView {
        match self {
            KbdOutput::SendKeyActions(v) => KbdOutputView::SendKeyActions(v@),
            KbdOutput::SendToCore(k) => KbdOutputView::SendToCore(*k),
        }
    }
}

/// What the mouse handling asks to be done.
#[derive(Debug)]
pub enum MouseOutput {
    /// Send these mouse actions to the virtual mice.
    SendMouseActions(Vec<MouseAction>),
    /// Report this bound button to the core.
    SendToCore(Keybind),
    /// Arm the poll timer to fire this many microseconds after the event's time.
    ArmTimer(u64),
}

/// [`MouseOutput`] as a value.
pub enum MouseOutputView {
    SendMouseActions(Seq<MouseAction>),
    SendToCore(Keybind),
    ArmTimer(u64),
}

impl View for MouseOutput {
    type V = MouseOutputView;

    open spec fn view(&self) -> MouseOutputView {
        match self {
            MouseOutput::SendMouseActions(v) => MouseOutputView::SendMouseActions(v@),
            MouseOutput::SendToCore(k) => MouseOutputView::SendToCore(*k),
            MouseOutput::ArmTimer(t) => MouseOutputView::ArmTimer(*t),
        }
    }
}

/// The keybind that a key event makes, given the modifiers held once it is counted.
pub open spec fn event_keybind(ev: DeviceEvent, held: Modifiers) -> Keybind {
    Keybind {
        code: KeyCode(ev.code),
        state: spec_key_state_from_value(ev.value),
        modifiers: spec_track_modifiers(held, ev.code, ev.value),
    }
}

/// One keyboard event: the pending key actions, the held modifiers, and what
/// it asks to be done.
pub open spec fn kbd_step(
    queue: Seq<KeyAction>,
    held: Modifiers,
    bindings: Set<Keybind>,
    ev: DeviceEvent,
) -> (Seq<KeyAction>, Modifiers, Seq<KbdOutputView>) {
    if ev.event_type == 0x00 {
        (Seq::empty(), held, seq![KbdOutputView::SendKeyActions(queue)])
    } else if ev.event_type != 0x01 {
        (queue, held, Seq::empty())
    } else {
        let bind = event_keybind(ev, held);
        if bindings.contains(bind) {
            (queue, bind.modifiers, seq![KbdOutputView::SendToCore(bind)])
        } else if bind.state == KeyState::Repeated {
            (queue, bind.modifiers, Seq::empty())
        } else {
            (
                queue.push(KeyAction { key: bind.code, state: bind.state }),
                bind.modifiers,
                Seq::empty(),
            )
        }
    }
}

/// Keyboard events handled in order.
pub open spec fn kbd_run(
    queue: Seq<KeyAction>,
    held: Modifiers,
    bindings: Set<Keybind>,
    events: Seq<DeviceEvent>,
) -> (Seq<KeyAction>, Modifiers, Seq<KbdOutputView>)
    decreases events.len(),
{
    if events.len() == 0 {
        (queue, held, Seq::empty())
    } else {
        let (q, h, out) = kbd_run(queue, held, bindings, events.drop_last());
        let (q2, h2, out2) = kbd_step(q, h, bindings, events.last());
        (q2, h2, out + out2)
    }
}

/// The outputs as values.
pub open spec fn kbd_outputs_view(out: Seq<KbdOutput>) -> Seq<KbdOutputView> {
    out.map_values(|o: KbdOutput| o@)
}

/// Counts a key event: updates the held modifiers and gives the keybind it makes.
fn key_event_keybind(ev: DeviceEvent, cur_modifiers: &mut Modifiers) -> (bind: Keybind)
    requires
        ev.event_type == 0x01,
    ensures
        bind == event_keybind(ev, *old(cur_modifiers)),
        *final(cur_modifiers) == bind.modifiers,
{
    let event_val = ev.value;
    let code = KeyCode::new(ev.code);
    let is_key_modi = modifier_from_keycode(code);
    let event_state = if event_val == 0 {
        // On release, remove the modifier.
        *cur_modifiers = *cur_modifiers & !is_key_modi;
        KeyState::Released
    } else if event_val == 1 {
        // On press, add the modifier.
        *cur_modifiers = *cur_modifiers | is_key_modi;
        KeyState::Pressed
    } else {
        KeyState::Repeated
    };
    Keybind::new(code, event_state, *cur_modifiers)
}

/// Handles a batch of keyboard events: key events update the held modifiers;
/// a bound key goes to the core; other presses and releases wait for the
/// batch's synchronization event, which sends them to the virtual keyboard.
/// Repeats of unbound keys are dropped (the compositor repeats keys itself).
pub fn handle_kbd_events(
    events: &Vec<DeviceEvent>,
    key_actions: &mut Vec<KeyAction>,
    cur_modifiers: &mut Modifiers,
    bindings: &KeybindSet,
) -> (out: Vec<KbdOutput>)
    ensures
        (final(key_actions)@, *final(cur_modifiers), kbd_outputs_view(out@)) == kbd_run(
            old(key_actions)@,
            *old(cur_modifiers),
            bindings@,
            events@,
        ),
{
    let sync = event_type_synchronization();
    let type_key = event_type_key();
    let mut out: Vec<KbdOutput> = Vec::new();
    let mut i: usize = 0;
    while i < events.len()
        invariant
            i <= events@.len(),
            sync == 0x00,
            type_key == 0x01,
            (key_actions@, *cur_modifiers, kbd_outputs_view(out@)) == kbd_run(
                old(key_actions)@,
                *old(cur_modifiers),
                bindings@,
                events@.subrange(0, i as int),
            ),
        decreases events@.len() - i,
    {
        let event = events[i];
        let ghost out_before = kbd_outputs_view(out@);
        proof {
            assert(events@.subrange(0, i + 1).drop_last() =~= events@.subrange(0, i as int));
        }
        if event.event_type == sync {
            out.push(KbdOutput::SendKeyActions(key_actions.clone()));
            key_actions.clear();
        } else if event.event_type == type_key {
            let bind = key_event_keybind(event, cur_modifiers);
            if bindings.contains(&bind) {
                out.push(KbdOutput::SendToCore(bind));
            } else if bind.state != KeyState::Repeated {
                // libinput ignores keyrepeats, so this app does too.
                key_actions.push(KeyAction::new(bind.code, bind.state));
            }
        }
        proof {
            let (_q, _h, o2) = kbd_step(
                kbd_run(old(key_actions)@, *old(cur_modifiers), bindings@, events@.subrange(0, i as int)).0,
                kbd_run(old(key_actions)@, *old(cur_modifiers), bindings@, events@.subrange(0, i as int)).1,
                bindings@,
                event,
            );
            assert(kbd_outputs_view(out@) =~= out_before + o2);
        }
        i += 1;
    }
    assert(events@.subrange(0, events@.len() as int) =~= events@);
    out
}

/// Microseconds from an event at `since` (microseconds since the epoch) until
/// the next multiple of the poll interval.
pub open spec fn spec_micros_until_next_poll(interval: u128, since: u128) -> u64 {
    (interval - since % interval) as u64
}

/// Time until the emulated mouse polls again.
pub fn micros_until_next_poll(interval_micros: u128, since_epoch_micros: u128) -> (until: u64)
    requires
        interval_micros > 0,
    ensures
        until == spec_micros_until_next_poll(interval_micros, since_epoch_micros),
{
    (interval_micros - since_epoch_micros % interval_micros) as u64
}

/// The next emulated poll comes after the event and at most one interval later,
/// and falls on a multiple of the interval.
pub proof fn law_next_poll_on_interval(interval: u128, since: u128)
    requires
        0 < interval <= u64::MAX,
    ensures
        0 < spec_micros_until_next_poll(interval, since) <= interval,
        (since + spec_micros_until_next_poll(interval, since)) % (interval as int) == 0,
{
    let r = since % interval;
    assert(0 <= r < interval);
    let until = (interval - r) as u64;
    assert(until as int == interval - r);
    assert((since + (interval - r)) % (interval as int) == 0) by (nonlinear_arith)
        requires
            r == since % interval,
            interval > 0,
    {
        assert(since == (since / interval) * interval + r);
        assert(since + (interval - r) == (since / interval + 1) * interval);
        vstd::arithmetic::div_mod::lemma_mod_multiples_basic((since / interval + 1) as int, interval as int);
    }
}

/// One mouse event, at `since_epoch` nanoseconds since the epoch, with a poll
/// interval of `interval` nanoseconds: the pending mouse actions, the held
/// modifiers, the accumulated relative motion, and what it asks to be done.
pub open spec fn mouse_step(
    queue: Seq<MouseAction>,
    held: Modifiers,
    totals: Seq<(RelativeAxisCode, i32)>,
    bindings: Set<Keybind>,
    ev: DeviceEvent,
    since_epoch: u128,
    interval: u128,
    timer_armed: bool,
) -> (Seq<MouseAction>, Modifiers, Seq<(RelativeAxisCode, i32)>, Seq<MouseOutputView>) {
    if ev.event_type == 0x00 {
        if interval != 0 {
            let arm = if !timer_armed {
                seq![
                    MouseOutputView::ArmTimer(
                        spec_micros_until_next_poll(interval / 1000, since_epoch / 1000),
                    ),
                ]
            } else {
                Seq::empty()
            };
            let (t, kept) = spec_accumulate(totals, queue);
            (Seq::empty(), held, t, arm.push(MouseOutputView::SendMouseActions(kept)))
        } else {
            (Seq::empty(), held, totals, seq![MouseOutputView::SendMouseActions(queue)])
        }
    } else if ev.event_type == 0x01 {
        let bind = event_keybind(ev, held);
        if bindings.contains(bind) {
            (queue, bind.modifiers, totals, seq![MouseOutputView::SendToCore(bind)])
        } else if bind.state == KeyState::Repeated {
            (queue, bind.modifiers, totals, Seq::empty())
        } else {
            (
                queue.push(MouseAction::Key(KeyAction { key: bind.code, state: bind.state })),
                bind.modifiers,
                totals,
                Seq::empty(),
            )
        }
    } else if ev.event_type == 0x02 {
        (
            queue.push(
                MouseAction::Rel(MouseRelAction { axis: RelativeAxisCode(ev.code), value: ev.value }),
            ),
            held,
            totals,
            Seq::empty(),
        )
    } else {
        (queue, held, totals, Seq::empty())
    }
}

/// The outputs as values.
pub open spec fn mouse_outputs_view(out: Seq<MouseOutput>) -> Seq<MouseOutputView> {
    out.map_values(|o: MouseOutput| o@)
}

/// Handles one mouse event. Key events are counted as for a keyboard (bound
/// buttons go to the core); relative motion waits for the synchronization
/// event. With a poll interval, the synchronization event moves the pending
/// relative motion into the per-axis totals that the poll timer sends, and arms
/// the timer for the next multiple of the interval when it is not armed; the
/// other pending actions are sent at once. `timer_armed` says whether the poll
/// timer is armed when the event is handled; `since_epoch` is the event's time
/// since the epoch. A poll interval shorter than a microsecond is refused, as
/// the time to the next poll has no meaning for it.
pub fn handle_mouse_event(
    event: DeviceEvent,
    since_epoch: Duration,
    mouse_actions: &mut Vec<MouseAction>,
    cur_modifiers: &mut Modifiers,
    bindings: &KeybindSet,
    poll_interval: Duration,
    totals: &mut AxisTotals,
    timer_armed: bool,
) -> (out: Vec<MouseOutput>)
    requires
        old(totals).wf(),
        event.event_type == 0x00 && duration_nanos(poll_interval) != 0 ==> accumulation_fits(
            old(totals).entries(),
            old(mouse_actions)@,
        ),
        event.event_type == 0x00 && duration_nanos(poll_interval) != 0 && !timer_armed
            ==> duration_nanos(poll_interval) >= 1000,
    ensures
        final(totals).wf(),
        (final(mouse_actions)@, *final(cur_modifiers), final(totals).entries(), mouse_outputs_view(out@))
            == mouse_step(
            old(mouse_actions)@,
            *old(cur_modifiers),
            old(totals).entries(),
            bindings@,
            event,
            duration_nanos(since_epoch),
            duration_nanos(poll_interval),
            timer_armed,
        ),
{
    let sync = event_type_synchronization();
    let type_key = event_type_key();
    let type_rel = event_type_relative();
    let mut out: Vec<MouseOutput> = Vec::new();
    if event.event_type == sync {
        if !duration_is_zero(poll_interval) {
            // Simulate the next poll for the mouse.
            if !timer_armed {
                let int_micros = duration_as_micros(poll_interval);
                let since_micros = duration_as_micros(since_epoch);
                out.push(MouseOutput::ArmTimer(micros_until_next_poll(int_micros, since_micros)));
            }
            // Remove relative movements from the queue and accumulate them.
            accumulate_relative(totals, mouse_actions);
        }
        let mut actions: Vec<MouseAction> = Vec::new();
        std::mem::swap(&mut actions, mouse_actions);
        out.push(MouseOutput::SendMouseActions(actions));
    } else if event.event_type == type_key {
        let bind = key_event_keybind(event, cur_modifiers);
        if bindings.contains(&bind) {
            out.push(MouseOutput::SendToCore(bind));
        } else if bind.state != KeyState::Repeated {
            mouse_actions.push(MouseAction::Key(KeyAction::new(bind.code, bind.state)));
        }
    } else if event.event_type == type_rel {
        mouse_actions.push(
            MouseAction::Rel(MouseRelAction::new(RelativeAxisCode(event.code), event.value)),
        );
    }
    let ghost expected = mouse_step(
        old(mouse_actions)@,
        *old(cur_modifiers),
        old(totals).entries(),
        bindings@,
        event,
        duration_nanos(since_epoch),
        duration_nanos(poll_interval),
        timer_armed,
    );
    assert(mouse_outputs_view(out@) =~= expected.3);
    out
}

/// Error while comparing devices.
#[derive(Debug, PartialEq, Eq, Structural, Clone, Copy)]
pub enum DevErr {
    DeviceHasNoPhysicalPath,
    DevicePathHasNoFileName,
}

/// Some known device has no physical path.
pub open spec fn some_path_unknown(known: Seq<Option<Vec<u8>>>) -> bool {
    exists|j: int| 0 <= j < known.len() && known[j] is None
}

/// Some known device has the physical path `p`.
pub open spec fn is_known_path(known: Seq<Option<Vec<u8>>>, p: Seq<u8>) -> bool {
    exists|j: int| 0 <= j < known.len() && known[j] is Some && known[j]->Some_0@ == p
}

/// Some device found now has the physical path `p`.
pub open spec fn is_new_path(new_paths: Seq<Vec<u8>>, p: Seq<u8>) -> bool {
    exists|i: int| 0 <= i < new_paths.len() && new_paths[i]@ == p
}

/// The devices found now differ from the known ones: a device found now is
/// not known (added), or a known device is not found now (removed, or with
/// no path to find it by).
pub open spec fn spec_devices_differ(new_paths: Seq<Vec<u8>>, known: Seq<Option<Vec<u8>>>) -> bool {
    ||| exists|i: int| 0 <= i < new_paths.len() && !is_known_path(known, new_paths[i]@)
    ||| exists|j: int|
        0 <= j < known.len() && !(known[j] is Some && is_new_path(new_paths, known[j]->Some_0@))
}

/// Byte-wise equality.
fn bytes_equal(a: &Vec<u8>, b: &Vec<u8>) -> (eq: bool)
    ensures
        eq == (a@ == b@),
{
    if a.len() != b.len() {
        return false;
    }
    let mut i: usize = 0;
    while i < a.len()
        invariant
            i <= a@.len(),
            a@.len() == b@.len(),
            forall|j: int| 0 <= j < i ==> a@[j] == b@[j],
        decreases a@.len() - i,
    {
        if a[i] != b[i] {
            return false;
        }
        i += 1;
    }
    assert(a@ =~= b@);
    true
}

/// Check whether the devices have changed: whether the set of trimmed
/// physical paths of the devices found now differs from that of the known
/// devices (a device was added, removed or updated). With some device found,
/// a known device without a physical path is an error.
pub fn devices_changed(new_phys_paths: &Vec<Vec<u8>>, known_phys_paths: &Vec<Option<Vec<u8>>>) -> (changed: Result<bool, DevErr>)
    ensures
        new_phys_paths@.len() > 0 && some_path_unknown(known_phys_paths@)
            ==> changed == Err::<bool, DevErr>(DevErr::DeviceHasNoPhysicalPath),
        !(new_phys_paths@.len() > 0 && some_path_unknown(known_phys_paths@))
            ==> changed == Ok::<bool, DevErr>(spec_devices_differ(new_phys_paths@, known_phys_paths@)),
{
    let ghost new_paths = new_phys_paths@;
    let ghost known = known_phys_paths@;
    // Every device found now must be known.
    let mut i: usize = 0;
    while i < new_phys_paths.len()
        invariant
            i <= new_paths.len(),
            new_paths == new_phys_paths@,
            known == known_phys_paths@,
            i > 0 ==> !some_path_unknown(known),
            forall|k: int| 0 <= k < i ==> is_known_path(known, #[trigger] new_paths[k]@),
        decreases new_paths.len() - i,
    {
        let new_path = &new_phys_paths[i];
        let mut matched = false;
        let mut j: usize = 0;
        while j < known_phys_paths.len()
            invariant
                i < new_paths.len(),
                new_paths == new_phys_paths@,
                known == known_phys_paths@,
                *new_path == new_paths[i as int],
                j <= known.len(),
                forall|k: int| 0 <= k < j ==> known[k] is Some,
                matched == exists|k: int| 0 <= k < j && known[k] is Some && known[k]->Some_0@ == new_path@,
            decreases known.len() - j,
        {
            match &known_phys_paths[j] {
                None => {
                    assert(known[j as int] is None);
                    return Err(DevErr::DeviceHasNoPhysicalPath);
                },
                Some(p) => {
                    if bytes_equal(new_path, p) {
                        matched = true;
                    }
                },
            }
            j += 1;
        }
        assert(!some_path_unknown(known)) by {
            if some_path_unknown(known) {
                let w = choose|w: int| 0 <= w < known.len() && known[w] is None;
                assert(known[w] is Some);
            }
        }
        if !matched {
            // A device was added.
            assert(!is_known_path(known, new_paths[i as int]@));
            return Ok(true);
        }
        assert(is_known_path(known, new_paths[i as int]@));
        i += 1;
    }
    // Every known device must be found now.
    let mut j: usize = 0;
    while j < known_phys_paths.len()
        invariant
            new_paths == new_phys_paths@,
            known == known_phys_paths@,
            j <= known.len(),
            new_paths.len() > 0 ==> !some_path_unknown(known),
            forall|k: int| 0 <= k < new_paths.len() ==> is_known_path(known, #[trigger] new_paths[k]@),
            forall|k: int|
                0 <= k < j ==> #[trigger] known[k] is Some && is_new_path(new_paths, known[k]->Some_0@),
        decreases known.len() - j,
    {
        match &known_phys_paths[j] {
            None => {
                // No device is found now (else the first loop failed), and this one is known.
                return Ok(true);
            },
            Some(p) => {
                let mut found = false;
                let mut k: usize = 0;
                while k < new_phys_paths.len()
                    invariant
                        new_paths == new_phys_paths@,
                        known == known_phys_paths@,
                        j < known.len(),
                        known[j as int] == Some(*p),
                        k <= new_paths.len(),
                        found == exists|m: int| 0 <= m < k && new_paths[m]@ == p@,
                    decreases new_paths.len() - k,
                {
                    if bytes_equal(&new_phys_paths[k], p) {
                        found = true;
                    }
                    k += 1;
                }
                if !found {
                    // A device was removed.
                    assert(!is_new_path(new_paths, known[j as int]->Some_0@));
                    return Ok(true);
                }
            },
        }
        j += 1;
    }
    assert(!spec_devices_differ(new_paths, known));
    Ok(false)
}

/// `needle` occurs in `hay` at position `i`.
pub open spec fn occurs_at(hay: Seq<u8>, needle: Seq<u8>, i: int) -> bool {
    hay.subrange(i, i + needle.len()) == needle
}

/// `needle` occurs in `hay`.
pub open spec fn contains_bytes(hay: Seq<u8>, needle: Seq<u8>) -> bool {
    exists|i: int| 0 <= i <= hay.len() - needle.len() && #[trigger] occurs_at(hay, needle, i)
}

/// The tag of keyboard devices in `/dev/input/by-path/`: `event-kbd`.
pub open spec fn kbd_tag() -> Seq<u8> {
    seq![101u8, 118u8, 101u8, 110u8, 116u8, 45u8, 107u8, 98u8, 100u8]
}

/// The tag of mouse devices in `/dev/input/by-path/`: `event-mouse`.
pub open spec fn mouse_tag() -> Seq<u8> {
    seq![101u8, 118u8, 101u8, 110u8, 116u8, 45u8, 109u8, 111u8, 117u8, 115u8, 101u8]
}

/// Whether `needle` occurs in `hay`.
fn find_bytes(hay: &[u8], needle: &Vec<u8>) -> (found: bool)
    ensures
        found == contains_bytes(hay@, needle@),
{
    let hay_len = hay.len();
    if needle.len() > hay_len {
        assert(!contains_bytes(hay@, needle@));
        return false;
    }
    let last = hay_len - needle.len();
    let mut i: usize = 0;
    loop
        invariant
            hay_len == hay@.len(),
            needle@.len() <= hay@.len(),
            last == hay@.len() - needle@.len(),
            i <= last,
            forall|k: int| 0 <= k < i ==> !#[trigger] occurs_at(hay@, needle@, k),
        decreases last - i,
    {
        let mut j: usize = 0;
        let mut same = true;
        while j < needle.len()
            invariant
                hay_len == hay@.len(),
                needle@.len() <= hay@.len(),
                i <= last,
                last == hay@.len() - needle@.len(),
                j <= needle@.len(),
                same == forall|m: int| 0 <= m < j ==> hay@[i + m] == needle@[m],
            decreases needle@.len() - j,
        {
            if hay[i + j] != needle[j] {
                same = false;
            }
            j += 1;
        }
        if same {
            assert(hay@.subrange(i as int, i + needle@.len()) =~= needle@);
            assert(occurs_at(hay@, needle@, i as int));
            return true;
        }
        proof {
            let m = choose|m: int| 0 <= m < needle@.len() && hay@[i + m] != needle@[m];
            assert(hay@.subrange(i as int, i + needle@.len())[m] != needle@[m]);
        }
        if i == last {
            return false;
        }
        i += 1;
    }
}

/// The kind of a device from its name in `/dev/input/by-path/`: keyboards and
/// mice are named so; other devices are of no interest.
pub open spec fn spec_device_type_of_name(name: Seq<u8>) -> Option<DevType> {
    if contains_bytes(name, kbd_tag()) {
        Some(DevType::Kbd)
    } else if contains_bytes(name, mouse_tag()) {
        Some(DevType::Mouse)
    } else {
        None
    }
}

/// The kind of a device from its file name.
pub fn device_type_of_name(name: &[u8]) -> (d: Option<DevType>)
    ensures
        d == spec_device_type_of_name(name@),
{
    let kbd: Vec<u8> = vec![101u8, 118u8, 101u8, 110u8, 116u8, 45u8, 107u8, 98u8, 100u8];
    let mouse: Vec<u8> = vec![101u8, 118u8, 101u8, 110u8, 116u8, 45u8, 109u8, 111u8, 117u8, 115u8, 101u8];
    assert(kbd@ =~= kbd_tag());
    assert(mouse@ =~= mouse_tag());
    // Fetch keyboards.
    if find_bytes(name, &kbd) {
        Some(DevType::Kbd)
    }
    // Fetch mice.
    else if find_bytes(name, &mouse) {
        Some(DevType::Mouse)
    } else {
        None
    }
}

/// Some entry of `paths` has the path `p`.
pub open spec fn has_path(paths: Seq<(Seq<u8>, DevType)>, p: Seq<u8>) -> bool {
    exists|i: int| 0 <= i < paths.len() && #[trigger] paths[i].0 == p
}

/// The entries whose path does not occur in an earlier entry, in order.
pub open spec fn spec_first_occurrences(paths: Seq<(Seq<u8>, DevType)>) -> Seq<(Seq<u8>, DevType)>
    decreases paths.len(),
{
    if paths.len() == 0 {
        Seq::empty()
    } else {
        let init = paths.drop_last();
        let last = paths.last();
        if has_path(init, last.0) {
            spec_first_occurrences(init)
        } else {
            spec_first_occurrences(init).push(last)
        }
    }
}

proof fn lemma_first_occurrences_paths(paths: Seq<(Seq<u8>, DevType)>, p: Seq<u8>)
    ensures
        has_path(spec_first_occurrences(paths), p) <==> has_path(paths, p),
    decreases paths.len(),
{
    if paths.len() > 0 {
        let init = paths.drop_last();
        let last = paths.last();
        lemma_first_occurrences_paths(init, p);
        lemma_first_occurrences_paths(init, last.0);
        let f = spec_first_occurrences(init);
        if has_path(paths, p) {
            let i = choose|i: int| 0 <= i < paths.len() && #[trigger] paths[i].0 == p;
            if i < init.len() {
                assert(init[i].0 == p);
            }
        }
        if has_path(init, p) {
            let i = choose|i: int| 0 <= i < init.len() && #[trigger] init[i].0 == p;
            assert(paths[i].0 == p);
        }
        if !has_path(init, last.0) {
            let g = f.push(last);
            if has_path(g, p) {
                let i = choose|i: int| 0 <= i < g.len() && #[trigger] g[i].0 == p;
                if i < f.len() {
                    assert(f[i].0 == p);
                } else {
                    assert(paths[paths.len() - 1].0 == p);
                }
            }
            if has_path(f, p) {
                let i = choose|i: int| 0 <= i < f.len() && #[trigger] f[i].0 == p;
                assert(g[i].0 == p);
            }
            if p == last.0 {
                assert(g[f.len() as int].0 == p);
            }
        } else {
            if p == last.0 {
                assert(paths[paths.len() - 1].0 == p);
            }
        }
    }
}

/// The device paths as values.
pub open spec fn paths_view(paths: Seq<(Vec<u8>, DevType)>) -> Seq<(Seq<u8>, DevType)> {
    paths.map_values(|p: (Vec<u8>, DevType)| (p.0@, p.1))
}

/// Ensure path uniqueness: keeps the first entry of each path, in order.
pub fn dedup_device_paths(device_paths: &Vec<(Vec<u8>, DevType)>) -> (unique: Vec<(Vec<u8>, DevType)>)
    ensures
        paths_view(unique@) == spec_first_occurrences(paths_view(device_paths@)),
{
    let mut unique: Vec<(Vec<u8>, DevType)> = Vec::new();
    let mut i: usize = 0;
    while i < device_paths.len()
        invariant
            i <= device_paths@.len(),
            paths_view(unique@) == spec_first_occurrences(paths_view(device_paths@.subrange(0, i as int))),
        decreases device_paths@.len() - i,
    {
        let path = &device_paths[i].0;
        let mut seen = false;
        let mut k: usize = 0;
        while k < unique.len()
            invariant
                k <= unique@.len(),
                seen == exists|m: int| 0 <= m < k && unique@[m].0@ == path@,
            decreases unique@.len() - k,
        {
            if bytes_equal(&unique[k].0, path) {
                seen = true;
            }
            k += 1;
        }
        let ghost prefix = paths_view(device_paths@.subrange(0, i as int));
        let ghost before = unique@;
        proof {
            assert(paths_view(device_paths@.subrange(0, i + 1)) =~= prefix.push((path@, device_paths@[i as int].1)));
            assert(prefix.push((path@, device_paths@[i as int].1)).drop_last() =~= prefix);
            lemma_first_occurrences_paths(prefix, path@);
            if seen {
                let m = choose|m: int| 0 <= m < unique@.len() && unique@[m].0@ == path@;
                assert(paths_view(unique@)[m].0 == path@);
            } else {
                if has_path(paths_view(unique@), path@) {
                    let m = choose|m: int| 0 <= m < paths_view(unique@).len() && #[trigger] paths_view(unique@)[m].0 == path@;
                    assert(unique@[m].0@ == path@);
                }
            }
        }
        if !seen {
            let copy = device_paths[i].0.clone();
            assert(copy@ == path@);
            unique.push((copy, device_paths[i].1));
            proof {
                assert(paths_view(unique@) =~= paths_view(before).push((path@, device_paths@[i as int].1)));
            }
        }
        i += 1;
    }
    assert(device_paths@.subrange(0, device_paths@.len() as int) =~= device_paths@);
    unique
}

/// No key action of the sequence is a repeat.
pub open spec fn no_repeats(q: Seq<KeyAction>) -> bool {
    forall|i: int| 0 <= i < q.len() ==> (#[trigger] q[i]).state != KeyState::Repeated
}

/// Every batch that the keyboard handling sends has no repeats.
pub open spec fn outputs_without_repeats(out: Seq<KbdOutputView>) -> bool {
    forall|i: int|
        0 <= i < out.len() ==> match #[trigger] out[i] {
            KbdOutputView::SendKeyActions(q) => no_repeats(q),
            KbdOutputView::SendToCore(_) => true,
        }
}

/// The virtual keyboard never receives a key repeat: from pending actions
/// without repeats, every batch that the keyboard handling sends, and the
/// actions still pending, have none; and a keybind reported to the core is
/// always a bound one.
pub proof fn law_keyboard_sends_no_repeats(
    queue: Seq<KeyAction>,
    held: Modifiers,
    bindings: Set<Keybind>,
    events: Seq<DeviceEvent>,
)
    requires
        no_repeats(queue),
    ensures
        no_repeats(kbd_run(queue, held, bindings, events).0),
        outputs_without_repeats(kbd_run(queue, held, bindings, events).2),
        forall|i: int|
            0 <= i < kbd_run(queue, held, bindings, events).2.len() ==> match #[trigger] kbd_run(
                queue,
                held,
                bindings,
                events,
            ).2[i] {
                KbdOutputView::SendToCore(k) => bindings.contains(k),
                KbdOutputView::SendKeyActions(_) => true,
            },
    decreases events.len(),
{
    if events.len() > 0 {
        law_keyboard_sends_no_repeats(queue, held, bindings, events.drop_last());
        let (q, h, out) = kbd_run(queue, held, bindings, events.drop_last());
        let (q2, h2, out2) = kbd_step(q, h, bindings, events.last());
        let all = out + out2;
        assert(no_repeats(q2));
        assert forall|i: int| 0 <= i < all.len() implies match #[trigger] all[i] {
            KbdOutputView::SendKeyActions(qq) => no_repeats(qq),
            KbdOutputView::SendToCore(k) => bindings.contains(k),
        } by {
            if i < out.len() {
                assert(all[i] == out[i]);
            } else {
                assert(all[i] == out2[i - out.len()]);
            }
        }
    }
}

/// The flag that a key event adds (press) or removes (release): Shift,
/// Ctrl, Alt and Meta, left then right, are bits 0 to 7 in that order; any
/// other key has none.
pub open spec fn flag_of_key(code: u16) -> Modifiers {
    if code == 42 {
        0x01
    } else if code == 54 {
        0x02
    } else if code == 29 {
        0x04
    } else if code == 97 {
        0x08
    } else if code == 56 {
        0x10
    } else if code == 100 {
        0x20
    } else if code == 125 {
        0x40
    } else if code == 126 {
        0x80
    } else {
        0x00
    }
}

/// What one keyboard event does, after any earlier events: a
/// synchronization event sends the pending key actions and clears them; a
/// key event updates the held modifiers (a press adds the key's flag, a
/// release removes it, a repeat keeps them), and its keybind (code, state of
/// its value, and the held modifiers after it) goes to the core when it is
/// bound, and otherwise waits, as a key action with its own state, for the
/// next synchronization, unless it is a repeat; other events change nothing.
pub proof fn law_keyboard_event(
    queue: Seq<KeyAction>,
    held: Modifiers,
    bindings: Set<Keybind>,
    events: Seq<DeviceEvent>,
    ev: DeviceEvent,
)
    ensures
        ({
            let (q0, h0, o0) = kbd_run(queue, held, bindings, events);
            let (q1, h1, o1) = kbd_run(queue, held, bindings, events.push(ev));
            let state = if ev.value == 0 {
                KeyState::Released
            } else if ev.value == 1 {
                KeyState::Pressed
            } else {
                KeyState::Repeated
            };
            let after = if ev.value == 0 {
                h0 & !flag_of_key(ev.code)
            } else if ev.value == 1 {
                h0 | flag_of_key(ev.code)
            } else {
                h0
            };
            let bind = Keybind { code: KeyCode(ev.code), state, modifiers: after };
            &&& ev.event_type == 0 ==> q1 == Seq::<KeyAction>::empty() && h1 == h0 && o1 == o0.push(
                KbdOutputView::SendKeyActions(q0),
            )
            &&& ev.event_type != 0 && ev.event_type != 1 ==> q1 == q0 && h1 == h0 && o1 == o0
            &&& ev.event_type == 1 ==> h1 == after
            &&& ev.event_type == 1 && bindings.contains(bind) ==> q1 == q0 && o1 == o0.push(
                KbdOutputView::SendToCore(bind),
            )
            &&& ev.event_type == 1 && !bindings.contains(bind) && (ev.value == 0 || ev.value == 1)
                ==> q1 == q0.push(KeyAction { key: KeyCode(ev.code), state }) && o1 == o0
            &&& ev.event_type == 1 && !bindings.contains(bind) && ev.value != 0 && ev.value != 1
                ==> q1 == q0 && o1 == o0
        }),
{
    let all = events.push(ev);
    assert(all.drop_last() =~= events);
    assert(all.last() == ev);
    let (q0, h0, o0) = kbd_run(queue, held, bindings, events);
    let (q2, h2, o2) = kbd_step(q0, h0, bindings, ev);
    assert(o0 + o2 =~= (if o2.len() == 1 { o0.push(o2[0]) } else { o0 }));
}

/// What one mouse event does: a button event updates the held modifiers and
/// goes to the core when its keybind is bound, and otherwise waits, as a key
/// action with its own state, unless it is a repeat; relative motion waits as
/// it came; a synchronization event empties the pending actions and, without
/// a poll interval, sends them all, and with one, sends those that are no
/// relative motion, in order, after arming the timer when it is not armed.
pub proof fn law_mouse_event(
    queue: Seq<MouseAction>,
    held: Modifiers,
    totals: Seq<(RelativeAxisCode, i32)>,
    bindings: Set<Keybind>,
    ev: DeviceEvent,
    since_epoch: u128,
    interval: u128,
    timer_armed: bool,
)
    ensures
        ({
            let (q1, h1, t1, o1) = mouse_step(
                queue,
                held,
                totals,
                bindings,
                ev,
                since_epoch,
                interval,
                timer_armed,
            );
            let state = if ev.value == 0 {
                KeyState::Released
            } else if ev.value == 1 {
                KeyState::Pressed
            } else {
                KeyState::Repeated
            };
            let after = if ev.value == 0 {
                held & !flag_of_key(ev.code)
            } else if ev.value == 1 {
                held | flag_of_key(ev.code)
            } else {
                held
            };
            let bind = Keybind { code: KeyCode(ev.code), state, modifiers: after };
            &&& ev.event_type == 1 ==> h1 == after && t1 == totals
            &&& ev.event_type == 1 && bindings.contains(bind) ==> q1 == queue && o1 == seq![
                MouseOutputView::SendToCore(bind),
            ]
            &&& ev.event_type == 1 && !bindings.contains(bind) && (ev.value == 0 || ev.value == 1)
                ==> q1 == queue.push(MouseAction::Key(KeyAction { key: KeyCode(ev.code), state }))
                && o1 == Seq::<MouseOutputView>::empty()
            &&& ev.event_type == 1 && !bindings.contains(bind) && ev.value != 0 && ev.value != 1
                ==> q1 == queue && o1 == Seq::<MouseOutputView>::empty()
            &&& ev.event_type == 2 ==> q1 == queue.push(
                MouseAction::Rel(MouseRelAction { axis: RelativeAxisCode(ev.code), value: ev.value }),
            ) && h1 == held && t1 == totals && o1 == Seq::<MouseOutputView>::empty()
            &&& ev.event_type == 0 ==> q1 == Seq::<MouseAction>::empty() && h1 == held
            &&& ev.event_type == 0 && interval == 0 ==> t1 == totals && o1 == seq![
                MouseOutputView::SendMouseActions(queue),
            ]
            &&& ev.event_type == 0 && interval != 0 ==> o1.last() == MouseOutputView::SendMouseActions(
                queue.filter(|a: MouseAction| !(a is Rel)),
            ) && o1.len() == (if timer_armed { 1int } else { 2int })
            &&& ev.event_type == 0 && interval != 0 && axes_distinct(totals) && accumulation_fits(
                totals,
                queue,
            ) ==> axes_distinct(t1) && forall|axis: RelativeAxisCode|
                #[trigger] total_of(t1, axis) == total_of(totals, axis) + sum_motion(queue, axis)
            &&& ev.event_type == 0 && !timer_armed && 1000 <= interval && interval / 1000 <= u64::MAX
                ==> (o1[0] matches MouseOutputView::ArmTimer(u) && 0 < u <= interval / 1000 && (
                since_epoch / 1000 + u) % ((interval / 1000) as int) == 0)
        }),
{
    if ev.event_type == 0 && interval != 0 {
        lemma_accumulate_keeps_others(totals, queue);
        if axes_distinct(totals) && accumulation_fits(totals, queue) {
            assert forall|axis: RelativeAxisCode|
                #[trigger] total_of(spec_accumulate(totals, queue).0, axis) == total_of(totals, axis)
                    + sum_motion(queue, axis) by {
                law_accumulation_keeps_motion(totals, queue, axis);
            }
            law_accumulation_keeps_motion(totals, queue, RelativeAxisCode(0));
        }
        if !timer_armed && 1000 <= interval && interval / 1000 <= u64::MAX {
            law_next_poll_on_interval(interval / 1000, since_epoch / 1000);
        }
    }
}

proof fn lemma_accumulate_keeps_others(entries: Seq<(RelativeAxisCode, i32)>, actions: Seq<MouseAction>)
    ensures
        spec_accumulate(entries, actions).1 == actions.filter(|a: MouseAction| !(a is Rel)),
    decreases actions.len(),
{
    reveal_with_fuel(Seq::filter, 1);
    if actions.len() > 0 {
        lemma_accumulate_keeps_others(entries, actions.drop_last());
    }
}

/// `needle` occurs somewhere in `hay`.
pub open spec fn has_bytes(hay: Seq<u8>, needle: Seq<u8>) -> bool {
    exists|i: int| 0 <= i && i + needle.len() <= hay.len() && #[trigger] hay.subrange(i, i + needle.len()) == needle
}

/// A device is a keyboard exactly when its name holds `event-kbd`, a mouse
/// exactly when it holds `event-mouse` and not `event-kbd`, and of no
/// interest otherwise.
pub proof fn law_device_kind_of_name(name: Seq<u8>)
    ensures
        ({
            let kbd = seq![101u8, 118u8, 101u8, 110u8, 116u8, 45u8, 107u8, 98u8, 100u8];
            let mouse = seq![101u8, 118u8, 101u8, 110u8, 116u8, 45u8, 109u8, 111u8, 117u8, 115u8, 101u8];
            &&& spec_device_type_of_name(name) == Some(DevType::Kbd) <==> has_bytes(name, kbd)
            &&& spec_device_type_of_name(name) == Some(DevType::Mouse) <==> has_bytes(name, mouse)
                && !has_bytes(name, kbd)
            &&& spec_device_type_of_name(name) is None <==> !has_bytes(name, mouse) && !has_bytes(
                name,
                kbd,
            )
        }),
{
    let kbd = seq![101u8, 118u8, 101u8, 110u8, 116u8, 45u8, 107u8, 98u8, 100u8];
    let mouse = seq![101u8, 118u8, 101u8, 110u8, 116u8, 45u8, 109u8, 111u8, 117u8, 115u8, 101u8];
    assert(kbd_tag() =~= kbd);
    assert(mouse_tag() =~= mouse);
    lemma_contains_bytes(name, kbd);
    lemma_contains_bytes(name, mouse);
}

proof fn lemma_contains_bytes(hay: Seq<u8>, needle: Seq<u8>)
    ensures
        contains_bytes(hay, needle) <==> has_bytes(hay, needle),
{
    if contains_bytes(hay, needle) {
        let i = choose|i: int| 0 <= i <= hay.len() - needle.len() && #[trigger] occurs_at(hay, needle, i);
        assert(hay.subrange(i, i + needle.len()) == needle);
    }
    if has_bytes(hay, needle) {
        let i = choose|i: int| 0 <= i && i + needle.len() <= hay.len() && #[trigger] hay.subrange(i, i + needle.len()) == needle;
        assert(occurs_at(hay, needle, i));
    }
}

} // verus!

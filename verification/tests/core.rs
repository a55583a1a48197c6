use libdae::app::{
    active_keybinds, dispatch_key_event, socket_plan, CoreAction, InvalidSocketTypeId,
    SetupContext, SocketType,
};
use libdae::binder::Binder;
use libdae::binding_table::BindingTable;
use libdae::codes::KeyCode;
use libdae::compositor_interface::{Point, ScreenInfo, ScreenSpace, Size};
use libdae::configs::{Action, Configs};
use libdae::connector::{on_incoming_stream, MAX_SUBSEQUENT_STREAM_ERRORS};
use libdae::input::event::KeyEvent;
use libdae::input::{KeyState, Keybind};
use libdae::keybind_set::KeybindSet;
use libdae::modifiers::{LEFT_ALT, NONE, RIGHT_CTRL};
use libdae::{input, keys};
use std::time::Duration;

fn pause() -> KeyCode {
    KeyCode::new(evdev::KeyCode::KEY_PAUSE.code())
}

fn bind(code: u16, state: KeyState, modifiers: u16) -> Keybind {
    Keybind::new(KeyCode::new(code), state, modifiers)
}

#[test]
fn socket_type_ids_round_trip() {
    let all = [
        SocketType::WorkerCore,
        SocketType::InputCore,
        SocketType::UInputCore,
        SocketType::WorkerPriv,
        SocketType::InputPriv,
        SocketType::UInputPriv,
    ];
    let ids: Vec<i8> = all.iter().map(|t| t.id()).collect();
    assert_eq!(ids, vec![1, 2, 3, -1, -2, -3]);
    for t in all {
        assert_eq!(SocketType::try_from_id(t.id()), Ok(t));
        assert_eq!(SocketType::from_payload(t.payload()), Ok(t));
    }
}

#[test]
fn unknown_socket_type_id_is_refused() {
    assert_eq!(SocketType::try_from_id(0), Err(InvalidSocketTypeId(0)));
    assert_eq!(SocketType::try_from_id(4), Err(InvalidSocketTypeId(4)));
    assert_eq!(SocketType::try_from_id(-4), Err(InvalidSocketTypeId(-4)));
    assert_eq!(SocketType::from_payload(0xfc), Err(InvalidSocketTypeId(-4)));
    assert_eq!(InvalidSocketTypeId(9).id(), 9);
}

#[test]
fn socket_payload_is_the_id_as_a_byte() {
    assert_eq!(SocketType::WorkerCore.payload(), 1);
    assert_eq!(SocketType::UInputPriv.payload(), 0xfd);
}

#[test]
fn socket_plan_has_the_workers_then_input_and_uinput() {
    assert_eq!(
        socket_plan(2),
        vec![
            (SocketType::WorkerCore, SocketType::WorkerPriv),
            (SocketType::WorkerCore, SocketType::WorkerPriv),
            (SocketType::InputCore, SocketType::InputPriv),
            (SocketType::UInputCore, SocketType::UInputPriv),
        ]
    );
    assert_eq!(socket_plan(0).len(), 2);
}

#[test]
fn setup_context_holds_its_values() {
    let space = ScreenSpace::from_monitors(&[ScreenInfo {
        size: Size { width: 100, height: 50 },
        origin: Point { x: 0, y: 0 },
    }]);
    let ctx = SetupContext::new(4, space.clone());
    assert_eq!(ctx.nb_threads(), 4);
    assert_eq!(ctx.screen_space().range(), space.range());
    assert_eq!(ctx.screen_space().monitors(), space.monitors());
}

#[test]
fn binder_defaults() {
    let binder: Binder<u32> = Binder::new(8);
    assert_eq!(binder.max_threads(), 8);
    assert!(!binder.paused());
    assert_eq!(binder.toggle_bindings_key(), Keybind::new(pause(), KeyState::Pressed, NONE));
    assert_eq!(binder.exit_key(), Keybind::new(pause(), KeyState::Pressed, RIGHT_CTRL));
    assert_eq!(binder.min_mouse_poll_interval(), Duration::ZERO);
    assert_eq!(binder.bindings().len(), 0);
}

#[test]
fn binder_setters() {
    let mut binder: Binder<u32> = Binder::new(1);
    let k = bind(30, KeyState::Pressed, LEFT_ALT);
    binder.set_toggle_bindings_key(k);
    binder.set_exit_key(bind(31, KeyState::Released, NONE));
    binder.set_min_mouse_polling_interval(Duration::from_millis(4));
    binder.set_paused(true);
    assert_eq!(binder.toggle_bindings_key(), k);
    assert_eq!(binder.exit_key(), bind(31, KeyState::Released, NONE));
    assert_eq!(binder.min_mouse_poll_interval(), Duration::from_millis(4));
    assert!(binder.paused());
}

#[test]
fn binding_a_key_again_returns_the_old_closure() {
    let mut binder: Binder<u32> = Binder::new(1);
    let k = bind(30, KeyState::Pressed, NONE);
    assert_eq!(binder.create_binding(k, 1), None);
    assert_eq!(binder.create_binding(k, 2), Some(1));
    assert_eq!(binder.bindings().get(&k), Some(&2));
    assert_eq!(binder.bindings().len(), 1);
}

#[test]
fn binding_table_reads_what_was_written() {
    let mut table: BindingTable<&str> = BindingTable::new();
    let a = bind(30, KeyState::Pressed, NONE);
    let b = bind(48, KeyState::Released, LEFT_ALT);
    assert_eq!(table.insert(a, "a"), None);
    assert_eq!(table.insert(b, "b"), None);
    assert_eq!(table.insert(a, "A"), Some("a"));
    assert_eq!(table.get(&a), Some(&"A"));
    assert_eq!(table.get(&b), Some(&"b"));
    assert_eq!(table.get(&bind(30, KeyState::Released, NONE)), None);
    assert!(table.contains_key(&b));
    assert!(!table.contains_key(&bind(1, KeyState::Pressed, NONE)));
    let keys = table.keys();
    assert_eq!(keys.len(), 2);
    assert!(keys.contains(&a) && keys.contains(&b));
    assert_eq!(table.len(), 2);
}

#[test]
fn configs_bind_closures_and_actions() {
    let mut configs: Configs<u8> = Configs::new(3);
    let k = bind(30, KeyState::Pressed, NONE);
    assert!(configs.create_closure_binding(k, 7).is_none());
    match configs.create_binding(k, Action::Exit) {
        Some(Action::Closure(7)) => {}
        _ => panic!("the closure should have been replaced"),
    }
    assert!(matches!(configs.bindings().get(&k), Some(Action::Exit)));
    configs.set_rel_mouse_polling_interval(Duration::from_micros(500));
    assert_eq!(configs.min_mouse_poll_interval(), Duration::from_micros(500));
    assert_eq!(configs.max_threads(), 3);
}

#[test]
fn keybind_set_keeps_each_keybind_once() {
    let a = bind(30, KeyState::Pressed, NONE);
    let b = bind(31, KeyState::Pressed, NONE);
    let mut set = KeybindSet::from_vec(vec![a, b, a]);
    assert_eq!(set.to_vec(), vec![a, b]);
    assert!(!set.insert(b));
    assert!(set.insert(bind(31, KeyState::Released, NONE)));
    assert!(set.contains(&a));
    assert!(!set.contains(&bind(32, KeyState::Pressed, NONE)));
    assert_eq!(set.to_vec().len(), 3);
}

#[test]
fn active_keybinds_are_the_bindings_and_the_control_keys() {
    let mut binder: Binder<u32> = Binder::new(1);
    let k = bind(30, KeyState::Pressed, NONE);
    binder.create_binding(k, 0);
    let active = active_keybinds(&binder);
    assert!(active.contains(&k));
    assert!(active.contains(&binder.toggle_bindings_key()));
    assert!(active.contains(&binder.exit_key()));
    assert_eq!(active.to_vec().len(), 3);
}

#[test]
fn toggle_key_pauses_then_resumes_the_bindings() {
    let mut binder: Binder<u32> = Binder::new(1);
    let k = bind(30, KeyState::Pressed, NONE);
    binder.create_binding(k, 0);
    let active = active_keybinds(&binder);
    let toggle = binder.toggle_bindings_key();

    match dispatch_key_event(&mut binder, toggle, &active) {
        CoreAction::ChangeBindings(set) => {
            assert!(set.contains(&toggle));
            assert!(set.contains(&binder.exit_key()));
            assert!(!set.contains(&k));
        }
        other => panic!("unexpected {:?}", other),
    }
    assert!(binder.paused());

    match dispatch_key_event(&mut binder, toggle, &active) {
        CoreAction::ChangeBindings(set) => assert_eq!(set.to_vec(), active.to_vec()),
        other => panic!("unexpected {:?}", other),
    }
    assert!(!binder.paused());
}

#[test]
fn core_dispatch_of_bound_exit_and_unbound_keys() {
    let mut binder: Binder<u32> = Binder::new(1);
    let k = bind(30, KeyState::Pressed, NONE);
    binder.create_binding(k, 0);
    let active = active_keybinds(&binder);
    let exit = binder.exit_key();
    assert!(matches!(dispatch_key_event(&mut binder, k, &active), CoreAction::RunBinding));
    assert!(matches!(dispatch_key_event(&mut binder, exit, &active), CoreAction::Exit));
    assert!(matches!(
        dispatch_key_event(&mut binder, bind(99, KeyState::Pressed, NONE), &active),
        CoreAction::Unbound
    ));
    assert!(!binder.paused());
}

#[test]
fn listener_stops_at_the_hundredth_consecutive_failure() {
    let mut errs = 0u32;
    for _ in 0..(MAX_SUBSEQUENT_STREAM_ERRORS - 1) {
        assert!(!on_incoming_stream(&mut errs, false));
    }
    assert_eq!(errs, 99);
    assert!(on_incoming_stream(&mut errs, false));
    assert_eq!(errs, 100);

    let mut errs = 50u32;
    assert!(!on_incoming_stream(&mut errs, true));
    assert_eq!(errs, 0);
}

#[test]
fn key_state_values() {
    assert_eq!(KeyState::Released.value(), 0);
    assert_eq!(KeyState::Pressed.value(), 1);
    assert_eq!(KeyState::Repeated.value(), 2);
    assert_eq!(KeyState::from_value(0), KeyState::Released);
    assert_eq!(KeyState::from_value(1), KeyState::Pressed);
    assert_eq!(KeyState::from_value(2), KeyState::Repeated);
    assert_eq!(KeyState::from_value(-5), KeyState::Repeated);
    assert_eq!(keys::KeyState::Repeated.value(), 2);
    assert_eq!(input::event::KeyState::Pressed.value(), 1);
}

#[test]
fn key_constructors_keep_their_fields() {
    let e = KeyEvent::new(KeyCode::new(30), input::event::KeyState::Released, LEFT_ALT);
    assert_eq!(e.code, KeyCode::new(30));
    assert_eq!(e.state, input::event::KeyState::Released);
    assert_eq!(e.modifiers, LEFT_ALT);
    let k = keys::Keybind::new(KeyCode::new(2), keys::KeyState::Pressed, NONE);
    assert_eq!(k.code, KeyCode::new(2));
    let a = keys::KeyAction::new(KeyCode::new(3), keys::KeyState::Released);
    assert_eq!(a.key, KeyCode::new(3));
    assert_eq!(a.state, keys::KeyState::Released);
    assert_eq!(KeyCode::new(5).code(), 5);
}

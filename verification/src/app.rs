//! The setup of the core and the privileged process: the sockets they share,
//! the context handed to the privileged process, and what the core does with
//! each keybind that the input loop reports.
use vstd::prelude::*;
use crate::binder::Binder;
use crate::compositor_interface::ScreenSpace;
use crate::input::Keybind;
use crate::keybind_set::KeybindSet;

verus! {

/// Context for the privileged process.
#[derive(Debug)]
pub struct SetupContext {
    /// Number of threads to deploy
    nb_threads: u16,
    /// Information about the monitor layout.
    screen_space: ScreenSpace,
}

impl SetupContext {
    pub closed spec fn spec_nb_threads(&self) -> u16 {
        self.nb_threads
    }

    pub closed spec fn spec_screen_space(&self) -> ScreenSpace {
        self.screen_space
    }

    /// The context of `nb_threads` workers on the layout `screen_space`.
    pub fn new(nb_threads: u16, screen_space: ScreenSpace) -> (c: SetupContext)
        ensures
            c.spec_nb_threads() == nb_threads,
            c.spec_screen_space() == screen_space,
    {
        SetupContext { nb_threads, screen_space }
    }

    pub fn nb_threads(&self) -> (n: u16)
        ensures
            n == self.spec_nb_threads(),
    {
        self.nb_threads
    }

    pub fn screen_space(&self) -> (s: &ScreenSpace)
        ensures
            *s == self.spec_screen_space(),
    {
        &self.screen_space
    }
}

/// Describes what a socket will be used for,
#[derive(Debug, Clone, Copy, PartialEq, Eq, Structural)]
pub enum SocketType {
    /// A worker will own the other side of this socket.
    WorkerCore,
    /// The Input thread will own the other side of this this socket.
    InputCore,
    /// The UInput thread will own the other side of this this socket.
    UInputCore,
    /// A worker will own this socket.
    WorkerPriv,
    /// The Input thread will own this socket.
    InputPriv,
    /// The UInput thread will own this socket.
    UInputPriv,
}

/// The id of each socket type: positive for the core's end, negative for the
/// privileged process's end.
pub open spec fn spec_socket_type_id(t: SocketType) -> i8 {
    match t {
        SocketType::WorkerCore => 1i8,
        SocketType::InputCore => 2i8,
        SocketType::UInputCore => 3i8,
        SocketType::WorkerPriv => -1i8,
        SocketType::InputPriv => -2i8,
        SocketType::UInputPriv => -3i8,
    }
}

/// The socket type of an id, if it is one.
pub open spec fn spec_socket_type_from_id(id: i8) -> Option<SocketType> {
    if id == 1 {
        Some(SocketType::WorkerCore)
    } else if id == 2 {
        Some(SocketType::InputCore)
    } else if id == 3 {
        Some(SocketType::UInputCore)
    } else if id == -1 {
        Some(SocketType::WorkerPriv)
    } else if id == -2 {
        Some(SocketType::InputPriv)
    } else if id == -3 {
        Some(SocketType::UInputPriv)
    } else {
        None
    }
}

/// A byte that names no socket type.
#[derive(Debug, Clone, Copy, PartialEq, Eq, Structural)]
pub struct InvalidSocketTypeId(pub i8);

impl InvalidSocketTypeId {
    /// The id that names no socket type.
    pub fn id(&self) -> (id: i8)
        ensures
            id == self.0,
    {
        self.0
    }
}

impl SocketType {
    /// The id of this socket type.
    pub fn id(self) -> (id: i8)
        ensures
            id == spec_socket_type_id(self),
    {
        match self {
            SocketType::WorkerCore => 1,
            SocketType::InputCore => 2,
            SocketType::UInputCore => 3,
            SocketType::WorkerPriv => -1,
            SocketType::InputPriv => -2,
            SocketType::UInputPriv => -3,
        }
    }

    /// The socket type of an id.
    pub fn try_from_id(value: i8) -> (t: Result<SocketType, InvalidSocketTypeId>)
        ensures
            match spec_socket_type_from_id(value) {
                Some(st) => t == Ok::<SocketType, InvalidSocketTypeId>(st),
                None => t == Err::<SocketType, InvalidSocketTypeId>(InvalidSocketTypeId(value)),
            },
    {
        match value {
            1 => Ok(SocketType::WorkerCore),
            2 => Ok(SocketType::InputCore),
            3 => Ok(SocketType::UInputCore),
            -1 => Ok(SocketType::WorkerPriv),
            -2 => Ok(SocketType::InputPriv),
            -3 => Ok(SocketType::UInputPriv),
            other => Err(InvalidSocketTypeId(other)),
        }
    }

    /// The byte that announces a socket of this type: its id, as a byte.
    pub fn payload(self) -> (b: u8)
        ensures
            b == spec_socket_type_id(self) as u8,
    {
        self.id() as u8
    }

    /// The socket type that a received byte announces: the byte read as an id.
    pub fn from_payload(byte: u8) -> (t: Result<SocketType, InvalidSocketTypeId>)
        ensures
            match spec_socket_type_from_id(byte as i8) {
                Some(st) => t == Ok::<SocketType, InvalidSocketTypeId>(st),
                None => t == Err::<SocketType, InvalidSocketTypeId>(InvalidSocketTypeId(byte as i8)),
            },
    {
        SocketType::try_from_id(byte as i8)
    }
}

/// A socket type's id names it back.
pub proof fn law_socket_type_id_roundtrip(t: SocketType)
    ensures
        spec_socket_type_from_id(spec_socket_type_id(t)) == Some(t),
{
}

/// The byte that announces a socket names its type back on the other side.
pub proof fn law_socket_type_payload_roundtrip(t: SocketType)
    ensures
        spec_socket_type_from_id((spec_socket_type_id(t) as u8) as i8) == Some(t),
{
    let id = spec_socket_type_id(t);
    assert((id as u8) as i8 == id) by (bit_vector);
}

/// Exactly the six ids name socket types.
pub proof fn law_socket_type_ids(id: i8)
    ensures
        spec_socket_type_from_id(id) is Some <==> (id == 1 || id == 2 || id == 3 || id == -1 || id
            == -2 || id == -3),
        spec_socket_type_from_id(id) is Some ==> spec_socket_type_id(
            spec_socket_type_from_id(id)->Some_0,
        ) == id,
{
}

/// The pairs of socket types that the core creates and sends over, in order:
/// one worker pair per worker, then the input pair, then the uinput pair. The
/// first of each pair is the end that the core keeps.
pub open spec fn spec_socket_plan(nb_worker_sockets: nat) -> Seq<(SocketType, SocketType)> {
    Seq::new(nb_worker_sockets, |_i: int| (SocketType::WorkerCore, SocketType::WorkerPriv)).push(
        (SocketType::InputCore, SocketType::InputPriv),
    ).push((SocketType::UInputCore, SocketType::UInputPriv))
}

/// The socket pairs to create and share with the privileged process.
pub fn socket_plan(nb_worker_sockets: u16) -> (plan: Vec<(SocketType, SocketType)>)
    ensures
        plan@ == spec_socket_plan(nb_worker_sockets as nat),
{
    let mut plan: Vec<(SocketType, SocketType)> = Vec::new();
    let mut i: u16 = 0;
    while i < nb_worker_sockets
        invariant
            i <= nb_worker_sockets,
            plan@ == Seq::new(i as nat, |_i: int| (SocketType::WorkerCore, SocketType::WorkerPriv)),
        decreases nb_worker_sockets - i,
    {
        plan.push((SocketType::WorkerCore, SocketType::WorkerPriv));
        proof {
            assert(plan@ =~= Seq::new((i + 1) as nat, |_i: int| (SocketType::WorkerCore, SocketType::WorkerPriv)));
        }
        i += 1;
    }
    plan.push((SocketType::InputCore, SocketType::InputPriv));
    plan.push((SocketType::UInputCore, SocketType::UInputPriv));
    plan
}

/// The keybinds that the input loop reports while the bindings are active:
/// every bound keybind, then the toggle and exit keys.
pub open spec fn spec_active_keybinds<A>(binder: Binder<A>) -> Set<Keybind> {
    binder.spec_bindings().dom().insert(binder.spec_toggle_bindings_key()).insert(
        binder.spec_exit_key(),
    )
}

/// Every keybind of the binder: the bound ones, the toggle key, the exit key.
pub fn active_keybinds<A>(binder: &Binder<A>) -> (keybinds: KeybindSet)
    requires
        binder.wf(),
    ensures
        keybinds@ == spec_active_keybinds(*binder),
{
    let keys = binder.bindings().keys();
    let mut keybinds = KeybindSet::from_vec(keys);
    keybinds.insert(binder.toggle_bindings_key());
    keybinds.insert(binder.exit_key());
    keybinds
}

/// Only the toggle and exit keys.
fn paused_keybinds<A>(binder: &Binder<A>) -> (keybinds: KeybindSet)
    ensures
        keybinds@ == Set::<Keybind>::empty().insert(binder.spec_toggle_bindings_key()).insert(
            binder.spec_exit_key(),
        ),
{
    let mut keybinds = KeybindSet::new();
    keybinds.insert(binder.toggle_bindings_key());
    keybinds.insert(binder.exit_key());
    keybinds
}

/// What the core does with a keybind that the input loop reported.
#[derive(Debug)]
pub enum CoreAction {
    /// Run the keybind's closure.
    RunBinding,
    /// Tell the input loop to report these keybinds from now on.
    ChangeBindings(KeybindSet),
    /// Exit.
    Exit,
    /// The keybind is not bound: stop listening.
    Unbound,
}

/// What the core does with `key_event`, and how the pause state changes: a
/// bound keybind runs its closure; otherwise the toggle key flips the pause
/// and tells the input loop which keybinds to report (only the toggle and exit
/// keys while paused, `active` otherwise); the exit key exits; any other
/// keybind is unbound. The result: the new pause state, the keybinds to
/// report from now on if they change, and the kind of action (0 run the
/// binding, 1 change the reported keybinds, 2 exit, 3 unbound).
pub open spec fn spec_dispatch(
    bound: Set<Keybind>,
    toggle: Keybind,
    exit: Keybind,
    paused: bool,
    key_event: Keybind,
    active: Set<Keybind>,
) -> (bool, Option<Set<Keybind>>, int) {
    if bound.contains(key_event) {
        (paused, None, 0)
    } else if key_event == toggle {
        (
            !paused,
            Some(
                if !paused {
                    Set::empty().insert(toggle).insert(exit)
                } else {
                    active
                },
            ),
            1,
        )
    } else if key_event == exit {
        (paused, None, 2)
    } else {
        (paused, None, 3)
    }
}

/// `spec_dispatch` on the binder's state.
pub open spec fn spec_binder_dispatch<A>(binder: Binder<A>, key_event: Keybind, active: Set<Keybind>) -> (
    bool,
    Option<Set<Keybind>>,
    int,
) {
    spec_dispatch(
        binder.spec_bindings().dom(),
        binder.spec_toggle_bindings_key(),
        binder.spec_exit_key(),
        binder.spec_paused(),
        key_event,
        active,
    )
}

/// The number of each action, as `spec_dispatch` gives it.
pub open spec fn core_action_kind(a: CoreAction) -> int {
    match a {
        CoreAction::RunBinding => 0,
        CoreAction::ChangeBindings(_) => 1,
        CoreAction::Exit => 2,
        CoreAction::Unbound => 3,
    }
}

/// Decides what to do with a keybind that the input loop reported; `active`
/// is the set of every keybind of the binder.
pub fn dispatch_key_event<A>(binder: &mut Binder<A>, key_event: Keybind, active: &KeybindSet) -> (action: CoreAction)
    requires
        old(binder).wf(),
    ensures
        final(binder).wf(),
        final(binder).spec_paused() == spec_binder_dispatch(*old(binder), key_event, active@).0,
        final(binder).spec_bindings() == old(binder).spec_bindings(),
        final(binder).spec_max_threads() == old(binder).spec_max_threads(),
        final(binder).spec_toggle_bindings_key() == old(binder).spec_toggle_bindings_key(),
        final(binder).spec_exit_key() == old(binder).spec_exit_key(),
        final(binder).spec_min_mouse_poll_interval() == old(binder).spec_min_mouse_poll_interval(),
        core_action_kind(action) == spec_binder_dispatch(*old(binder), key_event, active@).2,
        match action {
            CoreAction::ChangeBindings(set) => Some(set@) == spec_binder_dispatch(*old(binder), key_event, active@).1,
            _ => spec_binder_dispatch(*old(binder), key_event, active@).1 is None,
        },
{
    if binder.bindings().contains_key(&key_event) {
        CoreAction::RunBinding
    } else if key_event == binder.toggle_bindings_key() {
        let paused = !binder.paused();
        binder.set_paused(paused);
        if paused {
            CoreAction::ChangeBindings(paused_keybinds(binder))
        } else {
            CoreAction::ChangeBindings(active.clone())
        }
    } else if key_event == binder.exit_key() {
        CoreAction::Exit
    } else {
        CoreAction::Unbound
    }
}

/// Pressing the toggle key twice (when it is not itself bound) restores the
/// pause state, and the second press restores the keybinds reported before the
/// first: while active, a first press pauses and narrows them to the toggle and
/// exit keys, and the second press reactivates all of them.
pub proof fn law_toggle_twice(
    bound: Set<Keybind>,
    toggle: Keybind,
    exit: Keybind,
    paused: bool,
    active: Set<Keybind>,
)
    requires
        !bound.contains(toggle),
    ensures
        ({
            let (p1, set1, k1) = spec_dispatch(bound, toggle, exit, paused, toggle, active);
            let (p2, set2, k2) = spec_dispatch(bound, toggle, exit, p1, toggle, active);
            &&& k1 == 1 && k2 == 1
            &&& p1 == !paused && p2 == paused
            &&& !paused ==> set1 == Some(Set::empty().insert(toggle).insert(exit)) && set2 == Some(
                active,
            )
        }),
{
}

/// An unbound exit key (other than the toggle key) exits, paused or not, and
/// leaves the pause state as it was.
pub proof fn law_exit_key_exits(
    bound: Set<Keybind>,
    toggle: Keybind,
    exit: Keybind,
    paused: bool,
    active: Set<Keybind>,
)
    requires
        !bound.contains(exit),
        exit != toggle,
    ensures
        spec_dispatch(bound, toggle, exit, paused, exit, active).2 == 2,
        spec_dispatch(bound, toggle, exit, paused, exit, active).0 == paused,
{
}

} // verus!

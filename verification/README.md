# libdae

A keybinding daemon for wlroots-based Wayland compositors: a privileged process
grabs the keyboards and mice, reports bound keys to the user's script, and
sends key and mouse actions to the compositor through virtual devices.

- `src/` is the verified library. It holds the decisions of the input loop
  (what each device event becomes, when the emulated mouse polls), the events
  that the virtual devices emit for each request, the modifier bookkeeping, the
  keybinding tables and the core's dispatch, the screen layouts, and the state
  of the compositor client's overlay layers. Each public function states what
  it returns or changes; the `law_*` proof functions state what holds across
  calls.
- `app/` is the unverified shell around it: processes, sockets and their
  serialised messages, the evdev devices, and the Wayland client. It performs
  what the library decides.
- `tests/` runs the library on concrete values.

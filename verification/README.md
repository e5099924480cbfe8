# postit

Small sticky notes for Wayland desktops: each note is a layer-shell surface,
bound to the program that was active when it was made, and shown only while
that program is active (or always, when pinned).

## Layout

- `src/` — the verified library (Verus).
  - `app.rs` — the application state machine: every message the program
    reacts to, the actions it asks of the compositor and of storage, and the
    specification of each transition.
  - `layer.rs` — the layer-surface settings of notes, the list panel and the
    fallback toolbar, and the actions handed to the runtime.
  - `focus.rs` — which program is active, from foreign-toplevel events.
  - `outputs.rs` — assembling and ordering the monitors the compositor reports.
  - `note.rs`, `colors.rs`, `settings.rs`, `tray.rs`, `list_view.rs` — the
    note record, palette, size presets, tray menu and icon, list labels.
  - `keys.rs` — ascending key order over hash maps.
  - `laws.rs` — properties that span several operations.
- `tests/` — scenario tests run against the compiled library.
- `app/` — the program around the library: the iced layer-shell daemon, the
  widgets, the tray and focus threads, Wayland output enumeration, and JSON
  storage under `~/.local/share/postit/`.

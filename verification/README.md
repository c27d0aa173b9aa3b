# shuttle

The verified core of Shuttle, a scrolling (Niri-style) window manager for
the River compositor, written in Verus.

## Layout

- `src/` — the library, verified by Verus:
  - `config.rs` — keybinding actions and configuration; modifier and key
    names to River modifier bits and XKB keysyms.
  - `input.rs` — the router from compositor binding objects to actions.
  - `key_repeat.rs` — which held key repeats, and which timer a press or a
    release cancels.
  - `layout.rs` — the camera policy (which way the camera moves to track
    the focused window).
  - `state/` — windows (`window.rs`), workspaces, outputs and the global
    state (`tree.rs`), the manage/render handshake with River (`app.rs`),
    and the laws these obey (`laws.rs`).
  - `action.rs` — what the repeatable keybinding actions do to the state.
- `tests/` — tests of the library.
- `app/` — the program around the library: the event loop, Wayland
  protocol handlers, configuration files and live reload, logging, key
  repeat timers, and the floating-point layout and viewport clipping.

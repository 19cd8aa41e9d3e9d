# raxis

The decision-making core of a retained-mode UI toolkit for Win32, written in
Verus: every function in `src/` carries a contract that Verus proves.

## Layout

- `src/` — the verified library
  - `svg.rs`, `geometry.rs` — SVG path grammar and the figure plan handed to
    a geometry sink
  - `paint.rs`, `cull.rs` — the drawing operations of each element, z-index
    passes, and culling against the redrawn region (scopes stay balanced)
  - `visit.rs` — depth-first, breadth-first and leaves-first traversal state
    machines, with deferral passes
  - `walk.rs` — whole depth-first and leaves-first walks run on those
    machines, with the order they produce stated exactly
  - `hooks.rs`, `shell.rs`, `focus.rs` — per-widget hook slots, event capture,
    hover tracking, redraw scheduling, animations, focus
  - `input.rs`, `runtime/` — window-message routing, hit testing, typed
    characters, click counting, virtual keys
  - `menu.rs`, `tray.rs`, `titlebar.rs`, `dragdrop.rs` — context menus,
    notification-area icons, custom titlebar regions, drag and drop
  - `effects.rs` — effect registration XML, CLSIDs, property tables
  - `ids.rs`, `text.rs`, `model.rs`, `todo.rs` — widget identifiers, string
    helpers, layout model enums, the demo's todo list
- `tests/` — tests of the library on concrete values
- `app/` — the Win32, Direct2D and floating-point code around the library

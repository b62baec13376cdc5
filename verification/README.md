# blinc_input

Polling-style input state for Blinc sketches: held / just-pressed /
just-released keys, mouse buttons and gamepad buttons, pointer position,
per-frame scroll, modifier flags, and a named action / virtual-axis
binding layer. The state machine is written in Verus and proved against
its contracts; the glue to Blinc's event stream and to the gamepad
backends is ordinary Rust.

## Layout

- `src/` — the verified library
  - `buttons.rs` — mouse / gamepad button and axis identifiers, the
    Web Gamepad "Standard" button layout
  - `elem_set.rs` — small vector-backed sets of buttons
  - `float_bits.rs` — `f32` values carried as bit patterns; magnitude
    comparison on the encoding
  - `gamepad.rs` — one controller slot and how backend events and browser
    readings update it
  - `action_map.rs` — named actions and virtual axes with their bindings
  - `state.rs` — the snapshot: recording events, ending frames, queries,
    action and axis resolution, gamepad polling
  - `laws.rs` — properties spanning several operations
- `tests/` — scenario tests
- `app/` — a cloneable `Arc<Mutex<..>>` handle with `&self` methods,
  conversion from Blinc's `EventContext`, `Div::capture_input`, and the
  gilrs / Web Gamepad API backends

//! Polling-style input state: held / just-pressed / just-released keys,
//! mouse buttons and gamepad buttons, pointer position, per-frame scroll,
//! modifier flags, and a named action / virtual-axis binding layer.
//!
//! Event sources feed [`InputState::record`] and the gamepad pollers;
//! a frame reads the query methods and ends with [`InputState::frame_end`].
//! Floating-point values (positions, scroll, analog axes, thresholds)
//! are carried as their IEEE-754 `f32` bit patterns.

pub mod action_map;
pub mod buttons;
pub mod elem_set;
pub mod event_laws;
pub mod float_bits;
pub mod gamepad;
pub mod laws;
pub mod state;

pub use action_map::{ActionMap, AxisBinding, Binding, NamedBindings};
pub use buttons::{GamepadAxis, GamepadButton, MouseButton, map_web_button_index};
pub use float_bits::{MINUS_ONE_BITS, ONE_BITS, ZERO_BITS};
pub use gamepad::{
    GamepadEvent, GamepadSnapshot, WebButtonReading, WebPadReading, web_axis_inverted,
    web_stick_axis,
};
pub use state::{EventKind, GamepadEventRecord, InputEvent, InputState, Modifiers};

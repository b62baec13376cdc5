//! What single operations do, stated over their inputs: recording an
//! event, applying a controller event, a browser reading, the threshold
//! comparison, and how the edges of an action's bindings combine.

use vstd::prelude::*;
use crate::action_map::{ActionMapModel, Binding, map_bind};
use crate::buttons::{GamepadAxis, GamepadButton, MouseButton};
use crate::float_bits::abs_reaches;
use crate::gamepad::{GamepadEvent, PadModel, WebButtonReading, WebPadReading, pad_after_event, pad_after_web};
use crate::laws::with_actions;
use crate::state::{
    EventKind, InputEvent, InputModel, action_bindings, action_was_pressed, action_was_released,
    binding_pressed_edge, binding_released_edge, recorded,
};

verus! {

/// Pointer events move the pointer to the event's coordinates, x to x
/// and y to y; no other event moves it. No event changes the scroll.
pub proof fn law_record_pointer_position(m: InputModel, e: InputEvent)
    ensures
        (e.kind == EventKind::PointerDown || e.kind == EventKind::PointerUp || e.kind
            == EventKind::PointerMove) ==> recorded(m, e).mouse_x == e.local_x && recorded(m, e).mouse_y
            == e.local_y,
        !(e.kind == EventKind::PointerDown || e.kind == EventKind::PointerUp || e.kind
            == EventKind::PointerMove) ==> recorded(m, e).mouse_x == m.mouse_x && recorded(m, e).mouse_y
            == m.mouse_y,
        recorded(m, e).scroll_x == m.scroll_x && recorded(m, e).scroll_y == m.scroll_y,
{
}

/// A key-down holds exactly that key in addition to the held ones, and
/// makes it just pressed exactly when it was not held; a key-up releases
/// exactly that key, and makes it just released exactly when it was
/// held. Key events leave the mouse buttons alone.
pub proof fn law_record_keys(m: InputModel, e: InputEvent, x: u32)
    ensures
        e.kind == EventKind::KeyDown ==> {
            &&& recorded(m, e).keys_down.contains(x) == (x == e.key_code || m.keys_down.contains(x))
            &&& recorded(m, e).keys_just_pressed.contains(x) == (m.keys_just_pressed.contains(x) || (x
                == e.key_code && !m.keys_down.contains(x)))
            &&& recorded(m, e).keys_just_released == m.keys_just_released
            &&& recorded(m, e).buttons_down == m.buttons_down
        },
        e.kind == EventKind::KeyUp ==> {
            &&& recorded(m, e).keys_down.contains(x) == (x != e.key_code && m.keys_down.contains(x))
            &&& recorded(m, e).keys_just_released.contains(x) == (m.keys_just_released.contains(x) || (
            x == e.key_code && m.keys_down.contains(x)))
            &&& recorded(m, e).keys_just_pressed == m.keys_just_pressed
            &&& recorded(m, e).buttons_down == m.buttons_down
        },
{
}

/// A pointer-down holds the button its index names (0 left, 1 middle,
/// 2 right, others extra) and makes it just pressed exactly when it was
/// not held; a pointer-up releases it and makes it just released exactly
/// when it was held. Pointer events leave the keys alone.
pub proof fn law_record_mouse_buttons(m: InputModel, e: InputEvent, x: MouseButton)
    ensures
        ({
            let b = if e.mouse_button == 0 {
                MouseButton::Left
            } else if e.mouse_button == 1 {
                MouseButton::Middle
            } else if e.mouse_button == 2 {
                MouseButton::Right
            } else {
                MouseButton::Other(e.mouse_button)
            };
            &&& e.kind == EventKind::PointerDown ==> {
                &&& recorded(m, e).buttons_down.contains(x) == (x == b || m.buttons_down.contains(x))
                &&& recorded(m, e).buttons_just_pressed.contains(x) == (m.buttons_just_pressed.contains(x)
                    || (x == b && !m.buttons_down.contains(x)))
                &&& recorded(m, e).buttons_just_released == m.buttons_just_released
                &&& recorded(m, e).keys_down == m.keys_down
            }
            &&& e.kind == EventKind::PointerUp ==> {
                &&& recorded(m, e).buttons_down.contains(x) == (x != b && m.buttons_down.contains(x))
                &&& recorded(m, e).buttons_just_released.contains(x) == (
                m.buttons_just_released.contains(x) || (x == b && m.buttons_down.contains(x)))
                &&& recorded(m, e).buttons_just_pressed == m.buttons_just_pressed
                &&& recorded(m, e).keys_down == m.keys_down
            }
        }),
{
}

/// The stick axis at index `k` of the Web Gamepad API axes array, by
/// the standard layout.
pub open spec fn standard_stick(k: int) -> GamepadAxis {
    if k == 0 {
        GamepadAxis::LeftStickX
    } else if k == 1 {
        GamepadAxis::LeftStickY
    } else if k == 2 {
        GamepadAxis::RightStickX
    } else {
        GamepadAxis::RightStickY
    }
}

/// Browser stick values pass through: for each of the four standard
/// stick entries the browser reports, the slot's axis reads that value.
pub proof fn law_web_sticks_pass_through(p: PadModel, r: &WebPadReading, k: int, v: u32)
    requires
        0 <= k < 4,
        k < r.axes@.len(),
        r.axes@[k] == Some(v),
    ensures
        pad_after_web(p, r).axes.contains_key(standard_stick(k)),
        pad_after_web(p, r).axes[standard_stick(k)] == v,
{
}

/// Browser trigger values pass through: button entry 6 gives the left
/// trigger's value and entry 7 the right trigger's, unless a stick entry
/// overrides nothing (sticks and triggers are distinct axes).
pub proof fn law_web_triggers_pass_through(p: PadModel, r: &WebPadReading, br: WebButtonReading)
    ensures
        (6 < r.buttons@.len() && r.buttons@[6] == Some(br)) ==> pad_after_web(p, r).axes.contains_key(
            GamepadAxis::LeftTrigger,
        ) && pad_after_web(p, r).axes[GamepadAxis::LeftTrigger] == br.value,
        (7 < r.buttons@.len() && r.buttons@[7] == Some(br)) ==> pad_after_web(p, r).axes.contains_key(
            GamepadAxis::RightTrigger,
        ) && pad_after_web(p, r).axes[GamepadAxis::RightTrigger] == br.value,
{
}

/// A browser button entry decides whether its button is held: the South
/// button (entry 0) is held exactly when entry 0 reads pressed, and it is
/// just pressed / released exactly on a change from the previous state.
pub proof fn law_web_button_follows_entry(p: PadModel, r: &WebPadReading, br: WebButtonReading)
    requires
        0 < r.buttons@.len(),
        r.buttons@[0] == Some(br),
    ensures
        pad_after_web(p, r).buttons_down.contains(GamepadButton::South) == br.pressed,
        pad_after_web(p, r).buttons_just_pressed.contains(GamepadButton::South) == (br.pressed
            && !p.buttons_down.contains(GamepadButton::South)),
        pad_after_web(p, r).buttons_just_released.contains(GamepadButton::South) == (!br.pressed
            && p.buttons_down.contains(GamepadButton::South)),
        pad_after_web(p, r).connected == r.connected,
{
}

/// The threshold test reads only the absolute value of the axis: flipping
/// the value's sign bit never changes it, and for a threshold that is not
/// a NaN and not negative it is exactly "the value is not a NaN and its
/// magnitude (the pattern without its sign bit) is at least the
/// threshold's". The executable test agrees.
pub proof fn law_threshold_reads_absolute_value(v: u32, t: u32)
    ensures
        abs_reaches(v, t) == abs_reaches(v % 0x8000_0000, t),
        v < 0x8000_0000 ==> abs_reaches(v, t) == abs_reaches((v + 0x8000_0000) as u32, t),
        (t < 0x8000_0000 && t <= 0x7f80_0000) ==> abs_reaches(v, t) == (v % 0x8000_0000 <= 0x7f80_0000
            && v % 0x8000_0000 >= t),
        (t >= 0x8000_0000 && t % 0x8000_0000 <= 0x7f80_0000) ==> abs_reaches(v, t) == (v % 0x8000_0000
            <= 0x7f80_0000),
{
}

/// Press and release edges of an action compose by OR: after registering
/// one more binding, the action was pressed (released) exactly when it
/// was before or the new binding has the edge; an action with no binding
/// has neither edge.
pub proof fn law_action_edges_are_or(m: InputModel, a: ActionMapModel, name: Seq<char>, b: Binding)
    ensures
        action_was_pressed(with_actions(m, ActionMapModel { actions: map_bind(a.actions, name, b), ..a }), name)
            == (action_was_pressed(with_actions(m, a), name) || binding_pressed_edge(m, b)),
        action_was_released(with_actions(m, ActionMapModel { actions: map_bind(a.actions, name, b), ..a }), name)
            == (action_was_released(with_actions(m, a), name) || binding_released_edge(m, b)),
        !a.actions.contains_key(name) ==> !action_was_pressed(with_actions(m, a), name)
            && !action_was_released(with_actions(m, a), name),
{
    let m1 = with_actions(m, a);
    let m2 = with_actions(m, ActionMapModel { actions: map_bind(a.actions, name, b), ..a });
    let bs1 = action_bindings(m1, name);
    let bs2 = action_bindings(m2, name);
    assert(bs2 =~= bs1.push(b));
    let n = bs1.len() as int;
    assert(bs2[n] == b);
    assert forall|i: int| 0 <= i < n implies #[trigger] bs2[i] == bs1[i] by {}
    if action_was_pressed(m2, name) {
        let i = choose|i: int| 0 <= i < bs2.len() && binding_pressed_edge(m2, #[trigger] bs2[i]);
        assert(binding_pressed_edge(m, bs2[i]));
        if i < n {
            assert(binding_pressed_edge(m1, bs1[i]));
        }
    }
    if action_was_pressed(m1, name) {
        let i = choose|i: int| 0 <= i < bs1.len() && binding_pressed_edge(m1, #[trigger] bs1[i]);
        assert(binding_pressed_edge(m2, bs2[i]));
    }
    if binding_pressed_edge(m, b) {
        assert(binding_pressed_edge(m2, bs2[n]));
    }
    if action_was_released(m2, name) {
        let i = choose|i: int| 0 <= i < bs2.len() && binding_released_edge(m2, #[trigger] bs2[i]);
        assert(binding_released_edge(m, bs2[i]));
        if i < n {
            assert(binding_released_edge(m1, bs1[i]));
        }
    }
    if action_was_released(m1, name) {
        let i = choose|i: int| 0 <= i < bs1.len() && binding_released_edge(m1, #[trigger] bs1[i]);
        assert(binding_released_edge(m2, bs2[i]));
    }
    if binding_released_edge(m, b) {
        assert(binding_released_edge(m2, bs2[n]));
    }
}

/// Every binding of an action counts for its edges, wherever it stands in
/// the list: if any binding has a press (release) edge, the action was
/// pressed (released).
pub proof fn law_any_binding_edge_counts(m: InputModel, name: Seq<char>, i: int)
    requires
        0 <= i < action_bindings(m, name).len(),
    ensures
        binding_pressed_edge(m, action_bindings(m, name)[i]) ==> action_was_pressed(m, name),
        binding_released_edge(m, action_bindings(m, name)[i]) ==> action_was_released(m, name),
{
}

/// Analog values change only axes: a `ButtonChanged` or `AxisChanged`
/// event leaves the held buttons, both edge sets and the connection
/// alone, and changes no axis but the one it sets.
pub proof fn law_analog_events_touch_only_axes(p: PadModel, e: GamepadEvent, a: GamepadAxis)
    requires
        e is ButtonChanged || e is AxisChanged,
    ensures
        pad_after_event(p, e).buttons_down == p.buttons_down,
        pad_after_event(p, e).buttons_just_pressed == p.buttons_just_pressed,
        pad_after_event(p, e).buttons_just_released == p.buttons_just_released,
        pad_after_event(p, e).connected == p.connected,
        match e {
            GamepadEvent::AxisChanged(Some(x), v) => pad_after_event(p, e).axes.contains_key(x)
                && pad_after_event(p, e).axes[x] == v && (a != x ==> pad_after_event(p, e).axes.contains_key(a)
                == p.axes.contains_key(a) && pad_after_event(p, e).axes[a] == p.axes[a]),
            _ => true,
        },
        e == GamepadEvent::ButtonChanged(Some(GamepadButton::LeftTrigger), e->ButtonChanged_1)
            ==> pad_after_event(p, e).axes.contains_key(GamepadAxis::LeftTrigger) && pad_after_event(p, e).axes[GamepadAxis::LeftTrigger] == e->ButtonChanged_1,
{
}

/// A press holds its button and is an edge exactly when the button was
/// not held; a release lets go of it and is an edge exactly when it was
/// held. Neither touches the axes or the connection.
pub proof fn law_press_release_events(p: PadModel, b: GamepadButton, x: GamepadButton)
    ensures
        pad_after_event(p, GamepadEvent::ButtonPressed(Some(b))).buttons_down.contains(x) == (x == b
            || p.buttons_down.contains(x)),
        pad_after_event(p, GamepadEvent::ButtonPressed(Some(b))).buttons_just_pressed.contains(x) == (
        p.buttons_just_pressed.contains(x) || (x == b && !p.buttons_down.contains(b))),
        pad_after_event(p, GamepadEvent::ButtonPressed(Some(b))).axes == p.axes,
        pad_after_event(p, GamepadEvent::ButtonReleased(Some(b))).buttons_down.contains(x) == (x != b
            && p.buttons_down.contains(x)),
        pad_after_event(p, GamepadEvent::ButtonReleased(Some(b))).buttons_just_released.contains(x) == (
        p.buttons_just_released.contains(x) || (x == b && p.buttons_down.contains(b))),
        pad_after_event(p, GamepadEvent::ButtonReleased(Some(b))).axes == p.axes,
        pad_after_event(p, GamepadEvent::ButtonPressed(Some(b))).connected == p.connected,
        pad_after_event(p, GamepadEvent::ButtonReleased(Some(b))).connected == p.connected,
{
}

/// Connecting marks the slot connected and changes nothing else;
/// disconnecting marks it disconnected, lets go of every button and
/// forgets every axis, and keeps this poll's edges.
pub proof fn law_connect_disconnect_events(p: PadModel)
    ensures
        pad_after_event(p, GamepadEvent::Connected).connected,
        pad_after_event(p, GamepadEvent::Connected).buttons_down == p.buttons_down,
        pad_after_event(p, GamepadEvent::Connected).axes == p.axes,
        !pad_after_event(p, GamepadEvent::Disconnected).connected,
        pad_after_event(p, GamepadEvent::Disconnected).buttons_down.is_empty(),
        pad_after_event(p, GamepadEvent::Disconnected).axes.is_empty(),
        pad_after_event(p, GamepadEvent::Disconnected).buttons_just_pressed == p.buttons_just_pressed,
        pad_after_event(p, GamepadEvent::Disconnected).buttons_just_released == p.buttons_just_released,
        pad_after_event(p, GamepadEvent::Other) == p,
        pad_after_event(p, GamepadEvent::ButtonPressed(None)) == p,
        pad_after_event(p, GamepadEvent::ButtonReleased(None)) == p,
{
}

/// A slot the browser reports empty reads disconnected, with nothing held
/// and no axis; its edges are left as they were.
pub proof fn law_web_absent(p: PadModel)
    ensures
        !crate::gamepad::pad_after_web_absent(p).connected,
        crate::gamepad::pad_after_web_absent(p).buttons_down.is_empty() || !p.connected,
        crate::gamepad::pad_after_web_absent(p).axes.is_empty() || !p.connected,
        !p.connected ==> crate::gamepad::pad_after_web_absent(p) == p,
        crate::gamepad::pad_after_web_absent(p).buttons_just_pressed == p.buttons_just_pressed,
        crate::gamepad::pad_after_web_absent(p).buttons_just_released == p.buttons_just_released,
{
}

/// The "Standard Gamepad" button layout: face buttons South, East, West,
/// North at 0..3, shoulders at 4 and 5, triggers at 6 and 7, Select and
/// Start at 8 and 9, stick presses at 10 and 11, the DPad up / down /
/// left / right at 12..15, Mode at 16, and nothing beyond; each button has
/// exactly one index.
pub proof fn law_standard_button_layout(i: u32, b: GamepadButton)
    ensures
        crate::buttons::spec_web_button(0) == Some(GamepadButton::South),
        crate::buttons::spec_web_button(1) == Some(GamepadButton::East),
        crate::buttons::spec_web_button(2) == Some(GamepadButton::West),
        crate::buttons::spec_web_button(3) == Some(GamepadButton::North),
        crate::buttons::spec_web_button(4) == Some(GamepadButton::LeftShoulder),
        crate::buttons::spec_web_button(5) == Some(GamepadButton::RightShoulder),
        crate::buttons::spec_web_button(6) == Some(GamepadButton::LeftTrigger),
        crate::buttons::spec_web_button(7) == Some(GamepadButton::RightTrigger),
        crate::buttons::spec_web_button(8) == Some(GamepadButton::Select),
        crate::buttons::spec_web_button(9) == Some(GamepadButton::Start),
        crate::buttons::spec_web_button(10) == Some(GamepadButton::LeftThumb),
        crate::buttons::spec_web_button(11) == Some(GamepadButton::RightThumb),
        crate::buttons::spec_web_button(12) == Some(GamepadButton::DPadUp),
        crate::buttons::spec_web_button(13) == Some(GamepadButton::DPadDown),
        crate::buttons::spec_web_button(14) == Some(GamepadButton::DPadLeft),
        crate::buttons::spec_web_button(15) == Some(GamepadButton::DPadRight),
        crate::buttons::spec_web_button(16) == Some(GamepadButton::Mode),
        i > 16 ==> crate::buttons::spec_web_button(i) is None,
        crate::buttons::spec_web_button(i) == Some(b) ==> i == crate::gamepad::web_index(b),
{
}

/// Only the vertical sticks change sign between the browser's convention
/// (down positive) and this library's (up positive).
pub proof fn law_web_vertical_axes_inverted(a: GamepadAxis)
    ensures
        crate::gamepad::spec_web_axis_inverted(a) <==> (a == GamepadAxis::LeftStickY || a
            == GamepadAxis::RightStickY),
        crate::gamepad::spec_web_stick_axis(0) == Some(GamepadAxis::LeftStickX),
        crate::gamepad::spec_web_stick_axis(1) == Some(GamepadAxis::LeftStickY),
        crate::gamepad::spec_web_stick_axis(2) == Some(GamepadAxis::RightStickX),
        crate::gamepad::spec_web_stick_axis(3) == Some(GamepadAxis::RightStickY),
{
}

/// The unit values are the bit patterns of `0.0`, `1.0` and `-1.0`.
pub proof fn law_unit_values()
    ensures
        crate::float_bits::ZERO_BITS == 0u32,
        crate::float_bits::ONE_BITS == 0x3f80_0000u32,
        crate::float_bits::MINUS_ONE_BITS == 0xbf80_0000u32,
{
}

/// What an axis resolves to: `0.0` or one of the contributions; never a
/// NaN; at least as large in magnitude as every contribution that is not
/// a NaN; and, when it is a contribution, the first one that large.
pub proof fn law_axis_resolution_properties(vals: Seq<u32>, r: u32)
    requires
        crate::state::resolves_to(vals, r),
    ensures
        r % 0x8000_0000 <= 0x7f80_0000,
        forall|j: int| 0 <= j < vals.len() && #[trigger] vals[j] % 0x8000_0000 <= 0x7f80_0000 ==> vals[j]
            % 0x8000_0000 <= r % 0x8000_0000,
        r == 0 || exists|i: int| 0 <= i < vals.len() && #[trigger] vals[i] == r && forall|j: int| 0 <= j < i
            ==> (#[trigger] vals[j] % 0x8000_0000 > 0x7f80_0000 || vals[j] % 0x8000_0000 < r % 0x8000_0000),
{
    if exists|i: int| #[trigger] crate::state::wins_at(vals, i, r) {
        let i = choose|i: int| #[trigger] crate::state::wins_at(vals, i, r);
        assert forall|j: int| 0 <= j < vals.len() && #[trigger] vals[j] % 0x8000_0000 <= 0x7f80_0000 implies vals[j]
            % 0x8000_0000 <= r % 0x8000_0000 by {
            if j < i {
                assert(!crate::float_bits::abs_ge(vals[j], r));
            } else if j > i {
                assert(!crate::float_bits::abs_gt(vals[j], r));
            }
        }
        assert forall|j: int| 0 <= j < i implies (#[trigger] vals[j] % 0x8000_0000 > 0x7f80_0000 || vals[j]
            % 0x8000_0000 < r % 0x8000_0000) by {
            assert(!crate::float_bits::abs_ge(vals[j], r));
        }
    } else {
        assert forall|j: int| 0 <= j < vals.len() && #[trigger] vals[j] % 0x8000_0000 <= 0x7f80_0000 implies vals[j]
            % 0x8000_0000 <= r % 0x8000_0000 by {
            assert(!crate::float_bits::abs_gt(vals[j], crate::float_bits::ZERO_BITS));
        }
    }
}

} // verus!

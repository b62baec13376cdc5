use blinc_core::events::KeyCode;
use blinc_input::{ActionMap, AxisBinding, Binding, EventKind, InputEvent, InputState, MouseButton};

fn blank_evt(kind: EventKind) -> InputEvent {
    InputEvent {
        kind,
        key_code: 0,
        mouse_button: 0,
        local_x: 0.0f32.to_bits(),
        local_y: 0.0f32.to_bits(),
        shift: false,
        ctrl: false,
        alt: false,
        meta: false,
    }
}

/// Records an event the way an event handler does: scroll deltas are
/// summed into the frame's scroll.
fn feed(input: &mut InputState, e: &InputEvent, scroll: (f32, f32)) {
    if input.record(e) {
        let (x, y) = input.scroll_delta();
        input.set_scroll_delta(
            (f32::from_bits(x) + scroll.0).to_bits(),
            (f32::from_bits(y) + scroll.1).to_bits(),
        );
    }
}

fn record(input: &mut InputState, e: &InputEvent) {
    feed(input, e, (0.0, 0.0));
}

fn axis_f32(input: &InputState, name: &str) -> f32 {
    f32::from_bits(input.axis(name))
}

#[test]
fn key_down_sets_held_and_just_pressed() {
    let mut input = InputState::new();
    let mut e = blank_evt(EventKind::KeyDown);
    e.key_code = KeyCode::SPACE.0;
    record(&mut input, &e);

    assert!(input.is_key_down(KeyCode::SPACE.0));
    assert!(input.is_key_just_pressed(KeyCode::SPACE.0));

    // frame_end clears the edge flag but keeps `held`.
    input.frame_end();
    assert!(input.is_key_down(KeyCode::SPACE.0));
    assert!(!input.is_key_just_pressed(KeyCode::SPACE.0));
}

#[test]
fn key_up_clears_held_and_sets_just_released() {
    let mut input = InputState::new();
    let mut e = blank_evt(EventKind::KeyDown);
    e.key_code = KeyCode::A.0;
    record(&mut input, &e);
    input.frame_end();

    let mut e = blank_evt(EventKind::KeyUp);
    e.key_code = KeyCode::A.0;
    record(&mut input, &e);

    assert!(!input.is_key_down(KeyCode::A.0));
    assert!(input.is_key_just_released(KeyCode::A.0));
}

#[test]
fn repeat_key_down_does_not_re_fire_just_pressed_within_frame() {
    let mut input = InputState::new();
    let mut e = blank_evt(EventKind::KeyDown);
    e.key_code = KeyCode::B.0;
    record(&mut input, &e);
    input.frame_end();

    // A second KEY_DOWN (auto-repeat) does not re-trigger just_pressed
    // because the key is already held.
    record(&mut input, &e);
    assert!(input.is_key_down(KeyCode::B.0));
    assert!(!input.is_key_just_pressed(KeyCode::B.0));
}

#[test]
fn pointer_tracks_position_and_buttons() {
    let mut input = InputState::new();
    let mut e = blank_evt(EventKind::PointerMove);
    e.local_x = 42.0f32.to_bits();
    e.local_y = 17.0f32.to_bits();
    record(&mut input, &e);
    let (x, y) = input.mouse_position();
    assert_eq!((f32::from_bits(x), f32::from_bits(y)), (42.0, 17.0));

    let mut down = blank_evt(EventKind::PointerDown);
    down.mouse_button = 0;
    down.local_x = 10.0f32.to_bits();
    down.local_y = 20.0f32.to_bits();
    record(&mut input, &down);
    assert!(input.is_mouse_down(MouseButton::Left));
    assert!(input.is_mouse_just_pressed(MouseButton::Left));

    input.frame_end();
    let mut up = blank_evt(EventKind::PointerUp);
    up.mouse_button = 0;
    record(&mut input, &up);
    assert!(!input.is_mouse_down(MouseButton::Left));
    assert!(input.is_mouse_just_released(MouseButton::Left));
}

#[test]
fn scroll_accumulates_then_clears_on_frame_end() {
    let mut input = InputState::new();
    let e = blank_evt(EventKind::Scroll);
    feed(&mut input, &e, (1.0, -2.0));
    feed(&mut input, &e, (1.0, -2.0));
    let (x, y) = input.scroll_delta();
    assert_eq!((f32::from_bits(x), f32::from_bits(y)), (2.0, -4.0));

    input.frame_end();
    let (x, y) = input.scroll_delta();
    assert_eq!((f32::from_bits(x), f32::from_bits(y)), (0.0, 0.0));
}

#[test]
fn modifiers_reflect_latest_event() {
    let mut input = InputState::new();
    let mut e = blank_evt(EventKind::KeyDown);
    e.shift = true;
    e.ctrl = false;
    e.key_code = KeyCode::Z.0;
    record(&mut input, &e);
    let m = input.modifiers();
    assert!(m.shift());
    assert!(!m.ctrl());
}

#[test]
fn action_down_resolves_via_key_binding() {
    let mut input = InputState::new();
    let mut map = ActionMap::new();
    map.bind_action("jump", Binding::Key(KeyCode::SPACE.0));
    input.set_actions(map);

    assert!(!input.action_down("jump"));
    let mut e = blank_evt(EventKind::KeyDown);
    e.key_code = KeyCode::SPACE.0;
    record(&mut input, &e);
    assert!(input.action_down("jump"));
}

#[test]
fn action_down_any_binding_fires() {
    let mut input = InputState::new();
    let mut map = ActionMap::new();
    map.bind_action("fire", Binding::Mouse(MouseButton::Left));
    map.bind_action("fire", Binding::Key(b'F' as u32));
    input.set_actions(map);

    // Mouse binding: fires.
    let mut md = blank_evt(EventKind::PointerDown);
    md.mouse_button = 0;
    record(&mut input, &md);
    assert!(input.action_down("fire"));
    let mut mu = blank_evt(EventKind::PointerUp);
    mu.mouse_button = 0;
    record(&mut input, &mu);
    assert!(!input.action_down("fire"));

    // Key binding: also fires.
    let mut kd = blank_evt(EventKind::KeyDown);
    kd.key_code = b'F' as u32;
    record(&mut input, &kd);
    assert!(input.action_down("fire"));
}

#[test]
fn action_just_pressed_tracks_edge() {
    let mut input = InputState::new();
    let mut map = ActionMap::new();
    map.bind_action("jump", Binding::Key(KeyCode::SPACE.0));
    input.set_actions(map);

    let mut e = blank_evt(EventKind::KeyDown);
    e.key_code = KeyCode::SPACE.0;
    record(&mut input, &e);
    assert!(input.action_just_pressed("jump"));
    // Still held next frame, but the edge is gone after frame_end.
    input.frame_end();
    assert!(!input.action_just_pressed("jump"));
    assert!(input.action_down("jump"));
}

#[test]
fn axis_key_pair_returns_minus_plus_or_zero() {
    let mut input = InputState::new();
    let mut map = ActionMap::new();
    map.bind_axis(
        "move_x",
        AxisBinding::KeyPair {
            negative: b'A' as u32,
            positive: b'D' as u32,
        },
    );
    input.set_actions(map);

    assert_eq!(axis_f32(&input, "move_x"), 0.0);
    let mut a_down = blank_evt(EventKind::KeyDown);
    a_down.key_code = b'A' as u32;
    record(&mut input, &a_down);
    assert_eq!(axis_f32(&input, "move_x"), -1.0);
    // Pressing D while A is held cancels to 0.
    let mut d_down = blank_evt(EventKind::KeyDown);
    d_down.key_code = b'D' as u32;
    record(&mut input, &d_down);
    assert_eq!(axis_f32(&input, "move_x"), 0.0);
}

#[test]
fn axis_largest_magnitude_wins_across_bindings() {
    let mut input = InputState::new();
    let mut map = ActionMap::new();
    map.bind_axis(
        "move_x",
        AxisBinding::KeyPair {
            negative: b'A' as u32,
            positive: b'D' as u32,
        },
    );
    input.set_actions(map);

    let mut a_down = blank_evt(EventKind::KeyDown);
    a_down.key_code = b'A' as u32;
    record(&mut input, &a_down);
    assert_eq!(axis_f32(&input, "move_x"), -1.0);
}

#[test]
fn unknown_action_and_axis_names_return_defaults() {
    let mut input = InputState::new();
    input.set_actions(ActionMap::new());
    assert!(!input.action_down("nope"));
    assert!(!input.action_just_pressed("nope"));
    assert_eq!(axis_f32(&input, "nope"), 0.0);
}

#[test]
fn action_map_clear_removes_bindings() {
    let mut input = InputState::new();
    let mut map = ActionMap::new();
    map.bind_action("jump", Binding::Key(KeyCode::SPACE.0));
    map.clear_action("jump");
    input.set_actions(map);

    let mut e = blank_evt(EventKind::KeyDown);
    e.key_code = KeyCode::SPACE.0;
    record(&mut input, &e);
    // The binding was cleared before install: the action does not fire.
    assert!(!input.action_down("jump"));
}

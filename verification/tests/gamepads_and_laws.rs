use blinc_input::{
    map_web_button_index, web_axis_inverted, web_stick_axis, ActionMap, AxisBinding, Binding,
    EventKind, GamepadAxis, GamepadButton, GamepadEvent, GamepadEventRecord, InputEvent,
    InputState, Modifiers, MouseButton, WebButtonReading, WebPadReading, MINUS_ONE_BITS, ONE_BITS,
    ZERO_BITS,
};

fn evt(kind: EventKind, key_code: u32) -> InputEvent {
    InputEvent {
        kind,
        key_code,
        mouse_button: 0,
        local_x: 0.0f32.to_bits(),
        local_y: 0.0f32.to_bits(),
        shift: false,
        ctrl: false,
        alt: false,
        meta: false,
    }
}

fn ev(id: usize, event: GamepadEvent) -> GamepadEventRecord {
    GamepadEventRecord { id, event }
}

fn snapshot_keys(s: &InputState, key: u32) -> (bool, bool, bool) {
    (
        s.is_key_down(key),
        s.is_key_just_pressed(key),
        s.is_key_just_released(key),
    )
}

#[test]
fn recording_an_event_twice_equals_once() {
    let mut once = InputState::new();
    let mut twice = InputState::new();
    for kind in [EventKind::KeyDown, EventKind::KeyUp] {
        let e = evt(kind, 7);
        once.record(&e);
        twice.record(&e);
        twice.record(&e);
        assert_eq!(snapshot_keys(&once, 7), snapshot_keys(&twice, 7));
    }
    let mut down = evt(EventKind::PointerDown, 0);
    down.mouse_button = 2;
    once.record(&down);
    twice.record(&down);
    twice.record(&down);
    assert_eq!(
        once.is_mouse_just_pressed(MouseButton::Right),
        twice.is_mouse_just_pressed(MouseButton::Right)
    );
    assert!(twice.is_mouse_down(MouseButton::Right));
}

#[test]
fn frame_end_keeps_held_and_is_idempotent() {
    let mut s = InputState::new();
    s.record(&evt(EventKind::KeyDown, 1));
    let mut mv = evt(EventKind::PointerMove, 0);
    mv.local_x = 3.5f32.to_bits();
    s.record(&mv);
    s.set_scroll_delta(1.0f32.to_bits(), 2.0f32.to_bits());
    s.frame_end();
    s.frame_end();
    assert_eq!(snapshot_keys(&s, 1), (true, false, false));
    assert_eq!(s.mouse_position().0, 3.5f32.to_bits());
    assert_eq!(s.scroll_delta(), (ZERO_BITS, ZERO_BITS));
}

#[test]
fn press_and_release_within_one_frame() {
    let mut s = InputState::new();
    s.record(&evt(EventKind::KeyDown, 9));
    s.record(&evt(EventKind::KeyUp, 9));
    assert_eq!(snapshot_keys(&s, 9), (false, true, true));
    // Releasing a key that was never held records no edge.
    s.frame_end();
    s.record(&evt(EventKind::KeyUp, 10));
    assert_eq!(snapshot_keys(&s, 10), (false, false, false));
}

#[test]
fn record_reports_scroll_events_only() {
    let mut s = InputState::new();
    assert!(s.record(&evt(EventKind::Scroll, 0)));
    assert!(!s.record(&evt(EventKind::KeyDown, 1)));
    assert!(!s.record(&evt(EventKind::Other, 0)));
    assert_eq!(s.scroll_delta(), (ZERO_BITS, ZERO_BITS));
}

#[test]
fn other_events_only_update_modifiers() {
    let mut s = InputState::new();
    let mut e = evt(EventKind::Other, 5);
    e.alt = true;
    e.meta = true;
    e.local_x = 8.0f32.to_bits();
    s.record(&e);
    assert!(!s.is_key_down(5));
    assert_eq!(s.mouse_position(), (ZERO_BITS, ZERO_BITS));
    let m = s.modifiers();
    assert!(m.alt() && m.meta() && !m.shift() && !m.ctrl());
    assert!(m.any());
    assert!(!Modifiers::none().any());
    assert_eq!(Modifiers::new(true, false, false, false), Modifiers { shift: true, ctrl: false, alt: false, meta: false });
}

#[test]
fn mouse_button_indices_map_to_buttons() {
    assert_eq!(MouseButton::from_index(0), MouseButton::Left);
    assert_eq!(MouseButton::from_index(1), MouseButton::Middle);
    assert_eq!(MouseButton::from_index(2), MouseButton::Right);
    assert_eq!(MouseButton::from_index(3), MouseButton::Other(3));
    assert_eq!(MouseButton::from_index(255), MouseButton::Other(255));
}

#[test]
fn web_button_indices_follow_standard_layout() {
    assert_eq!(map_web_button_index(0), Some(GamepadButton::South));
    assert_eq!(map_web_button_index(3), Some(GamepadButton::North));
    assert_eq!(map_web_button_index(6), Some(GamepadButton::LeftTrigger));
    assert_eq!(map_web_button_index(9), Some(GamepadButton::Start));
    assert_eq!(map_web_button_index(15), Some(GamepadButton::DPadRight));
    assert_eq!(map_web_button_index(16), Some(GamepadButton::Mode));
    assert_eq!(map_web_button_index(17), None);
    assert_eq!(web_stick_axis(1), Some(GamepadAxis::LeftStickY));
    assert_eq!(web_stick_axis(4), None);
    assert!(web_axis_inverted(GamepadAxis::RightStickY));
    assert!(!web_axis_inverted(GamepadAxis::RightStickX));
}

#[test]
fn action_bindings_compose_by_or_and_clear() {
    let mut s = InputState::new();
    let mut map = ActionMap::new();
    map.bind_action("go", Binding::Key(1))
        .bind_action("go", Binding::GamepadButton { slot: 0, button: GamepadButton::South })
        .bind_axis("x", AxisBinding::KeyPair { negative: 1, positive: 2 });
    assert_eq!(map.actions().len(), 1);
    assert_eq!(map.actions()[0].name(), "go");
    assert_eq!(map.actions()[0].bindings().len(), 2);
    assert_eq!(map.axes().len(), 1);
    map.clear_axis("x");
    assert_eq!(map.axes().len(), 0);
    s.set_actions(map.clone());
    assert!(!s.action_down("go"));
    s.poll_gamepad_events(&[
        ev(42, GamepadEvent::Connected),
        ev(42, GamepadEvent::ButtonPressed(Some(GamepadButton::South))),
    ]);
    assert!(s.action_down("go"));
    assert!(s.action_just_pressed("go"));
    assert!(!s.action_just_released("go"));
    s.poll_gamepad_events(&[ev(42, GamepadEvent::ButtonReleased(Some(GamepadButton::South)))]);
    assert!(!s.action_down("go"));
    assert!(!s.action_just_pressed("go"));
    assert!(s.action_just_released("go"));
    assert!(!s.action_just_released("unknown"));
    assert_eq!(s.axis("x"), ZERO_BITS);
}

#[test]
fn gamepad_slots_are_compact_and_stable() {
    let mut s = InputState::new();
    s.poll_gamepad_events(&[
        ev(7, GamepadEvent::Connected),
        ev(3, GamepadEvent::Connected),
        ev(7, GamepadEvent::ButtonPressed(Some(GamepadButton::East))),
    ]);
    assert_eq!(s.gamepad_count(), 2);
    assert!(s.is_gamepad_button_down(0, GamepadButton::East));
    assert!(!s.is_gamepad_button_down(1, GamepadButton::East));
    // Unmapped buttons and other events still claim a slot but change nothing.
    s.poll_gamepad_events(&[
        ev(9, GamepadEvent::Other),
        ev(3, GamepadEvent::ButtonPressed(None)),
    ]);
    assert_eq!(s.gamepad_count(), 3);
    assert!(!s.is_gamepad_connected(2));
    assert!(s.is_gamepad_connected(1));
    // Edges last one poll.
    assert!(!s.is_gamepad_button_just_pressed(0, GamepadButton::East));
    assert!(s.is_gamepad_button_down(0, GamepadButton::East));
}

#[test]
fn disconnect_reads_as_released_and_zero() {
    let mut s = InputState::new();
    s.poll_gamepad_events(&[
        ev(1, GamepadEvent::Connected),
        ev(1, GamepadEvent::ButtonPressed(Some(GamepadButton::North))),
        ev(1, GamepadEvent::AxisChanged(Some(GamepadAxis::LeftStickX), 0.75f32.to_bits())),
    ]);
    assert_eq!(f32::from_bits(s.gamepad_axis(0, GamepadAxis::LeftStickX)), 0.75);
    s.poll_gamepad_events(&[ev(1, GamepadEvent::Disconnected)]);
    assert!(!s.is_gamepad_connected(0));
    assert!(!s.is_gamepad_button_down(0, GamepadButton::North));
    assert_eq!(s.gamepad_axis(0, GamepadAxis::LeftStickX), ZERO_BITS);
    // Reconnecting keeps the slot but the held state was dropped.
    s.poll_gamepad_events(&[ev(1, GamepadEvent::Connected)]);
    assert_eq!(s.gamepad_count(), 1);
    assert!(!s.is_gamepad_button_down(0, GamepadButton::North));
    assert_eq!(s.gamepad_axis(5, GamepadAxis::LeftStickX), ZERO_BITS);
}

#[test]
fn trigger_button_values_feed_trigger_axes() {
    let mut s = InputState::new();
    s.poll_gamepad_events(&[
        ev(0, GamepadEvent::Connected),
        ev(0, GamepadEvent::ButtonChanged(Some(GamepadButton::RightTrigger), 0.25f32.to_bits())),
        ev(0, GamepadEvent::ButtonChanged(Some(GamepadButton::South), 0.5f32.to_bits())),
    ]);
    assert_eq!(f32::from_bits(s.gamepad_axis(0, GamepadAxis::RightTrigger)), 0.25);
    assert_eq!(s.gamepad_axis(0, GamepadAxis::LeftTrigger), ZERO_BITS);
}

#[test]
fn axis_threshold_binding_compares_absolute_value_and_has_no_edge() {
    let mut s = InputState::new();
    let mut map = ActionMap::new();
    map.bind_action(
        "throttle",
        Binding::GamepadAxisThreshold { slot: 0, axis: GamepadAxis::LeftStickY, threshold: 0.5f32.to_bits() },
    );
    map.bind_action(
        "any",
        Binding::GamepadAxisThreshold { slot: 0, axis: GamepadAxis::LeftStickY, threshold: (-0.5f32).to_bits() },
    );
    s.set_actions(map);
    s.poll_gamepad_events(&[
        ev(0, GamepadEvent::Connected),
        ev(0, GamepadEvent::AxisChanged(Some(GamepadAxis::LeftStickY), (-0.6f32).to_bits())),
    ]);
    assert!(s.action_down("throttle"));
    assert!(!s.action_just_pressed("throttle"));
    s.poll_gamepad_events(&[ev(0, GamepadEvent::AxisChanged(Some(GamepadAxis::LeftStickY), 0.4f32.to_bits()))]);
    assert!(!s.action_down("throttle"));
    s.poll_gamepad_events(&[ev(0, GamepadEvent::AxisChanged(Some(GamepadAxis::LeftStickY), 0.5f32.to_bits()))]);
    assert!(s.action_down("throttle"));
    // A negative threshold is reached by any value: |0.2| >= -0.5.
    s.poll_gamepad_events(&[ev(0, GamepadEvent::AxisChanged(Some(GamepadAxis::LeftStickY), 0.2f32.to_bits()))]);
    assert!(!s.action_down("throttle"));
    assert!(s.action_down("any"));
    assert!(!s.action_just_pressed("any"));
    s.poll_gamepad_events(&[ev(0, GamepadEvent::AxisChanged(Some(GamepadAxis::LeftStickY), f32::NAN.to_bits()))]);
    assert!(!s.action_down("throttle"));
    assert!(!s.action_down("any"));
    // No value reported on a missing slot: not held.
    let b = Binding::GamepadAxisThreshold { slot: 4, axis: GamepadAxis::LeftStickY, threshold: (-1.0f32).to_bits() };
    assert!(!s.binding_is_active(&b));
}

#[test]
fn binding_reads_match_queries() {
    let mut s = InputState::new();
    s.record(&evt(EventKind::KeyDown, 11));
    let mut down = evt(EventKind::PointerDown, 0);
    down.mouse_button = 1;
    s.record(&down);
    s.poll_gamepad_events(&[
        ev(5, GamepadEvent::Connected),
        ev(5, GamepadEvent::ButtonPressed(Some(GamepadButton::West))),
        ev(5, GamepadEvent::AxisChanged(Some(GamepadAxis::RightStickX), 0.3f32.to_bits())),
    ]);
    assert!(s.binding_is_active(&Binding::Key(11)));
    assert!(s.binding_just_pressed(&Binding::Key(11)));
    assert!(!s.binding_just_released(&Binding::Key(11)));
    assert!(s.binding_is_active(&Binding::Mouse(MouseButton::Middle)));
    assert!(s.binding_is_active(&Binding::GamepadButton { slot: 0, button: GamepadButton::West }));
    assert!(s.binding_just_pressed(&Binding::GamepadButton { slot: 0, button: GamepadButton::West }));
    assert!(!s.binding_is_active(&Binding::GamepadButton { slot: 1, button: GamepadButton::West }));
    assert_eq!(s.axis_value(&AxisBinding::GamepadAxis { slot: 0, axis: GamepadAxis::RightStickX }), 0.3f32.to_bits());
    assert_eq!(s.axis_value(&AxisBinding::KeyPair { negative: 11, positive: 12 }), MINUS_ONE_BITS);
    assert_eq!(s.axis_value(&AxisBinding::KeyPair { negative: 12, positive: 11 }), ONE_BITS);
    assert_eq!(
        s.axis_value(&AxisBinding::GamepadButtonPair { slot: 3, negative: GamepadButton::West, positive: GamepadButton::East }),
        ZERO_BITS
    );
}

#[test]
fn whole_poll_keeps_only_this_polls_edges() {
    let mut s = InputState::new();
    s.poll_gamepad_events(&[
        ev(1, GamepadEvent::Connected),
        ev(1, GamepadEvent::ButtonPressed(Some(GamepadButton::South))),
        ev(2, GamepadEvent::Connected),
    ]);
    // Press and release within one poll: both edges, nothing held.
    s.poll_gamepad_events(&[
        ev(2, GamepadEvent::ButtonPressed(Some(GamepadButton::North))),
        ev(2, GamepadEvent::ButtonReleased(Some(GamepadButton::North))),
        ev(1, GamepadEvent::ButtonPressed(Some(GamepadButton::South))),
    ]);
    assert!(s.is_gamepad_button_just_pressed(1, GamepadButton::North));
    assert!(s.is_gamepad_button_just_released(1, GamepadButton::North));
    assert!(!s.is_gamepad_button_down(1, GamepadButton::North));
    // South was already held: pressing again is no edge, and the edge
    // from the earlier poll is gone.
    assert!(!s.is_gamepad_button_just_pressed(0, GamepadButton::South));
    assert!(s.is_gamepad_button_down(0, GamepadButton::South));
    s.poll_gamepad_events(&[]);
    assert!(!s.is_gamepad_button_just_released(1, GamepadButton::North));
}

#[test]
fn disconnect_within_a_poll_reads_neutral_and_axis_keeps_last_value() {
    let mut s = InputState::new();
    s.poll_gamepad_events(&[
        ev(8, GamepadEvent::Connected),
        ev(8, GamepadEvent::AxisChanged(Some(GamepadAxis::LeftStickX), 0.1f32.to_bits())),
        ev(8, GamepadEvent::AxisChanged(Some(GamepadAxis::LeftStickX), 0.9f32.to_bits())),
        ev(8, GamepadEvent::ButtonPressed(Some(GamepadButton::Start))),
        ev(8, GamepadEvent::AxisChanged(Some(GamepadAxis::LeftStickY), 0.2f32.to_bits())),
    ]);
    assert_eq!(f32::from_bits(s.gamepad_axis(0, GamepadAxis::LeftStickX)), 0.9);
    s.poll_gamepad_events(&[
        ev(8, GamepadEvent::Disconnected),
        ev(9, GamepadEvent::Connected),
    ]);
    assert_eq!(s.gamepad_count(), 2);
    assert!(!s.is_gamepad_connected(0));
    assert!(!s.is_gamepad_button_down(0, GamepadButton::Start));
    assert_eq!(s.gamepad_axis(0, GamepadAxis::LeftStickX), ZERO_BITS);
    assert!(s.is_gamepad_connected(1));
}

#[test]
fn listed_bindings_are_never_empty() {
    let mut map = ActionMap::new();
    map.bind_action("a", Binding::Key(1));
    map.bind_action("b", Binding::Key(2));
    map.clear_action("a");
    map.bind_action("b", Binding::Key(3));
    assert_eq!(map.actions().len(), 1);
    assert_eq!(map.actions()[0].name(), "b");
    assert_eq!(map.actions()[0].bindings().len(), 2);
    assert!(map.actions().iter().all(|e| !e.bindings().is_empty()));
}

#[test]
fn default_snapshot_is_disconnected() {
    let g = blinc_input::GamepadSnapshot::default();
    assert!(!g.connected());
    assert!(!g.is_button_down(GamepadButton::South));
    assert_eq!(g.axis(GamepadAxis::LeftTrigger), None);
}

#[test]
fn axis_picks_largest_magnitude_first_on_ties() {
    let mut s = InputState::new();
    let mut map = ActionMap::new();
    map.bind_axis("steer", AxisBinding::KeyPair { negative: 65, positive: 68 });
    map.bind_axis("steer", AxisBinding::GamepadAxis { slot: 0, axis: GamepadAxis::LeftStickX });
    map.bind_axis(
        "steer",
        AxisBinding::GamepadButtonPair { slot: 0, negative: GamepadButton::DPadLeft, positive: GamepadButton::DPadRight },
    );
    s.set_actions(map);
    s.poll_gamepad_events(&[
        ev(0, GamepadEvent::Connected),
        ev(0, GamepadEvent::AxisChanged(Some(GamepadAxis::LeftStickX), 0.5f32.to_bits())),
    ]);
    assert_eq!(f32::from_bits(s.axis("steer")), 0.5);
    s.record(&evt(EventKind::KeyDown, 65));
    assert_eq!(s.axis("steer"), MINUS_ONE_BITS);
    s.record(&evt(EventKind::KeyUp, 65));
    s.poll_gamepad_events(&[ev(0, GamepadEvent::ButtonPressed(Some(GamepadButton::DPadRight)))]);
    assert_eq!(s.axis("steer"), ONE_BITS);
    // A stick at -1.0 ties with the DPad's +1.0: the earlier binding wins.
    s.poll_gamepad_events(&[ev(0, GamepadEvent::AxisChanged(Some(GamepadAxis::LeftStickX), (-1.0f32).to_bits()))]);
    assert_eq!(s.axis("steer"), MINUS_ONE_BITS);
    // NaN never wins.
    s.poll_gamepad_events(&[
        ev(0, GamepadEvent::ButtonReleased(Some(GamepadButton::DPadRight))),
        ev(0, GamepadEvent::AxisChanged(Some(GamepadAxis::LeftStickX), f32::NAN.to_bits())),
    ]);
    assert_eq!(s.axis("steer"), ZERO_BITS);
}

fn reading(connected: bool, pressed: &[usize], lt: f32, sticks: [f32; 4]) -> WebPadReading {
    let mut buttons = Vec::new();
    for i in 0..17 {
        let value = if i == 6 { lt } else { 0.0 };
        buttons.push(Some(WebButtonReading { pressed: pressed.contains(&i), value: value.to_bits() }));
    }
    WebPadReading {
        connected,
        buttons,
        axes: sticks.iter().map(|v| Some(v.to_bits())).collect(),
    }
}

#[test]
fn web_poll_tracks_edges_triggers_and_sticks() {
    let mut s = InputState::new();
    s.poll_web_gamepads(&[None, Some(reading(true, &[0], 0.3, [0.1, -0.2, 0.0, 0.0]))]);
    assert_eq!(s.gamepad_count(), 2);
    assert!(!s.is_gamepad_connected(0));
    assert!(s.is_gamepad_button_down(1, GamepadButton::South));
    assert!(s.is_gamepad_button_just_pressed(1, GamepadButton::South));
    assert_eq!(f32::from_bits(s.gamepad_axis(1, GamepadAxis::LeftTrigger)), 0.3);
    assert_eq!(f32::from_bits(s.gamepad_axis(1, GamepadAxis::LeftStickY)), -0.2);
    s.poll_web_gamepads(&[None, Some(reading(true, &[], 0.0, [0.0, 0.0, 0.0, 0.0]))]);
    assert!(!s.is_gamepad_button_down(1, GamepadButton::South));
    assert!(!s.is_gamepad_button_just_pressed(1, GamepadButton::South));
    assert!(s.is_gamepad_button_just_released(1, GamepadButton::South));
    // The browser drops the pad: it disconnects and reads neutral.
    s.poll_web_gamepads(&[None, None]);
    assert!(!s.is_gamepad_connected(1));
    assert_eq!(s.gamepad_axis(1, GamepadAxis::LeftTrigger), ZERO_BITS);
    assert_eq!(s.gamepad_count(), 2);
}

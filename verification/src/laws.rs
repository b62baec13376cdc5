//! Properties of the snapshot that span several operations.

use vstd::prelude::*;
use crate::action_map::{ActionMapModel, AxisBinding, Binding, map_bind};
use crate::buttons::{GamepadAxis, GamepadButton};
use crate::float_bits::{ZERO_BITS, ONE_BITS, MINUS_ONE_BITS, abs_ge, abs_gt, abs_reaches, is_nan, is_negative};
use crate::gamepad::{GamepadEvent, PadModel, empty_pad, pad_after_event, spec_trigger_axis};
use crate::state::{
    EventKind, GamepadEventRecord, InputEvent, InputModel, action_bindings, action_is_down,
    after_gamepad_event, after_gamepad_events, after_web_poll, axis_contribution,
    axis_contributions, binding_active, binding_pressed_edge, binding_released_edge,
    frame_ended, gamepad_edges_cleared, live_axis, live_pad, pair_value, recorded, resolves_to,
    wins_at, slots_valid,
};
use crate::gamepad::WebPadReading;

verus! {

/// `m` with its action map replaced.
pub open spec fn with_actions(m: InputModel, a: ActionMapModel) -> InputModel {
    InputModel { actions: a, ..m }
}

/// Recording the same event twice is recording it once: an auto-repeated
/// key-down (or a repeated pointer-down) does not fire "just pressed"
/// again, and a repeated release does not fire "just released" again.
pub proof fn law_record_idempotent(m: InputModel, e: InputEvent)
    ensures
        recorded(recorded(m, e), e) == recorded(m, e),
{
    let once = recorded(m, e);
    let twice = recorded(once, e);
    assert(twice.keys_down =~= once.keys_down);
    assert(twice.keys_just_pressed =~= once.keys_just_pressed);
    assert(twice.keys_just_released =~= once.keys_just_released);
    assert(twice.buttons_down =~= once.buttons_down);
    assert(twice.buttons_just_pressed =~= once.buttons_just_pressed);
    assert(twice.buttons_just_released =~= once.buttons_just_released);
}

/// Ending a frame clears the key and mouse edges and the scroll, keeps
/// everything held, the pointer and the modifiers, and ending it again
/// changes nothing.
pub proof fn law_frame_end_keeps_held(m: InputModel)
    ensures
        frame_ended(m).keys_down == m.keys_down,
        frame_ended(m).buttons_down == m.buttons_down,
        frame_ended(m).mouse_x == m.mouse_x && frame_ended(m).mouse_y == m.mouse_y,
        frame_ended(m).modifiers == m.modifiers,
        frame_ended(m).gamepads == m.gamepads,
        frame_ended(m).keys_just_pressed.is_empty(),
        frame_ended(m).keys_just_released.is_empty(),
        frame_ended(m).buttons_just_pressed.is_empty(),
        frame_ended(m).buttons_just_released.is_empty(),
        frame_ended(m).scroll_x == ZERO_BITS && frame_ended(m).scroll_y == ZERO_BITS,
        frame_ended(frame_ended(m)) == frame_ended(m),
{
}

/// A key pressed and released within one frame is no longer held and
/// reads as just released; it reads as just pressed exactly when it was
/// not already held.
pub proof fn law_press_release_same_frame(m: InputModel, down: InputEvent, up: InputEvent)
    requires
        down.kind == EventKind::KeyDown,
        up.kind == EventKind::KeyUp,
        down.key_code == up.key_code,
    ensures
        !recorded(recorded(m, down), up).keys_down.contains(down.key_code),
        recorded(recorded(m, down), up).keys_just_released.contains(down.key_code),
        recorded(recorded(m, down), up).keys_just_pressed.contains(down.key_code) == (
        m.keys_just_pressed.contains(down.key_code) || !m.keys_down.contains(down.key_code)),
{
}

/// The modifier flags always follow the most recent event, whatever its
/// kind.
pub proof fn law_modifiers_follow_latest(m: InputModel, e: InputEvent)
    ensures
        recorded(m, e).modifiers.shift == e.shift,
        recorded(m, e).modifiers.ctrl == e.ctrl,
        recorded(m, e).modifiers.alt == e.alt,
        recorded(m, e).modifiers.meta == e.meta,
{
}

/// Bindings of one action compose by OR: after registering one more
/// binding, the action is held exactly when it was held before or the
/// new binding is active.
pub proof fn law_bind_action_is_or(m: InputModel, a: ActionMapModel, name: Seq<char>, b: Binding)
    ensures
        action_is_down(with_actions(m, ActionMapModel { actions: map_bind(a.actions, name, b), ..a }), name)
            == (action_is_down(with_actions(m, a), name) || binding_active(m, b)),
{
    let m1 = with_actions(m, a);
    let m2 = with_actions(m, ActionMapModel { actions: map_bind(a.actions, name, b), ..a });
    let bs1 = action_bindings(m1, name);
    let bs2 = action_bindings(m2, name);
    assert(bs2 =~= bs1.push(b));
    if action_is_down(m2, name) {
        let i = choose|i: int| 0 <= i < bs2.len() && binding_active(m2, #[trigger] bs2[i]);
        assert(binding_active(m, bs2[i]));
        if i < bs1.len() {
            assert(bs2[i] == bs1[i]);
            assert(binding_active(m1, bs1[i]));
        }
    }
    if action_is_down(m1, name) {
        let i = choose|i: int| 0 <= i < bs1.len() && binding_active(m1, #[trigger] bs1[i]);
        assert(bs2[i] == bs1[i]);
        assert(binding_active(m2, bs2[i]));
    }
    if binding_active(m, b) {
        assert(bs2[bs1.len() as int] == b);
        assert(binding_active(m2, bs2[bs1.len() as int]));
    }
}

/// An action whose bindings were cleared, or that was never bound, is
/// never held.
pub proof fn law_cleared_action_is_up(m: InputModel, a: ActionMapModel, name: Seq<char>)
    ensures
        !action_is_down(with_actions(m, ActionMapModel { actions: a.actions.remove(name), ..a }), name),
{
}

/// A virtual axis resolves to exactly one value: the axis contract pins
/// the result down.
pub proof fn law_axis_resolution_unique(vals: Seq<u32>, r1: u32, r2: u32)
    requires
        resolves_to(vals, r1),
        resolves_to(vals, r2),
    ensures
        r1 == r2,
{
    if exists|i: int| #[trigger] wins_at(vals, i, r1) {
        let i1 = choose|i: int| #[trigger] wins_at(vals, i, r1);
        if exists|i: int| #[trigger] wins_at(vals, i, r2) {
            let i2 = choose|i: int| #[trigger] wins_at(vals, i, r2);
            if i1 < i2 {
                assert(!abs_ge(vals[i1], r2));
                assert(!abs_gt(vals[i2], r1));
            } else if i2 < i1 {
                assert(!abs_ge(vals[i2], r1));
                assert(!abs_gt(vals[i1], r2));
            }
        } else {
            assert(!abs_gt(vals[i1], ZERO_BITS));
        }
    } else if exists|i: int| #[trigger] wins_at(vals, i, r2) {
        let i2 = choose|i: int| #[trigger] wins_at(vals, i, r2);
        assert(!abs_gt(vals[i2], ZERO_BITS));
    }
}

/// An unknown axis name reads `0.0`.
pub proof fn law_unknown_axis_is_zero(m: InputModel, name: Seq<char>, r: u32)
    requires
        !m.actions.axes.contains_key(name),
        resolves_to(axis_contributions(m, name), r),
    ensures
        r == ZERO_BITS,
{
}

/// A key pair contributes `0.0` when both keys are held: they cancel.
pub proof fn law_key_pair_cancels(negative: bool, positive: bool)
    ensures
        negative && positive ==> pair_value(negative, positive) == ZERO_BITS,
        !negative && !positive ==> pair_value(negative, positive) == ZERO_BITS,
{
}

/// After a controller disconnects, its slot reads as released on every
/// button and `0.0` on every axis.
pub proof fn law_disconnect_reads_neutral(m: InputModel, id: usize, b: GamepadButton, a: GamepadAxis)
    requires
        slots_valid(m),
    ensures
        ({
            let after = after_gamepad_event(m, id, GamepadEvent::Disconnected);
            let slot = after.gamepad_slots[id];
            &&& after.gamepad_slots.contains_key(id)
            &&& live_pad(after, slot) is None
            &&& live_axis(after, slot, a) == ZERO_BITS
            &&& !binding_active(after, Binding::GamepadButton { slot, button: b })
        }),
{
    let after = after_gamepad_event(m, id, GamepadEvent::Disconnected);
    if m.gamepad_slots.contains_key(id) {
        assert(after.gamepads[m.gamepad_slots[id] as int].connected == false);
    } else {
        assert(after.gamepads[m.gamepads.len() as int].connected == false);
    }
}

/// Controller slots are stable: an event never moves a controller that
/// already has a slot, and a controller seen for the first time takes
/// the next index, so slot indices stay compact.
pub proof fn law_gamepad_slots_stable(m: InputModel, id: usize, e: GamepadEvent, other: usize)
    requires
        slots_valid(m),
        m.gamepad_slots.contains_key(other),
    ensures
        after_gamepad_event(m, id, e).gamepad_slots.contains_key(other),
        after_gamepad_event(m, id, e).gamepad_slots[other] == m.gamepad_slots[other],
        !m.gamepad_slots.contains_key(id) ==> after_gamepad_event(m, id, e).gamepad_slots[id]
            == m.gamepads.len(),
        after_gamepad_event(m, id, e).gamepads.len() >= m.gamepads.len(),
{
}

/// A browser poll grows the slots to at least the browser's count and
/// never drops a slot.
pub proof fn law_web_poll_grows(m: InputModel, pads: Seq<Option<WebPadReading>>)
    ensures
        after_web_poll(m, pads).gamepads.len() >= pads.len(),
        after_web_poll(m, pads).gamepads.len() >= m.gamepads.len(),
{
}

/// Gamepad edges last one poll: a poll that drains no events leaves every
/// slot with no press or release edge, and with its held buttons,
/// connection and axes unchanged.
pub proof fn law_quiet_poll_clears_only_edges(m: InputModel, i: int)
    requires
        0 <= i < m.gamepads.len(),
    ensures
        ({
            let after = after_gamepad_events(gamepad_edges_cleared(m), Seq::<GamepadEventRecord>::empty());
            &&& after.gamepads.len() == m.gamepads.len()
            &&& after.gamepads[i].buttons_just_pressed.is_empty()
            &&& after.gamepads[i].buttons_just_released.is_empty()
            &&& after.gamepads[i].buttons_down == m.gamepads[i].buttons_down
            &&& after.gamepads[i].connected == m.gamepads[i].connected
            &&& after.gamepads[i].axes == m.gamepads[i].axes
        }),
{
}

/// Each kind of binding reads the state the matching query reads: a key
/// binding is active exactly when the key is held, a mouse binding when
/// the button is held, a pad button when the button is held on a live
/// pad; edges likewise; axis thresholds never carry an edge; an axis
/// binding on a stick passes the pad's last value through unchanged, and
/// a key or button pair gives -1 / +1 / 0, reading 0 on a missing or
/// disconnected slot.
pub proof fn law_binding_reads_match_queries(
    m: InputModel,
    k: u32,
    btn: crate::buttons::MouseButton,
    slot: usize,
    pb: GamepadButton,
    a: GamepadAxis,
    t: u32,
    n: GamepadButton,
    p: GamepadButton,
    kn: u32,
    kp: u32,
)
    ensures
        binding_active(m, Binding::Key(k)) == m.keys_down.contains(k),
        binding_active(m, Binding::Mouse(btn)) == m.buttons_down.contains(btn),
        binding_active(m, Binding::GamepadButton { slot, button: pb }) == (live_pad(m, slot) is Some
            && m.gamepads[slot as int].buttons_down.contains(pb)),
        binding_pressed_edge(m, Binding::Key(k)) == m.keys_just_pressed.contains(k),
        binding_pressed_edge(m, Binding::Mouse(btn)) == m.buttons_just_pressed.contains(btn),
        binding_pressed_edge(m, Binding::GamepadButton { slot, button: pb }) == (live_pad(m, slot) is Some
            && m.gamepads[slot as int].buttons_just_pressed.contains(pb)),
        binding_released_edge(m, Binding::Key(k)) == m.keys_just_released.contains(k),
        binding_released_edge(m, Binding::Mouse(btn)) == m.buttons_just_released.contains(btn),
        binding_released_edge(m, Binding::GamepadButton { slot, button: pb }) == (live_pad(m, slot) is Some
            && m.gamepads[slot as int].buttons_just_released.contains(pb)),
        !binding_pressed_edge(m, Binding::GamepadAxisThreshold { slot, axis: a, threshold: t }),
        !binding_released_edge(m, Binding::GamepadAxisThreshold { slot, axis: a, threshold: t }),
        axis_contribution(m, AxisBinding::GamepadAxis { slot, axis: a }) == live_axis(m, slot, a),
        axis_contribution(m, AxisBinding::KeyPair { negative: kn, positive: kp }) == pair_value(
            m.keys_down.contains(kn),
            m.keys_down.contains(kp),
        ),
        live_pad(m, slot) is None ==> axis_contribution(
            m,
            AxisBinding::GamepadButtonPair { slot, negative: n, positive: p },
        ) == ZERO_BITS,
        live_pad(m, slot) is Some ==> axis_contribution(
            m,
            AxisBinding::GamepadButtonPair { slot, negative: n, positive: p },
        ) == pair_value(
            m.gamepads[slot as int].buttons_down.contains(n),
            m.gamepads[slot as int].buttons_down.contains(p),
        ),
        pair_value(true, false) == MINUS_ONE_BITS,
        pair_value(false, true) == ONE_BITS,
        pair_value(true, true) == ZERO_BITS,
        pair_value(false, false) == ZERO_BITS,
{
}

/// The threshold rule: a stick or trigger binding is held while the
/// absolute value of the axis is at least the threshold, so a negative
/// threshold is reached by every value that is not a NaN.
pub proof fn law_threshold_is_absolute_value_at_least(m: InputModel, slot: usize, a: GamepadAxis, t: u32)
    requires
        live_pad(m, slot) is Some,
        m.gamepads[slot as int].axes.contains_key(a),
    ensures
        binding_active(m, Binding::GamepadAxisThreshold { slot, axis: a, threshold: t }) == abs_reaches(
            m.gamepads[slot as int].axes[a],
            t,
        ),
        is_negative(t) && !is_nan(t) && !is_nan(m.gamepads[slot as int].axes[a]) ==> binding_active(
            m,
            Binding::GamepadAxisThreshold { slot, axis: a, threshold: t },
        ),
{
}

// ── A whole desktop poll ────────────────────────────────────────────────

/// One controller's slot after the events of `evs` that come from
/// controller `id`, applied to `p` in order; the other events leave it
/// alone.
pub open spec fn pad_after_events_of(p: PadModel, evs: Seq<GamepadEventRecord>, id: usize) -> PadModel
    decreases evs.len(),
{
    if evs.len() == 0 {
        p
    } else {
        let q = pad_after_events_of(p, evs.drop_last(), id);
        if evs.last().id == id {
            pad_after_event(q, evs.last().event)
        } else {
            q
        }
    }
}

/// The slot controller `id` starts a drain from: its own slot, or a fresh
/// one if it has none yet.
pub open spec fn start_pad(m: InputModel, id: usize) -> PadModel {
    if m.gamepad_slots.contains_key(id) {
        m.gamepads[m.gamepad_slots[id] as int]
    } else {
        empty_pad()
    }
}

/// `evs` holds no event from controller `id` at or after index `n`.
pub open spec fn quiet_from(evs: Seq<GamepadEventRecord>, id: usize, n: int) -> bool {
    forall|j: int| n <= j < evs.len() ==> (#[trigger] evs[j]).id != id
}

proof fn lemma_fold_quiet_tail(p: PadModel, evs: Seq<GamepadEventRecord>, id: usize, n: int)
    requires
        0 <= n <= evs.len(),
        quiet_from(evs, id, n),
    ensures
        pad_after_events_of(p, evs, id) == pad_after_events_of(p, evs.take(n), id),
    decreases evs.len(),
{
    if evs.len() > n {
        let e2 = evs.drop_last();
        assert(quiet_from(e2, id, n)) by {
            assert forall|j: int| n <= j < e2.len() implies (#[trigger] e2[j]).id != id by {
                assert(e2[j] == evs[j]);
            }
        }
        lemma_fold_quiet_tail(p, e2, id, n);
        assert(e2.take(n) =~= evs.take(n));
        assert(evs[evs.len() - 1].id != id);
    } else {
        assert(evs.take(n) =~= evs);
    }
}

/// Drains leave each controller's slot as the controller's own events
/// make it, keep every existing assignment, give each new controller a
/// fresh slot past the old ones, and leave slots no event reaches alone.
pub proof fn law_drain_projection(m: InputModel, evs: Seq<GamepadEventRecord>)
    requires
        slots_valid(m),
        m.gamepads.len() + evs.len() <= usize::MAX,
    ensures
        slots_valid(after_gamepad_events(m, evs)),
        m.gamepads.len() <= after_gamepad_events(m, evs).gamepads.len() <= m.gamepads.len() + evs.len(),
        forall|id: usize| #[trigger] m.gamepad_slots.contains_key(id) ==> after_gamepad_events(m, evs).gamepad_slots.contains_key(id)
            && after_gamepad_events(m, evs).gamepad_slots[id] == m.gamepad_slots[id],
        forall|k: int| 0 <= k < evs.len() ==> after_gamepad_events(m, evs).gamepad_slots.contains_key(#[trigger] evs[k].id),
        forall|id: usize| #[trigger] after_gamepad_events(m, evs).gamepad_slots.contains_key(id) && !m.gamepad_slots.contains_key(id)
            ==> after_gamepad_events(m, evs).gamepad_slots[id] >= m.gamepads.len() && exists|k: int| 0 <= k < evs.len() && evs[k].id == id,
        forall|id: usize| #[trigger] after_gamepad_events(m, evs).gamepad_slots.contains_key(id) ==> after_gamepad_events(m, evs).gamepads[after_gamepad_events(m, evs).gamepad_slots[id] as int]
            == pad_after_events_of(start_pad(m, id), evs, id),
        forall|s: int|
            0 <= s < m.gamepads.len() && (forall|id: usize| #[trigger] m.gamepad_slots.contains_key(id)
                && m.gamepad_slots[id] == s ==> quiet_from(evs, id, 0)) ==> #[trigger] after_gamepad_events(m, evs).gamepads[s]
                == m.gamepads[s],
    decreases evs.len(),
{
    if evs.len() == 0 {
        let after = after_gamepad_events(m, evs);
        assert(after == m);
        assert forall|id: usize| #[trigger] after.gamepad_slots.contains_key(id) implies after.gamepads[after.gamepad_slots[id] as int]
            == pad_after_events_of(start_pad(m, id), evs, id) by {}
    } else {
        let e2 = evs.drop_last();
        let last = evs.last();
        law_drain_projection(m, e2);
        let prev = after_gamepad_events(m, e2);
        let after = after_gamepad_events(m, evs);
        assert(after == after_gamepad_event(prev, last.id, last.event));
        let id0 = last.id;
        assert forall|k: int| 0 <= k < e2.len() implies #[trigger] e2[k] == evs[k] by {}
        if prev.gamepad_slots.contains_key(id0) {
            let s0 = prev.gamepad_slots[id0] as int;
            assert(after.gamepads == prev.gamepads.update(s0, pad_after_event(prev.gamepads[s0], last.event)));
            assert(after.gamepad_slots == prev.gamepad_slots);
            assert forall|k: int| 0 <= k < evs.len() implies after.gamepad_slots.contains_key(#[trigger] evs[k].id) by {
                if k < e2.len() {
                    assert(prev.gamepad_slots.contains_key(e2[k].id));
                }
            }
            assert forall|id: usize| #[trigger] after.gamepad_slots.contains_key(id) implies after.gamepads[after.gamepad_slots[id] as int]
                == pad_after_events_of(start_pad(m, id), evs, id) by {
                if id != id0 {
                    assert(prev.gamepad_slots[id] != prev.gamepad_slots[id0]);
                }
            }
            assert forall|id: usize| #[trigger] after.gamepad_slots.contains_key(id) && !m.gamepad_slots.contains_key(id)
                implies after.gamepad_slots[id] >= m.gamepads.len() && exists|k: int| 0 <= k < evs.len() && evs[k].id == id by {
                let k = choose|k: int| 0 <= k < e2.len() && e2[k].id == id;
                assert(evs[k].id == id);
            }
            assert forall|s: int|
                0 <= s < m.gamepads.len() && (forall|id: usize| #[trigger] m.gamepad_slots.contains_key(id)
                    && m.gamepad_slots[id] == s ==> quiet_from(evs, id, 0)) implies #[trigger] after.gamepads[s]
                    == m.gamepads[s] by {
                assert forall|id: usize| #[trigger] m.gamepad_slots.contains_key(id) && m.gamepad_slots[id] == s
                    implies quiet_from(e2, id, 0) by {
                    assert forall|j: int| 0 <= j < e2.len() implies (#[trigger] e2[j]).id != id by {
                        assert(evs[j].id != id);
                    }
                }
                if s == s0 {
                    if m.gamepad_slots.contains_key(id0) {
                        assert(quiet_from(evs, id0, 0));
                        assert(evs[evs.len() - 1].id != id0);
                    }
                }
            }
        } else {
            let s0 = prev.gamepads.len() as int;
            assert(!m.gamepad_slots.contains_key(id0));
            assert(quiet_from(e2, id0, 0)) by {
                assert forall|j: int| 0 <= j < e2.len() implies (#[trigger] e2[j]).id != id0 by {
                    if e2[j].id == id0 {
                        assert(prev.gamepad_slots.contains_key(e2[j].id));
                    }
                }
            }
            lemma_fold_quiet_tail(start_pad(m, id0), e2, id0, 0);
            assert(e2.take(0) =~= Seq::<GamepadEventRecord>::empty());
            assert(after.gamepads == prev.gamepads.push(pad_after_event(empty_pad(), last.event)));
            assert(after.gamepad_slots == prev.gamepad_slots.insert(id0, s0 as usize));
            assert forall|id: usize| #[trigger] after.gamepad_slots.contains_key(id) implies after.gamepads[after.gamepad_slots[id] as int]
                == pad_after_events_of(start_pad(m, id), evs, id) by {
                if id != id0 {
                    assert(prev.gamepad_slots.contains_key(id));
                }
            }
            assert forall|a: usize, b: usize|
                #[trigger] after.gamepad_slots.contains_key(a) && #[trigger] after.gamepad_slots.contains_key(b)
                    && a != b implies after.gamepad_slots[a] != after.gamepad_slots[b] by {
                if a != id0 && b != id0 {
                    assert(prev.gamepad_slots.contains_key(a) && prev.gamepad_slots.contains_key(b));
                } else if a == id0 {
                    assert(prev.gamepad_slots.contains_key(b));
                } else {
                    assert(prev.gamepad_slots.contains_key(a));
                }
            }
            assert forall|id: usize| #[trigger] after.gamepad_slots.contains_key(id) && !m.gamepad_slots.contains_key(id)
                implies after.gamepad_slots[id] >= m.gamepads.len() && exists|k: int| 0 <= k < evs.len() && evs[k].id == id by {
                if id == id0 {
                    assert(evs[evs.len() - 1].id == id);
                } else {
                    assert(prev.gamepad_slots.contains_key(id));
                    let k = choose|k: int| 0 <= k < e2.len() && e2[k].id == id;
                    assert(evs[k].id == id);
                }
            }
            assert forall|s: int|
                0 <= s < m.gamepads.len() && (forall|id: usize| #[trigger] m.gamepad_slots.contains_key(id)
                    && m.gamepad_slots[id] == s ==> quiet_from(evs, id, 0)) implies #[trigger] after.gamepads[s]
                    == m.gamepads[s] by {
                assert forall|id: usize| #[trigger] m.gamepad_slots.contains_key(id) && m.gamepad_slots[id] == s
                    implies quiet_from(e2, id, 0) by {
                    assert forall|j: int| 0 <= j < e2.len() implies (#[trigger] e2[j]).id != id by {
                        assert(evs[j].id != id);
                    }
                }
                assert(after.gamepads[s] == prev.gamepads[s]);
            }
            assert forall|k: int| 0 <= k < evs.len() implies after.gamepad_slots.contains_key(#[trigger] evs[k].id) by {
                if k < e2.len() {
                    assert(prev.gamepad_slots.contains_key(e2[k].id));
                }
            }
        }
    }
}

proof fn lemma_fold_prefix_step(p: PadModel, evs: Seq<GamepadEventRecord>, id: usize, n: int)
    requires
        0 <= n < evs.len(),
    ensures
        pad_after_events_of(p, evs.take(n + 1), id) == (if evs[n].id == id {
            pad_after_event(pad_after_events_of(p, evs.take(n), id), evs[n].event)
        } else {
            pad_after_events_of(p, evs.take(n), id)
        }),
{
    assert(evs.take(n + 1).drop_last() =~= evs.take(n));
    assert(evs.take(n + 1).last() == evs[n]);
}

/// Event `k` is a press of `b` by controller `id` while `b` was not held.
pub open spec fn press_edge_at(p: PadModel, evs: Seq<GamepadEventRecord>, id: usize, k: int, b: GamepadButton) -> bool {
    &&& 0 <= k < evs.len()
    &&& evs[k].id == id
    &&& evs[k].event == GamepadEvent::ButtonPressed(Some(b))
    &&& !pad_after_events_of(p, evs.take(k), id).buttons_down.contains(b)
}

/// Event `k` is a release of `b` by controller `id` while `b` was held.
pub open spec fn release_edge_at(p: PadModel, evs: Seq<GamepadEventRecord>, id: usize, k: int, b: GamepadButton) -> bool {
    &&& 0 <= k < evs.len()
    &&& evs[k].id == id
    &&& evs[k].event == GamepadEvent::ButtonReleased(Some(b))
    &&& pad_after_events_of(p, evs.take(k), id).buttons_down.contains(b)
}

proof fn lemma_fold_edges(p: PadModel, evs: Seq<GamepadEventRecord>, id: usize, b: GamepadButton)
    requires
        p.buttons_just_pressed.is_empty(),
        p.buttons_just_released.is_empty(),
    ensures
        pad_after_events_of(p, evs, id).buttons_just_pressed.contains(b) <==> exists|k: int| #[trigger] press_edge_at(p, evs, id, k, b),
        pad_after_events_of(p, evs, id).buttons_just_released.contains(b) <==> exists|k: int| #[trigger] release_edge_at(p, evs, id, k, b),
    decreases evs.len(),
{
    if evs.len() == 0 {
        assert(!p.buttons_just_pressed.contains(b));
        assert(!p.buttons_just_released.contains(b));
    } else {
        let n = evs.len() - 1;
        let e2 = evs.drop_last();
        lemma_fold_edges(p, e2, id, b);
        assert(evs.take(n) =~= e2);
        assert forall|k: int| 0 <= k < n implies #[trigger] evs.take(k) == e2.take(k) by {
            assert(evs.take(k) =~= e2.take(k));
        }
        assert forall|k: int| 0 <= k < n implies #[trigger] press_edge_at(p, evs, id, k, b) == press_edge_at(p, e2, id, k, b) by {
            assert(evs.take(k) == e2.take(k));
        }
        assert forall|k: int| 0 <= k < n implies #[trigger] release_edge_at(p, evs, id, k, b) == release_edge_at(p, e2, id, k, b) by {
            assert(evs.take(k) == e2.take(k));
        }
        let q = pad_after_events_of(p, e2, id);
        if exists|k: int| #[trigger] press_edge_at(p, evs, id, k, b) {
            let k = choose|k: int| #[trigger] press_edge_at(p, evs, id, k, b);
            if k < n {
                assert(press_edge_at(p, e2, id, k, b));
            }
        }
        if exists|k: int| #[trigger] press_edge_at(p, e2, id, k, b) {
            let k = choose|k: int| #[trigger] press_edge_at(p, e2, id, k, b);
            assert(press_edge_at(p, evs, id, k, b));
        }
        if exists|k: int| #[trigger] release_edge_at(p, evs, id, k, b) {
            let k = choose|k: int| #[trigger] release_edge_at(p, evs, id, k, b);
            if k < n {
                assert(release_edge_at(p, e2, id, k, b));
            }
        }
        if exists|k: int| #[trigger] release_edge_at(p, e2, id, k, b) {
            let k = choose|k: int| #[trigger] release_edge_at(p, e2, id, k, b);
            assert(release_edge_at(p, evs, id, k, b));
        }
        if evs[n].id == id {
            if evs[n].event == GamepadEvent::ButtonPressed(Some(b)) && !q.buttons_down.contains(b) {
                assert(press_edge_at(p, evs, id, n, b));
            }
            if evs[n].event == GamepadEvent::ButtonReleased(Some(b)) && q.buttons_down.contains(b) {
                assert(release_edge_at(p, evs, id, n, b));
            }
        }
    }
}

/// A whole desktop poll leaves only this poll's edges: a controller's
/// button is just pressed exactly when one of this poll's events pressed
/// it while it was not held, and just released exactly when one released
/// it while it was held; a slot no event of this poll reaches has no edge.
pub proof fn law_poll_edges(m: InputModel, evs: Seq<GamepadEventRecord>, id: usize, b: GamepadButton, s: int)
    requires
        slots_valid(m),
        m.gamepads.len() + evs.len() <= usize::MAX,
    ensures
        ({
            let start = gamepad_edges_cleared(m);
            let after = after_gamepad_events(start, evs);
            &&& after.gamepad_slots.contains_key(id) ==> (after.gamepads[after.gamepad_slots[id] as int].buttons_just_pressed.contains(b)
                <==> exists|k: int| #[trigger] press_edge_at(start_pad(start, id), evs, id, k, b))
            &&& after.gamepad_slots.contains_key(id) ==> (after.gamepads[after.gamepad_slots[id] as int].buttons_just_released.contains(b)
                <==> exists|k: int| #[trigger] release_edge_at(start_pad(start, id), evs, id, k, b))
            &&& (0 <= s < m.gamepads.len() && (forall|i: usize| #[trigger] m.gamepad_slots.contains_key(i)
                && m.gamepad_slots[i] == s ==> quiet_from(evs, i, 0))) ==> after.gamepads[s].buttons_just_pressed.is_empty()
                && after.gamepads[s].buttons_just_released.is_empty()
        }),
{
    let start = gamepad_edges_cleared(m);
    assert(start.gamepad_slots == m.gamepad_slots);
    assert(start.gamepads.len() == m.gamepads.len());
    law_drain_projection(start, evs);
    let after = after_gamepad_events(start, evs);
    if after.gamepad_slots.contains_key(id) {
        lemma_fold_edges(start_pad(start, id), evs, id, b);
    }
    if 0 <= s < m.gamepads.len() && (forall|i: usize| #[trigger] m.gamepad_slots.contains_key(i)
        && m.gamepad_slots[i] == s ==> quiet_from(evs, i, 0)) {
        assert(after.gamepads[s] == start.gamepads[s]);
    }
}

/// A whole desktop poll keeps slots stable: the count never drops, every
/// controller keeps the slot it had, and every controller heard from in
/// this poll has a slot below the count.
pub proof fn law_poll_slots_stable(m: InputModel, evs: Seq<GamepadEventRecord>, id: usize, k: int)
    requires
        slots_valid(m),
        m.gamepads.len() + evs.len() <= usize::MAX,
    ensures
        ({
            let after = after_gamepad_events(gamepad_edges_cleared(m), evs);
            &&& after.gamepads.len() >= m.gamepads.len()
            &&& slots_valid(after)
            &&& m.gamepad_slots.contains_key(id) ==> after.gamepad_slots.contains_key(id)
                && after.gamepad_slots[id] == m.gamepad_slots[id]
            &&& 0 <= k < evs.len() ==> after.gamepad_slots.contains_key(evs[k].id)
                && after.gamepad_slots[evs[k].id] < after.gamepads.len()
        }),
{
    let start = gamepad_edges_cleared(m);
    assert(start.gamepad_slots == m.gamepad_slots);
    law_drain_projection(start, evs);
}

/// A controller that disconnects during a poll and sends nothing after
/// reads as disconnected, with nothing held and no axis value.
pub proof fn law_poll_disconnect(m: InputModel, evs: Seq<GamepadEventRecord>, k: int)
    requires
        slots_valid(m),
        m.gamepads.len() + evs.len() <= usize::MAX,
        0 <= k < evs.len(),
        evs[k].event == GamepadEvent::Disconnected,
        quiet_from(evs, evs[k].id, k + 1),
    ensures
        ({
            let id = evs[k].id;
            let after = after_gamepad_events(gamepad_edges_cleared(m), evs);
            let pad = after.gamepads[after.gamepad_slots[id] as int];
            &&& after.gamepad_slots.contains_key(id)
            &&& !pad.connected
            &&& pad.buttons_down.is_empty()
            &&& pad.axes.is_empty()
            &&& live_pad(after, after.gamepad_slots[id]) is None
        }),
{
    let id = evs[k].id;
    let start = gamepad_edges_cleared(m);
    assert(start.gamepad_slots == m.gamepad_slots);
    law_drain_projection(start, evs);
    let p = start_pad(start, id);
    lemma_fold_quiet_tail(p, evs, id, k + 1);
    lemma_fold_prefix_step(p, evs, id, k);
    let after = after_gamepad_events(start, evs);
    assert(after.gamepad_slots.contains_key(evs[k].id));
}

/// The event sets axis `a` of the controller's slot to `v`.
pub open spec fn sets_axis(e: GamepadEvent, a: GamepadAxis, v: u32) -> bool {
    ||| e == GamepadEvent::AxisChanged(Some(a), v)
    ||| exists|b: GamepadButton| #[trigger] spec_trigger_axis(b) == Some(a) && e == GamepadEvent::ButtonChanged(Some(b), v)
}

/// The event changes or clears axis `a` of the controller's slot.
pub open spec fn touches_axis(e: GamepadEvent, a: GamepadAxis) -> bool {
    match e {
        GamepadEvent::AxisChanged(Some(x), _) => x == a,
        GamepadEvent::ButtonChanged(Some(b), _) => spec_trigger_axis(b) == Some(a),
        GamepadEvent::Disconnected => true,
        _ => false,
    }
}

proof fn lemma_axis_kept(p: PadModel, evs: Seq<GamepadEventRecord>, id: usize, a: GamepadAxis, v: u32, k: int, n: int)
    requires
        0 <= k < n <= evs.len(),
        evs[k].id == id,
        sets_axis(evs[k].event, a, v),
        forall|j: int| k < j < evs.len() && (#[trigger] evs[j]).id == id ==> !touches_axis(evs[j].event, a),
    ensures
        pad_after_events_of(p, evs.take(n), id).axes.contains_key(a),
        pad_after_events_of(p, evs.take(n), id).axes[a] == v,
    decreases n,
{
    lemma_fold_prefix_step(p, evs, id, n - 1);
    if n > k + 1 {
        lemma_axis_kept(p, evs, id, a, v, k, n - 1);
        let q = pad_after_events_of(p, evs.take(n - 1), id);
        if evs[n - 1].id == id {
            assert(!touches_axis(evs[n - 1].event, a));
            let r = pad_after_event(q, evs[n - 1].event);
            assert(r.axes.contains_key(a) && r.axes[a] == v);
        }
    } else {
        let q = pad_after_events_of(p, evs.take(k), id);
        if evs[k].event != GamepadEvent::AxisChanged(Some(a), v) {
            let b = choose|b: GamepadButton| #[trigger] spec_trigger_axis(b) == Some(a) && evs[k].event == GamepadEvent::ButtonChanged(Some(b), v);
            assert(pad_after_event(q, evs[k].event).axes == q.axes.insert(a, v));
        }
    }
}

/// Axis values pass through unchanged: after a poll, a controller's axis
/// holds the last value this poll's events set it to, provided no later
/// event of that controller changed or cleared it.
pub proof fn law_poll_axis_last_value(m: InputModel, evs: Seq<GamepadEventRecord>, k: int, a: GamepadAxis, v: u32)
    requires
        slots_valid(m),
        m.gamepads.len() + evs.len() <= usize::MAX,
        0 <= k < evs.len(),
        sets_axis(evs[k].event, a, v),
        forall|j: int| k < j < evs.len() && (#[trigger] evs[j]).id == evs[k].id ==> !touches_axis(evs[j].event, a),
    ensures
        ({
            let id = evs[k].id;
            let after = after_gamepad_events(gamepad_edges_cleared(m), evs);
            let slot = after.gamepad_slots[id];
            &&& after.gamepad_slots.contains_key(id)
            &&& after.gamepads[slot as int].axes.contains_key(a)
            &&& after.gamepads[slot as int].axes[a] == v
            &&& live_pad(after, slot) is Some ==> live_axis(after, slot, a) == v
        }),
{
    let id = evs[k].id;
    let start = gamepad_edges_cleared(m);
    assert(start.gamepad_slots == m.gamepad_slots);
    law_drain_projection(start, evs);
    let p = start_pad(start, id);
    lemma_axis_kept(p, evs, id, a, v, k, evs.len() as int);
    assert(evs.take(evs.len() as int) =~= evs);
}

} // verus!

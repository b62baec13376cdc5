//! The polling snapshot: held keys and buttons, this frame's edges,
//! pointer position, this frame's scroll, modifiers, gamepad slots and
//! the installed action map.

use vstd::prelude::*;
use std::collections::{HashMap, HashSet};
use crate::action_map::{ActionMap, ActionMapModel, AxisBinding, Binding};
use crate::buttons::{GamepadAxis, GamepadButton, MouseButton};
use crate::elem_set::ListSet;
use crate::float_bits::{ZERO_BITS, ONE_BITS, MINUS_ONE_BITS, abs_gt, abs_ge, abs_greater, abs_reaches, abs_reaches_value, is_nan};
use crate::gamepad::{GamepadEvent, GamepadSnapshot, PadModel, WebPadReading, empty_pad, pad_after_event, pad_after_web, pad_after_web_absent, pad_edges_cleared};

verus! {

broadcast use vstd::std_specs::hash::group_hash_axioms;

/// Keyboard modifier flags of the most recent event.
#[derive(Clone, Copy, Debug, PartialEq, Eq, Structural)]
pub struct Modifiers {
    pub shift: bool,
    pub ctrl: bool,
    pub alt: bool,
    /// Cmd on macOS, Win on Windows.
    pub meta: bool,
}

impl Modifiers {
    pub fn new(shift: bool, ctrl: bool, alt: bool, meta: bool) -> (m: Self)
        ensures
            m == (Modifiers { shift, ctrl, alt, meta }),
    {
        Modifiers { shift, ctrl, alt, meta }
    }

    /// No modifier held.
    pub fn none() -> (m: Self)
        ensures
            m == (Modifiers { shift: false, ctrl: false, alt: false, meta: false }),
    {
        Modifiers { shift: false, ctrl: false, alt: false, meta: false }
    }

    pub fn shift(&self) -> (r: bool)
        ensures
            r == self.shift,
    {
        self.shift
    }

    pub fn ctrl(&self) -> (r: bool)
        ensures
            r == self.ctrl,
    {
        self.ctrl
    }

    pub fn alt(&self) -> (r: bool)
        ensures
            r == self.alt,
    {
        self.alt
    }

    pub fn meta(&self) -> (r: bool)
        ensures
            r == self.meta,
    {
        self.meta
    }

    /// Whether any modifier is held.
    pub fn any(&self) -> (r: bool)
        ensures
            r == (self.shift || self.ctrl || self.alt || self.meta),
    {
        self.shift || self.ctrl || self.alt || self.meta
    }
}

/// The kinds of event the snapshot reacts to.
#[derive(Clone, Copy, Debug, PartialEq, Eq, Structural)]
pub enum EventKind {
    KeyDown,
    KeyUp,
    PointerDown,
    PointerUp,
    PointerMove,
    Scroll,
    /// Any other event: only its modifier flags are recorded.
    Other,
}

/// The fields of an event that the snapshot reads. Coordinates are
/// `f32` bit patterns in the event source's local space.
#[derive(Clone, Copy, Debug)]
pub struct InputEvent {
    pub kind: EventKind,
    /// Key code of `KeyDown` / `KeyUp` events.
    pub key_code: u32,
    /// Button index of `PointerDown` / `PointerUp` events
    /// (`0` left, `1` middle, `2` right).
    pub mouse_button: u8,
    pub local_x: u32,
    pub local_y: u32,
    pub shift: bool,
    pub ctrl: bool,
    pub alt: bool,
    pub meta: bool,
}

/// One event drained from the desktop gamepad backend, tagged with the
/// backend's identifier of the controller that sent it.
#[derive(Clone, Copy, Debug)]
pub struct GamepadEventRecord {
    pub id: usize,
    pub event: GamepadEvent,
}

/// Abstract content of an [`InputState`].
pub struct InputModel {
    pub keys_down: Set<u32>,
    pub keys_just_pressed: Set<u32>,
    pub keys_just_released: Set<u32>,
    pub buttons_down: Set<MouseButton>,
    pub buttons_just_pressed: Set<MouseButton>,
    pub buttons_just_released: Set<MouseButton>,
    /// Last pointer position (`f32` bits).
    pub mouse_x: u32,
    pub mouse_y: u32,
    /// Scroll accumulated since the last frame end (`f32` bits).
    pub scroll_x: u32,
    pub scroll_y: u32,
    pub modifiers: Modifiers,
    /// Gamepad slots, in the order controllers first appeared.
    pub gamepads: Seq<PadModel>,
    /// Desktop backend controller identifier → slot.
    pub gamepad_slots: Map<usize, usize>,
    pub actions: ActionMapModel,
}


/// The state before any event: nothing held, pointer and scroll at
/// `0.0`, no modifiers, no gamepad slots, no actions.
pub open spec fn is_fresh(m: InputModel) -> bool {
    &&& m.keys_down == Set::<u32>::empty()
    &&& m.keys_just_pressed == Set::<u32>::empty()
    &&& m.keys_just_released == Set::<u32>::empty()
    &&& m.buttons_down == Set::<MouseButton>::empty()
    &&& m.buttons_just_pressed == Set::<MouseButton>::empty()
    &&& m.buttons_just_released == Set::<MouseButton>::empty()
    &&& m.mouse_x == ZERO_BITS && m.mouse_y == ZERO_BITS
    &&& m.scroll_x == ZERO_BITS && m.scroll_y == ZERO_BITS
    &&& m.modifiers == (Modifiers { shift: false, ctrl: false, alt: false, meta: false })
    &&& m.gamepads == Seq::<PadModel>::empty()
    &&& m.gamepad_slots == Map::<usize, usize>::empty()
    &&& m.actions.actions == Map::<Seq<char>, Seq<Binding>>::empty()
    &&& m.actions.axes == Map::<Seq<char>, Seq<AxisBinding>>::empty()
}

/// The snapshot after recording one event: the modifiers always follow
/// the event; a key or button press marks it held and, if it was not
/// held, just pressed; a release unmarks it and, if it was held, marks it
/// just released; pointer events move the pointer.
pub open spec fn recorded(m: InputModel, e: InputEvent) -> InputModel {
    let m = InputModel {
        modifiers: Modifiers { shift: e.shift, ctrl: e.ctrl, alt: e.alt, meta: e.meta },
        ..m
    };
    let k = e.key_code;
    let b = MouseButton::spec_from_index(e.mouse_button);
    match e.kind {
        EventKind::KeyDown => InputModel {
            keys_down: m.keys_down.insert(k),
            keys_just_pressed: if m.keys_down.contains(k) {
                m.keys_just_pressed
            } else {
                m.keys_just_pressed.insert(k)
            },
            ..m
        },
        EventKind::KeyUp => InputModel {
            keys_down: m.keys_down.remove(k),
            keys_just_released: if m.keys_down.contains(k) {
                m.keys_just_released.insert(k)
            } else {
                m.keys_just_released
            },
            ..m
        },
        EventKind::PointerDown => InputModel {
            mouse_x: e.local_x,
            mouse_y: e.local_y,
            buttons_down: m.buttons_down.insert(b),
            buttons_just_pressed: if m.buttons_down.contains(b) {
                m.buttons_just_pressed
            } else {
                m.buttons_just_pressed.insert(b)
            },
            ..m
        },
        EventKind::PointerUp => InputModel {
            mouse_x: e.local_x,
            mouse_y: e.local_y,
            buttons_down: m.buttons_down.remove(b),
            buttons_just_released: if m.buttons_down.contains(b) {
                m.buttons_just_released.insert(b)
            } else {
                m.buttons_just_released
            },
            ..m
        },
        EventKind::PointerMove => InputModel { mouse_x: e.local_x, mouse_y: e.local_y, ..m },
        _ => m,
    }
}

/// The snapshot after a frame ends: key and mouse edges and the scroll
/// are cleared; held keys and buttons, the pointer, the modifiers, the
/// gamepads and the actions persist.
pub open spec fn frame_ended(m: InputModel) -> InputModel {
    InputModel {
        keys_just_pressed: Set::empty(),
        keys_just_released: Set::empty(),
        buttons_just_pressed: Set::empty(),
        buttons_just_released: Set::empty(),
        scroll_x: ZERO_BITS,
        scroll_y: ZERO_BITS,
        ..m
    }
}


/// The pad in `slot`, if that slot exists and a controller is connected.
pub open spec fn live_pad(m: InputModel, slot: usize) -> Option<PadModel> {
    if slot < m.gamepads.len() && m.gamepads[slot as int].connected {
        Some(m.gamepads[slot as int])
    } else {
        None
    }
}

/// Value (`f32` bits) of `axis` on the live pad in `slot`, or `0.0`.
pub open spec fn live_axis(m: InputModel, slot: usize, axis: GamepadAxis) -> u32 {
    match live_pad(m, slot) {
        Some(p) => if p.axes.contains_key(axis) {
            p.axes[axis]
        } else {
            ZERO_BITS
        },
        None => ZERO_BITS,
    }
}

/// A binding is active while its key, mouse button or live-pad button is
/// held, or while its live-pad axis reports a value whose absolute value
/// is at least the threshold.
pub open spec fn binding_active(m: InputModel, b: Binding) -> bool {
    match b {
        Binding::Key(k) => m.keys_down.contains(k),
        Binding::Mouse(btn) => m.buttons_down.contains(btn),
        Binding::GamepadButton { slot, button } => match live_pad(m, slot) {
            Some(p) => p.buttons_down.contains(button),
            None => false,
        },
        Binding::GamepadAxisThreshold { slot, axis, threshold } => match live_pad(m, slot) {
            Some(p) => p.axes.contains_key(axis) && abs_reaches(p.axes[axis], threshold),
            None => false,
        },
    }
}

/// A binding's press edge this frame; axis thresholds carry no edge.
pub open spec fn binding_pressed_edge(m: InputModel, b: Binding) -> bool {
    match b {
        Binding::Key(k) => m.keys_just_pressed.contains(k),
        Binding::Mouse(btn) => m.buttons_just_pressed.contains(btn),
        Binding::GamepadButton { slot, button } => match live_pad(m, slot) {
            Some(p) => p.buttons_just_pressed.contains(button),
            None => false,
        },
        Binding::GamepadAxisThreshold { .. } => false,
    }
}

/// A binding's release edge this frame; axis thresholds carry no edge.
pub open spec fn binding_released_edge(m: InputModel, b: Binding) -> bool {
    match b {
        Binding::Key(k) => m.keys_just_released.contains(k),
        Binding::Mouse(btn) => m.buttons_just_released.contains(btn),
        Binding::GamepadButton { slot, button } => match live_pad(m, slot) {
            Some(p) => p.buttons_just_released.contains(button),
            None => false,
        },
        Binding::GamepadAxisThreshold { .. } => false,
    }
}

/// The bindings installed for `action` (none for an unknown name).
pub open spec fn action_bindings(m: InputModel, action: Seq<char>) -> Seq<Binding> {
    if m.actions.actions.contains_key(action) {
        m.actions.actions[action]
    } else {
        Seq::empty()
    }
}

/// The action is held: some binding is active.
pub open spec fn action_is_down(m: InputModel, action: Seq<char>) -> bool {
    exists|i: int|
        0 <= i < action_bindings(m, action).len() && binding_active(
            m,
            #[trigger] action_bindings(m, action)[i],
        )
}

/// The action was pressed this frame: some binding has a press edge.
pub open spec fn action_was_pressed(m: InputModel, action: Seq<char>) -> bool {
    exists|i: int|
        0 <= i < action_bindings(m, action).len() && binding_pressed_edge(
            m,
            #[trigger] action_bindings(m, action)[i],
        )
}

/// The action was released this frame: some binding has a release edge.
pub open spec fn action_was_released(m: InputModel, action: Seq<char>) -> bool {
    exists|i: int|
        0 <= i < action_bindings(m, action).len() && binding_released_edge(
            m,
            #[trigger] action_bindings(m, action)[i],
        )
}

/// `-1.0` when only the negative side is held, `+1.0` when only the
/// positive side is, `0.0` otherwise.
pub open spec fn pair_value(negative: bool, positive: bool) -> u32 {
    if negative && !positive {
        MINUS_ONE_BITS
    } else if !negative && positive {
        ONE_BITS
    } else {
        ZERO_BITS
    }
}

/// The value (`f32` bits) one axis binding contributes.
pub open spec fn axis_contribution(m: InputModel, b: AxisBinding) -> u32 {
    match b {
        AxisBinding::KeyPair { negative, positive } => pair_value(
            m.keys_down.contains(negative),
            m.keys_down.contains(positive),
        ),
        AxisBinding::GamepadAxis { slot, axis } => live_axis(m, slot, axis),
        AxisBinding::GamepadButtonPair { slot, negative, positive } => match live_pad(m, slot) {
            Some(p) => pair_value(p.buttons_down.contains(negative), p.buttons_down.contains(positive)),
            None => ZERO_BITS,
        },
    }
}

/// The contributions of the bindings of virtual axis `axis`, in
/// registration order (none for an unknown name).
pub open spec fn axis_contributions(m: InputModel, axis: Seq<char>) -> Seq<u32> {
    if m.actions.axes.contains_key(axis) {
        m.actions.axes[axis].map_values(|b: AxisBinding| axis_contribution(m, b))
    } else {
        Seq::empty()
    }
}

/// Contribution `i` wins with value `r`: it is above zero, strictly
/// larger in magnitude than every earlier contribution (NaNs never
/// compare), and no later contribution is strictly larger.
pub open spec fn wins_at(vals: Seq<u32>, i: int, r: u32) -> bool {
    &&& 0 <= i < vals.len()
    &&& r == vals[i]
    &&& abs_gt(r, ZERO_BITS)
    &&& forall|j: int| 0 <= j < i ==> !abs_ge(#[trigger] vals[j], r)
    &&& forall|j: int| i < j < vals.len() ==> !abs_gt(#[trigger] vals[j], r)
}

/// `r` is what contributions `vals` resolve to: the first contribution
/// of strictly largest magnitude, or `0.0` when none has a magnitude
/// above zero.
pub open spec fn resolves_to(vals: Seq<u32>, r: u32) -> bool {
    ||| (r == ZERO_BITS && forall|j: int| 0 <= j < vals.len() ==> !abs_gt(#[trigger] vals[j], ZERO_BITS))
    ||| exists|i: int| #[trigger] wins_at(vals, i, r)
}

/// Controller slots are assigned sensibly: every assigned slot exists,
/// no two controllers share a slot, and the slot count fits a `usize`.
pub open spec fn slots_valid(m: InputModel) -> bool {
    &&& m.gamepads.len() <= usize::MAX
    &&& forall|id: usize| #[trigger]
        m.gamepad_slots.contains_key(id) ==> m.gamepad_slots[id] < m.gamepads.len()
    &&& forall|a: usize, b: usize|
        #[trigger] m.gamepad_slots.contains_key(a) && #[trigger] m.gamepad_slots.contains_key(b) && a
            != b ==> m.gamepad_slots[a] != m.gamepad_slots[b]
}

/// `m` with its gamepad slots replaced.
pub open spec fn with_gamepads(m: InputModel, g: Seq<PadModel>) -> InputModel {
    InputModel { gamepads: g, ..m }
}

/// The snapshot with every gamepad slot's edges cleared.
pub open spec fn gamepad_edges_cleared(m: InputModel) -> InputModel {
    InputModel { gamepads: m.gamepads.map_values(|p: PadModel| pad_edges_cleared(p)), ..m }
}

/// The snapshot after one desktop-backend event from controller `id`: a
/// controller seen for the first time claims a new slot at the end (so
/// indices stay compact and stable), then the event updates its slot.
pub open spec fn after_gamepad_event(m: InputModel, id: usize, e: GamepadEvent) -> InputModel {
    if m.gamepad_slots.contains_key(id) {
        let s = m.gamepad_slots[id] as int;
        InputModel { gamepads: m.gamepads.update(s, pad_after_event(m.gamepads[s], e)), ..m }
    } else {
        InputModel {
            gamepads: m.gamepads.push(pad_after_event(empty_pad(), e)),
            gamepad_slots: m.gamepad_slots.insert(id, m.gamepads.len() as usize),
            ..m
        }
    }
}

/// The snapshot after a sequence of desktop-backend events, in order.
pub open spec fn after_gamepad_events(m: InputModel, evs: Seq<GamepadEventRecord>) -> InputModel
    decreases evs.len(),
{
    if evs.len() == 0 {
        m
    } else {
        after_gamepad_event(after_gamepad_events(m, evs.drop_last()), evs.last().id, evs.last().event)
    }
}

/// Slot `s` before a browser poll: an existing slot, or a fresh one for
/// a slot the browser reports beyond those seen so far.
pub open spec fn slot_before_web(m: InputModel, s: int) -> PadModel {
    if s < m.gamepads.len() {
        m.gamepads[s]
    } else {
        empty_pad()
    }
}

/// The snapshot after one browser poll reporting `pads` (one entry per
/// browser slot, `None` where no controller is present): the slots grow
/// to the browser's count and each reported slot is updated.
pub open spec fn after_web_poll(m: InputModel, pads: Seq<Option<WebPadReading>>) -> InputModel {
    let n = if m.gamepads.len() < pads.len() { pads.len() } else { m.gamepads.len() };
    InputModel {
        gamepads: Seq::new(
            n,
            |s: int|
                if s < pads.len() {
                    match pads[s] {
                        Some(r) => pad_after_web(slot_before_web(m, s), &r),
                        None => pad_after_web_absent(slot_before_web(m, s)),
                    }
                } else {
                    slot_before_web(m, s)
                },
        ),
        ..m
    }
}

/// One step of resolving an axis: extending the contributions by one
/// value keeps the running winner unless the new value is strictly
/// larger in magnitude.
proof fn lemma_resolve_step(vals: Seq<u32>, i: int, best: u32, next: u32)
    requires
        0 <= i < vals.len(),
        resolves_to(vals.take(i), best),
        !is_nan(best),
        next == (if abs_gt(vals[i], best) { vals[i] } else { best }),
    ensures
        resolves_to(vals.take(i + 1), next),
        !is_nan(next),
{
    let pre = vals.take(i);
    let post = vals.take(i + 1);
    assert forall|j: int| 0 <= j < i implies #[trigger] post[j] == pre[j] by {}
    assert(post[i] == vals[i]);
    let no_winner = best == ZERO_BITS && forall|j: int| 0 <= j < pre.len() ==> !abs_gt(#[trigger] pre[j], ZERO_BITS);
    if abs_gt(vals[i], best) {
        if !no_winner {
            let k = choose|k: int| #[trigger] wins_at(pre, k, best);
            assert forall|j: int| 0 <= j < i implies !abs_ge(#[trigger] post[j], next) by {
                assert(post[j] == pre[j]);
            }
        } else {
            assert forall|j: int| 0 <= j < i implies !abs_ge(#[trigger] post[j], next) by {
                assert(!abs_gt(pre[j], ZERO_BITS));
            }
        }
        assert(wins_at(post, i, next));
    } else {
        if no_winner {
            assert forall|j: int| 0 <= j < post.len() implies !abs_gt(#[trigger] post[j], ZERO_BITS) by {
                if j < i {
                    assert(!abs_gt(pre[j], ZERO_BITS));
                }
            }
        } else {
            let k = choose|k: int| #[trigger] wins_at(pre, k, best);
            assert(post[k] == pre[k]);
            assert forall|j: int| 0 <= j < k implies !abs_ge(#[trigger] post[j], next) by {
                assert(post[j] == pre[j]);
            }
            assert forall|j: int| k < j < post.len() implies !abs_gt(#[trigger] post[j], next) by {
                if j < i {
                    assert(post[j] == pre[j]);
                }
            }
            assert(wins_at(post, k, next));
        }
    }
}

/// Polling snapshot of input state. Feed it events with
/// [`InputState::record`], query it during a frame, and call
/// [`InputState::frame_end`] once per frame to cycle the edges.
pub struct InputState {
    keys_down: HashSet<u32>,
    keys_just_pressed: HashSet<u32>,
    keys_just_released: HashSet<u32>,
    buttons_down: ListSet<MouseButton>,
    buttons_just_pressed: ListSet<MouseButton>,
    buttons_just_released: ListSet<MouseButton>,
    mouse_x: u32,
    mouse_y: u32,
    scroll_delta_x: u32,
    scroll_delta_y: u32,
    modifiers: Modifiers,
    gamepads: Vec<GamepadSnapshot>,
    gamepad_slots: HashMap<usize, usize>,
    actions: ActionMap,
}

impl View for InputState {
    type V = InputModel;

    closed spec fn view(&self) -> InputModel {
        InputModel {
            keys_down: self.keys_down@,
            keys_just_pressed: self.keys_just_pressed@,
            keys_just_released: self.keys_just_released@,
            buttons_down: self.buttons_down@,
            buttons_just_pressed: self.buttons_just_pressed@,
            buttons_just_released: self.buttons_just_released@,
            mouse_x: self.mouse_x,
            mouse_y: self.mouse_y,
            scroll_x: self.scroll_delta_x,
            scroll_y: self.scroll_delta_y,
            modifiers: self.modifiers,
            gamepads: self.gamepads@.map_values(|g: GamepadSnapshot| g@),
            gamepad_slots: self.gamepad_slots@,
            actions: self.actions@,
        }
    }
}

impl InputState {
    /// The internal invariants: sets without repeats, well-formed slots
    /// and action map, and every assigned slot index in range.
    pub closed spec fn wf(&self) -> bool {
        &&& self.buttons_down.wf()
        &&& self.buttons_just_pressed.wf()
        &&& self.buttons_just_released.wf()
        &&& forall|i: int| 0 <= i < self.gamepads@.len() ==> (#[trigger] self.gamepads@[i]).wf()
        &&& forall|id: usize| #[trigger]
            self.gamepad_slots@.contains_key(id) ==> self.gamepad_slots@[id] < self.gamepads@.len()
        &&& forall|a: usize, b: usize|
            #[trigger] self.gamepad_slots@.contains_key(a) && #[trigger] self.gamepad_slots@.contains_key(b)
                && a != b ==> self.gamepad_slots@[a] != self.gamepad_slots@[b]
        &&& self.actions.wf()
    }

    /// The slot assignment of a well-formed state is valid (see
    /// [`slots_valid`]).
    pub proof fn lemma_slots_valid(&self)
        requires
            self.wf(),
        ensures
            slots_valid(self@),
    {
        assert(self.gamepads.len() == self.gamepads@.len());
        assert(self@.gamepads.len() == self.gamepads@.len());
    }

    /// Fresh empty state: nothing held, pointer and scroll at `0.0`, no
    /// modifiers, no gamepads, no actions.
    pub fn new() -> (s: Self)
        ensures
            s.wf(),
            is_fresh(s@),
    {
        let s = InputState {
            keys_down: HashSet::new(),
            keys_just_pressed: HashSet::new(),
            keys_just_released: HashSet::new(),
            buttons_down: ListSet::new(),
            buttons_just_pressed: ListSet::new(),
            buttons_just_released: ListSet::new(),
            mouse_x: ZERO_BITS,
            mouse_y: ZERO_BITS,
            scroll_delta_x: ZERO_BITS,
            scroll_delta_y: ZERO_BITS,
            modifiers: Modifiers::none(),
            gamepads: Vec::new(),
            gamepad_slots: HashMap::new(),
            actions: ActionMap::new(),
        };
        assert(s@.gamepads =~= Seq::<PadModel>::empty());
        s
    }

    // ── Queries ─────────────────────────────────────────────────────────

    /// Is `key` currently held?
    pub fn is_key_down(&self, key: u32) -> (r: bool)
        ensures
            r == self@.keys_down.contains(key),
    {
        self.keys_down.contains(&key)
    }

    /// Did `key` go from up to down since the previous frame end?
    pub fn is_key_just_pressed(&self, key: u32) -> (r: bool)
        ensures
            r == self@.keys_just_pressed.contains(key),
    {
        self.keys_just_pressed.contains(&key)
    }

    /// Did `key` go from down to up since the previous frame end?
    pub fn is_key_just_released(&self, key: u32) -> (r: bool)
        ensures
            r == self@.keys_just_released.contains(key),
    {
        self.keys_just_released.contains(&key)
    }

    /// Is `button` currently held?
    pub fn is_mouse_down(&self, button: MouseButton) -> (r: bool)
        ensures
            r == self@.buttons_down.contains(button),
    {
        self.buttons_down.contains(&button)
    }

    /// Did `button` go from up to down since the previous frame end?
    pub fn is_mouse_just_pressed(&self, button: MouseButton) -> (r: bool)
        ensures
            r == self@.buttons_just_pressed.contains(button),
    {
        self.buttons_just_pressed.contains(&button)
    }

    /// Did `button` go from down to up since the previous frame end?
    pub fn is_mouse_just_released(&self, button: MouseButton) -> (r: bool)
        ensures
            r == self@.buttons_just_released.contains(button),
    {
        self.buttons_just_released.contains(&button)
    }

    /// Last observed pointer position (`f32` bits), in the event
    /// source's local coordinates.
    pub fn mouse_position(&self) -> (r: (u32, u32))
        ensures
            r == (self@.mouse_x, self@.mouse_y),
    {
        (self.mouse_x, self.mouse_y)
    }

    /// Scroll accumulated since the previous frame end (`f32` bits).
    pub fn scroll_delta(&self) -> (r: (u32, u32))
        ensures
            r == (self@.scroll_x, self@.scroll_y),
    {
        (self.scroll_delta_x, self.scroll_delta_y)
    }

    /// Modifier flags of the most recent event.
    pub fn modifiers(&self) -> (r: Modifiers)
        ensures
            r == self@.modifiers,
    {
        self.modifiers
    }


    // ── Gamepad queries ─────────────────────────────────────────────────

    /// Number of gamepad slots seen, disconnected ones included, so that
    /// slot indices stay stable across reconnects.
    pub fn gamepad_count(&self) -> (r: usize)
        ensures
            r == self@.gamepads.len(),
    {
        self.gamepads.len()
    }

    /// The slot's snapshot, if it exists and a controller is connected.
    fn live_gamepad(&self, gamepad: usize) -> (r: Option<&GamepadSnapshot>)
        requires
            self.wf(),
        ensures
            match r {
                Some(g) => live_pad(self@, gamepad) == Some(g@) && g.wf(),
                None => live_pad(self@, gamepad) is None,
            },
    {
        if gamepad < self.gamepads.len() {
            let g = &self.gamepads[gamepad];
            if g.connected() {
                Some(g)
            } else {
                None
            }
        } else {
            None
        }
    }

    /// Whether a controller is plugged into slot `gamepad`.
    pub fn is_gamepad_connected(&self, gamepad: usize) -> (r: bool)
        requires
            self.wf(),
        ensures
            r == (live_pad(self@, gamepad) is Some),
    {
        self.live_gamepad(gamepad).is_some()
    }

    /// Is `button` held on the controller in slot `gamepad`? `false`
    /// when the slot is empty or disconnected.
    pub fn is_gamepad_button_down(&self, gamepad: usize, button: GamepadButton) -> (r: bool)
        requires
            self.wf(),
        ensures
            r == (match live_pad(self@, gamepad) {
                Some(p) => p.buttons_down.contains(button),
                None => false,
            }),
    {
        match self.live_gamepad(gamepad) {
            Some(g) => g.is_button_down(button),
            None => false,
        }
    }

    /// Did `button` go from up to down during the latest poll?
    pub fn is_gamepad_button_just_pressed(&self, gamepad: usize, button: GamepadButton) -> (r: bool)
        requires
            self.wf(),
        ensures
            r == (match live_pad(self@, gamepad) {
                Some(p) => p.buttons_just_pressed.contains(button),
                None => false,
            }),
    {
        match self.live_gamepad(gamepad) {
            Some(g) => g.is_button_just_pressed(button),
            None => false,
        }
    }

    /// Did `button` go from down to up during the latest poll?
    pub fn is_gamepad_button_just_released(&self, gamepad: usize, button: GamepadButton) -> (r: bool)
        requires
            self.wf(),
        ensures
            r == (match live_pad(self@, gamepad) {
                Some(p) => p.buttons_just_released.contains(button),
                None => false,
            }),
    {
        match self.live_gamepad(gamepad) {
            Some(g) => g.is_button_just_released(button),
            None => false,
        }
    }

    /// Current value (`f32` bits) of `axis` on slot `gamepad`; `0.0` when
    /// the slot is empty or disconnected or the axis never reported.
    pub fn gamepad_axis(&self, gamepad: usize, axis: GamepadAxis) -> (r: u32)
        requires
            self.wf(),
        ensures
            r == live_axis(self@, gamepad, axis),
    {
        match self.live_gamepad(gamepad) {
            Some(g) => match g.axis(axis) {
                Some(v) => v,
                None => ZERO_BITS,
            },
            None => ZERO_BITS,
        }
    }

    // ── Action / axis bindings ──────────────────────────────────────────

    /// Installs an action map, replacing the previous one.
    pub fn set_actions(&mut self, actions: ActionMap)
        requires
            old(self).wf(),
            actions.wf(),
        ensures
            final(self).wf(),
            final(self)@ == (InputModel { actions: actions@, ..old(self)@ }),
    {
        self.actions = actions;
    }

    /// Whether one binding is active now (see [`binding_active`]).
    pub fn binding_is_active(&self, b: &Binding) -> (r: bool)
        requires
            self.wf(),
        ensures
            r == binding_active(self@, *b),
    {
        match *b {
            Binding::Key(k) => self.keys_down.contains(&k),
            Binding::Mouse(btn) => self.buttons_down.contains(&btn),
            Binding::GamepadButton { slot, button } => match self.live_gamepad(slot) {
                Some(g) => g.is_button_down(button),
                None => false,
            },
            Binding::GamepadAxisThreshold { slot, axis, threshold } => match self.live_gamepad(
                slot,
            ) {
                Some(g) => match g.axis(axis) {
                    Some(v) => abs_reaches_value(v, threshold),
                    None => false,
                },
                None => false,
            },
        }
    }

    /// Whether one binding has a press edge this frame.
    pub fn binding_just_pressed(&self, b: &Binding) -> (r: bool)
        requires
            self.wf(),
        ensures
            r == binding_pressed_edge(self@, *b),
    {
        match *b {
            Binding::Key(k) => self.keys_just_pressed.contains(&k),
            Binding::Mouse(btn) => self.buttons_just_pressed.contains(&btn),
            Binding::GamepadButton { slot, button } => match self.live_gamepad(slot) {
                Some(g) => g.is_button_just_pressed(button),
                None => false,
            },
            Binding::GamepadAxisThreshold { .. } => false,
        }
    }

    /// Whether one binding has a release edge this frame.
    pub fn binding_just_released(&self, b: &Binding) -> (r: bool)
        requires
            self.wf(),
        ensures
            r == binding_released_edge(self@, *b),
    {
        match *b {
            Binding::Key(k) => self.keys_just_released.contains(&k),
            Binding::Mouse(btn) => self.buttons_just_released.contains(&btn),
            Binding::GamepadButton { slot, button } => match self.live_gamepad(slot) {
                Some(g) => g.is_button_just_released(button),
                None => false,
            },
            Binding::GamepadAxisThreshold { .. } => false,
        }
    }

    /// Is the named action held? `true` iff any of its bindings is
    /// active; `false` for an unknown name.
    pub fn action_down(&self, action: &str) -> (r: bool)
        requires
            self.wf(),
        ensures
            r == action_is_down(self@, action@),
    {
        let bindings = match self.actions.action_bindings(action) {
            Some(bs) => bs,
            None => {
                return false;
            },
        };
        let ghost bs = action_bindings(self@, action@);
        let mut i: usize = 0;
        while i < bindings.len()
            invariant
                bindings@ == bs,
                bs == action_bindings(self@, action@),
                self.wf(),
                i <= bs.len(),
                forall|j: int| 0 <= j < i ==> !binding_active(self@, #[trigger] bs[j]),
            decreases bs.len() - i,
        {
            if self.binding_is_active(&bindings[i]) {
                assert(action_bindings(self@, action@)[i as int] == bindings@[i as int]);
                return true;
            }
            i = i + 1;
        }
        false
    }

    /// Did the named action get pressed this frame? `true` iff any of its
    /// bindings has a press edge; `false` for an unknown name.
    pub fn action_just_pressed(&self, action: &str) -> (r: bool)
        requires
            self.wf(),
        ensures
            r == action_was_pressed(self@, action@),
    {
        let bindings = match self.actions.action_bindings(action) {
            Some(bs) => bs,
            None => {
                return false;
            },
        };
        let ghost bs = action_bindings(self@, action@);
        let mut i: usize = 0;
        while i < bindings.len()
            invariant
                bindings@ == bs,
                bs == action_bindings(self@, action@),
                self.wf(),
                i <= bs.len(),
                forall|j: int| 0 <= j < i ==> !binding_pressed_edge(self@, #[trigger] bs[j]),
            decreases bs.len() - i,
        {
            if self.binding_just_pressed(&bindings[i]) {
                assert(action_bindings(self@, action@)[i as int] == bindings@[i as int]);
                return true;
            }
            i = i + 1;
        }
        false
    }

    /// Did the named action get released this frame? `true` iff any of
    /// its bindings has a release edge; `false` for an unknown name.
    pub fn action_just_released(&self, action: &str) -> (r: bool)
        requires
            self.wf(),
        ensures
            r == action_was_released(self@, action@),
    {
        let bindings = match self.actions.action_bindings(action) {
            Some(bs) => bs,
            None => {
                return false;
            },
        };
        let ghost bs = action_bindings(self@, action@);
        let mut i: usize = 0;
        while i < bindings.len()
            invariant
                bindings@ == bs,
                bs == action_bindings(self@, action@),
                self.wf(),
                i <= bs.len(),
                forall|j: int| 0 <= j < i ==> !binding_released_edge(self@, #[trigger] bs[j]),
            decreases bs.len() - i,
        {
            if self.binding_just_released(&bindings[i]) {
                assert(action_bindings(self@, action@)[i as int] == bindings@[i as int]);
                return true;
            }
            i = i + 1;
        }
        false
    }

    /// The value (`f32` bits) one axis binding contributes now.
    pub fn axis_value(&self, b: &AxisBinding) -> (r: u32)
        requires
            self.wf(),
        ensures
            r == axis_contribution(self@, *b),
    {
        match *b {
            AxisBinding::KeyPair { negative, positive } => {
                let n = self.keys_down.contains(&negative);
                let p = self.keys_down.contains(&positive);
                match (n, p) {
                    (true, false) => MINUS_ONE_BITS,
                    (false, true) => ONE_BITS,
                    _ => ZERO_BITS,
                }
            },
            AxisBinding::GamepadAxis { slot, axis } => self.gamepad_axis(slot, axis),
            AxisBinding::GamepadButtonPair { slot, negative, positive } => {
                let g = match self.live_gamepad(slot) {
                    Some(g) => g,
                    None => {
                        return ZERO_BITS;
                    },
                };
                let n = g.is_button_down(negative);
                let p = g.is_button_down(positive);
                match (n, p) {
                    (true, false) => MINUS_ONE_BITS,
                    (false, true) => ONE_BITS,
                    _ => ZERO_BITS,
                }
            },
        }
    }

    /// Value (`f32` bits) of the named virtual axis: the contribution of
    /// largest magnitude among its bindings (the first such on a tie), or
    /// `0.0` for an unknown name or when every contribution is zero.
    pub fn axis(&self, axis: &str) -> (r: u32)
        requires
            self.wf(),
        ensures
            resolves_to(axis_contributions(self@, axis@), r),
    {
        let bindings = match self.actions.axis_bindings(axis) {
            Some(bs) => bs,
            None => {
                return ZERO_BITS;
            },
        };
        let ghost vals = axis_contributions(self@, axis@);
        let mut best: u32 = ZERO_BITS;
        let mut i: usize = 0;
        while i < bindings.len()
            invariant
                vals.len() == bindings@.len(),
                forall|j: int| 0 <= j < vals.len() ==> #[trigger] vals[j] == axis_contribution(self@, bindings@[j]),
                self.wf(),
                i <= vals.len(),
                resolves_to(vals.take(i as int), best),
                !is_nan(best),
            decreases vals.len() - i,
        {
            let v = self.axis_value(&bindings[i]);
            let ghost old_best = best;
            if abs_greater(v, best) {
                best = v;
            }
            proof {
                lemma_resolve_step(vals, i as int, old_best, best);
            }
            i = i + 1;
        }
        proof {
            assert(vals.take(vals.len() as int) =~= vals);
        }
        best
    }


    // ── Gamepad polling ─────────────────────────────────────────────────

    /// Applies one desktop-backend event from controller `id`.
    fn apply_gamepad_event(&mut self, id: usize, e: GamepadEvent)
        requires
            old(self).wf(),
        ensures
            final(self).wf(),
            final(self)@ == after_gamepad_event(old(self)@, id, e),
    {
        let slot = match self.gamepad_slots.get(&id) {
            Some(s) => *s,
            None => {
                let idx = self.gamepads.len();
                self.gamepads.push(GamepadSnapshot::new());
                self.gamepad_slots.insert(id, idx);
                idx
            },
        };
        if slot >= self.gamepads.len() {
            return;
        }
        let ghost before = self.gamepads@;
        let mut g = self.gamepads.remove(slot);
        g.apply_event(e);
        self.gamepads.insert(slot, g);
        proof {
            assert(self.gamepads@ == before.update(slot as int, g));
            assert(self@.gamepads =~= after_gamepad_event(old(self)@, id, e).gamepads);
        }
    }

    /// Applies the events drained from the desktop backend this frame:
    /// every slot's edges are cleared first, so they reflect only this
    /// frame's transitions, then each event is applied in order.
    pub fn poll_gamepad_events(&mut self, events: &[GamepadEventRecord])
        requires
            old(self).wf(),
        ensures
            final(self).wf(),
            final(self)@ == after_gamepad_events(gamepad_edges_cleared(old(self)@), events@),
    {
        let ghost m0 = self@;
        let n = self.gamepads.len();
        let mut i: usize = 0;
        while i < n
            invariant
                n == self.gamepads@.len(),
                n == m0.gamepads.len(),
                i <= n,
                self.wf(),
                self@ == with_gamepads(m0, self@.gamepads),
                forall|s: int|
                    0 <= s < n ==> #[trigger] self@.gamepads[s] == (if s < i {
                        pad_edges_cleared(m0.gamepads[s])
                    } else {
                        m0.gamepads[s]
                    }),
            decreases n - i,
        {
            let ghost before = self.gamepads@;
            let ghost before_view = self@.gamepads;
            let mut g = self.gamepads.remove(i);
            g.clear_edges();
            self.gamepads.insert(i, g);
            proof {
                assert(self.gamepads@ == before.update(i as int, g));
                assert forall|s: int| 0 <= s < n implies #[trigger] self@.gamepads[s] == (if s < i + 1 {
                    pad_edges_cleared(m0.gamepads[s])
                } else {
                    m0.gamepads[s]
                }) by {
                    if s != i {
                        assert(self.gamepads@[s] == before[s]);
                        assert(before_view[s] == before[s]@);
                    } else {
                        assert(before_view[s] == before[s]@);
                    }
                }
            }
            i = i + 1;
        }
        proof {
            assert(self@.gamepads =~= gamepad_edges_cleared(m0).gamepads);
        }
        let ghost start = self@;
        let mut k: usize = 0;
        while k < events.len()
            invariant
                k <= events@.len(),
                self.wf(),
                start == gamepad_edges_cleared(m0),
                self@ == after_gamepad_events(start, events@.take(k as int)),
            decreases events@.len() - k,
        {
            let rec = events[k];
            self.apply_gamepad_event(rec.id, rec.event);
            proof {
                assert(events@.take(k + 1).drop_last() =~= events@.take(k as int));
            }
            k = k + 1;
        }
        proof {
            assert(events@.take(events@.len() as int) =~= events@);
        }
    }

    /// Applies one browser poll of the Web Gamepad API (see
    /// [`after_web_poll`]).
    pub fn poll_web_gamepads(&mut self, pads: &[Option<WebPadReading>])
        requires
            old(self).wf(),
        ensures
            final(self).wf(),
            final(self)@ == after_web_poll(old(self)@, pads@),
    {
        let ghost m0 = self@;
        let ghost total: int = if m0.gamepads.len() < pads@.len() {
            pads@.len() as int
        } else {
            m0.gamepads.len() as int
        };
        while self.gamepads.len() < pads.len()
            invariant
                self.wf(),
                total == (if m0.gamepads.len() < pads@.len() {
                    pads@.len() as int
                } else {
                    m0.gamepads.len() as int
                }),
                self@.gamepads.len() <= total,
                m0.gamepads.len() <= self@.gamepads.len(),
                forall|s: int|
                    0 <= s < self@.gamepads.len() ==> #[trigger] self@.gamepads[s] == slot_before_web(
                        m0,
                        s,
                    ),
                self@ == with_gamepads(m0, self@.gamepads),
            decreases pads@.len() - self.gamepads@.len(),
        {
            let ghost before = self@.gamepads;
            let ghost before_exec = self.gamepads@;
            self.gamepads.push(GamepadSnapshot::new());
            proof {
                assert forall|s: int| 0 <= s < self@.gamepads.len() implies #[trigger] self@.gamepads[s]
                    == slot_before_web(m0, s) by {
                    if s < before.len() {
                        assert(self.gamepads@[s] == before_exec[s]);
                        assert(before[s] == slot_before_web(m0, s));
                    }
                }
            }
        }
        let ghost grown = self@.gamepads;
        assert(grown.len() == total);
        let n = pads.len();
        let mut slot: usize = 0;
        while slot < n && slot < self.gamepads.len()
            invariant
                n == pads@.len(),
                slot <= n,
                n <= self@.gamepads.len(),
                self.wf(),
                grown.len() == self@.gamepads.len(),
                grown.len() == total,
                total == (if m0.gamepads.len() < pads@.len() {
                    pads@.len() as int
                } else {
                    m0.gamepads.len() as int
                }),
                forall|s: int| 0 <= s < grown.len() ==> #[trigger] grown[s] == slot_before_web(m0, s),
                forall|s: int|
                    0 <= s < self@.gamepads.len() ==> #[trigger] self@.gamepads[s] == (if s < slot {
                        match pads@[s] {
                            Some(r) => pad_after_web(grown[s], &r),
                            None => pad_after_web_absent(grown[s]),
                        }
                    } else {
                        grown[s]
                    }),
                self@ == with_gamepads(m0, self@.gamepads),
            decreases n - slot,
        {
            let ghost before = self.gamepads@;
            let ghost before_view = self@.gamepads;
            let mut g = self.gamepads.remove(slot);
            match &pads[slot] {
                Some(r) => g.apply_web_reading(r),
                None => g.apply_web_absent(),
            }
            self.gamepads.insert(slot, g);
            proof {
                assert(self.gamepads@ == before.update(slot as int, g));
                assert forall|s: int| 0 <= s < self@.gamepads.len() implies #[trigger] self@.gamepads[s] == (
                    if s < slot + 1 {
                        match pads@[s] {
                            Some(r) => pad_after_web(grown[s], &r),
                            None => pad_after_web_absent(grown[s]),
                        }
                    } else {
                        grown[s]
                    }) by {
                    if s != slot {
                        assert(self.gamepads@[s] == before[s]);
                        assert(before_view[s] == before[s]@);
                    } else {
                        assert(before_view[s] == grown[s]);
                    }
                }
            }
            slot = slot + 1;
        }
        proof {
            assert(self@.gamepads =~= after_web_poll(m0, pads@).gamepads);
        }
    }

    // ── Lifecycle ───────────────────────────────────────────────────────

    /// Records one event (see [`recorded`]). Returns whether the event is
    /// a scroll event, whose delta the caller adds to the frame's scroll
    /// with [`InputState::set_scroll_delta`].
    pub fn record(&mut self, e: &InputEvent) -> (scrolls: bool)
        requires
            old(self).wf(),
        ensures
            final(self).wf(),
            final(self)@ == recorded(old(self)@, *e),
            scrolls == (e.kind == EventKind::Scroll),
    {
        self.modifiers = Modifiers::new(e.shift, e.ctrl, e.alt, e.meta);
        match e.kind {
            EventKind::KeyDown => {
                let key = e.key_code;
                if self.keys_down.insert(key) {
                    self.keys_just_pressed.insert(key);
                }
                false
            },
            EventKind::KeyUp => {
                let key = e.key_code;
                if self.keys_down.remove(&key) {
                    self.keys_just_released.insert(key);
                }
                false
            },
            EventKind::PointerDown => {
                let btn = MouseButton::from_index(e.mouse_button);
                self.mouse_x = e.local_x;
                self.mouse_y = e.local_y;
                if self.buttons_down.insert(btn) {
                    self.buttons_just_pressed.insert(btn);
                }
                false
            },
            EventKind::PointerUp => {
                let btn = MouseButton::from_index(e.mouse_button);
                self.mouse_x = e.local_x;
                self.mouse_y = e.local_y;
                if self.buttons_down.remove(&btn) {
                    self.buttons_just_released.insert(btn);
                }
                false
            },
            EventKind::PointerMove => {
                self.mouse_x = e.local_x;
                self.mouse_y = e.local_y;
                false
            },
            EventKind::Scroll => true,
            EventKind::Other => false,
        }
    }

    /// Stores the frame's accumulated scroll (`f32` bits); the caller
    /// computes the sum, which is floating-point arithmetic.
    pub fn set_scroll_delta(&mut self, x: u32, y: u32)
        requires
            old(self).wf(),
        ensures
            final(self).wf(),
            final(self)@ == (InputModel { scroll_x: x, scroll_y: y, ..old(self)@ }),
    {
        self.scroll_delta_x = x;
        self.scroll_delta_y = y;
    }

    /// Call once per frame, after reading inputs: clears the key and mouse
    /// edges and the scroll. Held keys and buttons and the pointer persist.
    pub fn frame_end(&mut self)
        requires
            old(self).wf(),
        ensures
            final(self).wf(),
            final(self)@ == frame_ended(old(self)@),
    {
        self.keys_just_pressed.clear();
        self.keys_just_released.clear();
        self.buttons_just_pressed.clear();
        self.buttons_just_released.clear();
        self.scroll_delta_x = ZERO_BITS;
        self.scroll_delta_y = ZERO_BITS;
    }
}

impl Default for InputState {
    fn default() -> (s: Self)
        ensures
            s.wf(),
            is_fresh(s@),
    {
        InputState::new()
    }
}

} // verus!

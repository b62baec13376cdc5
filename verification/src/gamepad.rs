//! Per-controller polling state and the controller events that update it.

use vstd::prelude::*;
use crate::buttons::{GamepadAxis, GamepadButton, map_web_button_index, spec_web_button};
use crate::elem_set::ListSet;

verus! {

/// Abstract state of one gamepad slot.
pub struct PadModel {
    pub connected: bool,
    pub buttons_down: Set<GamepadButton>,
    pub buttons_just_pressed: Set<GamepadButton>,
    pub buttons_just_released: Set<GamepadButton>,
    /// Last reported value (as `f32` bits) of each axis seen so far.
    pub axes: Map<GamepadAxis, u32>,
}

/// A slot that has never seen a controller.
pub open spec fn empty_pad() -> PadModel {
    PadModel {
        connected: false,
        buttons_down: Set::empty(),
        buttons_just_pressed: Set::empty(),
        buttons_just_released: Set::empty(),
        axes: Map::empty(),
    }
}

/// A controller event of the desktop backend, with its button or axis
/// already mapped to the normalised names (`None` where the backend's
/// button or axis has no normalised counterpart). Analog values are
/// `f32` bit patterns.
#[derive(Clone, Copy, Debug)]
pub enum GamepadEvent {
    Connected,
    Disconnected,
    ButtonPressed(Option<GamepadButton>),
    ButtonReleased(Option<GamepadButton>),
    AxisChanged(Option<GamepadAxis>, u32),
    /// Analog value of a button; the analog triggers report this way.
    ButtonChanged(Option<GamepadButton>, u32),
    /// Any other event (repeats, dropped events, force feedback).
    Other,
}

/// The analog axis that mirrors a trigger button's value.
pub open spec fn spec_trigger_axis(b: GamepadButton) -> Option<GamepadAxis> {
    match b {
        GamepadButton::LeftTrigger => Some(GamepadAxis::LeftTrigger),
        GamepadButton::RightTrigger => Some(GamepadAxis::RightTrigger),
        _ => None,
    }
}

pub fn trigger_axis(b: GamepadButton) -> (a: Option<GamepadAxis>)
    ensures
        a == spec_trigger_axis(b),
{
    match b {
        GamepadButton::LeftTrigger => Some(GamepadAxis::LeftTrigger),
        GamepadButton::RightTrigger => Some(GamepadAxis::RightTrigger),
        _ => None,
    }
}

/// The state of a slot after one controller event.
pub open spec fn pad_after_event(p: PadModel, e: GamepadEvent) -> PadModel {
    match e {
        GamepadEvent::Connected => PadModel { connected: true, ..p },
        GamepadEvent::Disconnected => PadModel {
            connected: false,
            buttons_down: Set::empty(),
            axes: Map::empty(),
            ..p
        },
        GamepadEvent::ButtonPressed(Some(b)) => if p.buttons_down.contains(b) {
            p
        } else {
            PadModel {
                buttons_down: p.buttons_down.insert(b),
                buttons_just_pressed: p.buttons_just_pressed.insert(b),
                ..p
            }
        },
        GamepadEvent::ButtonReleased(Some(b)) => if p.buttons_down.contains(b) {
            PadModel {
                buttons_down: p.buttons_down.remove(b),
                buttons_just_released: p.buttons_just_released.insert(b),
                ..p
            }
        } else {
            p
        },
        GamepadEvent::AxisChanged(Some(a), v) => PadModel { axes: p.axes.insert(a, v), ..p },
        GamepadEvent::ButtonChanged(Some(b), v) => match spec_trigger_axis(b) {
            Some(a) => PadModel { axes: p.axes.insert(a, v), ..p },
            None => p,
        },
        _ => p,
    }
}

/// The slot with this frame's edges cleared.
pub open spec fn pad_edges_cleared(p: PadModel) -> PadModel {
    PadModel { buttons_just_pressed: Set::empty(), buttons_just_released: Set::empty(), ..p }
}

/// Index of the button in the W3C "Standard Gamepad" button array.
pub open spec fn web_index(b: GamepadButton) -> int {
    match b {
        GamepadButton::South => 0,
        GamepadButton::East => 1,
        GamepadButton::West => 2,
        GamepadButton::North => 3,
        GamepadButton::LeftShoulder => 4,
        GamepadButton::RightShoulder => 5,
        GamepadButton::LeftTrigger => 6,
        GamepadButton::RightTrigger => 7,
        GamepadButton::Select => 8,
        GamepadButton::Start => 9,
        GamepadButton::LeftThumb => 10,
        GamepadButton::RightThumb => 11,
        GamepadButton::DPadUp => 12,
        GamepadButton::DPadDown => 13,
        GamepadButton::DPadLeft => 14,
        GamepadButton::DPadRight => 15,
        GamepadButton::Mode => 16,
    }
}

/// Every button has exactly one index in the standard layout.
pub proof fn lemma_web_index(i: u32, b: GamepadButton)
    ensures
        spec_web_button(web_index(b) as u32) == Some(b),
        0 <= web_index(b) <= 16,
        spec_web_button(i) == Some(b) ==> i == web_index(b),
{
}

/// The stick axis at index `i` of the Web Gamepad API axes array.
pub open spec fn spec_web_stick_axis(i: int) -> Option<GamepadAxis> {
    if i == 0 {
        Some(GamepadAxis::LeftStickX)
    } else if i == 1 {
        Some(GamepadAxis::LeftStickY)
    } else if i == 2 {
        Some(GamepadAxis::RightStickX)
    } else if i == 3 {
        Some(GamepadAxis::RightStickY)
    } else {
        None
    }
}

/// The stick axis at index `i` of the Web Gamepad API axes array; the
/// standard layout has four.
pub fn web_stick_axis(i: usize) -> (a: Option<GamepadAxis>)
    ensures
        a == spec_web_stick_axis(i as int),
{
    match i {
        0 => Some(GamepadAxis::LeftStickX),
        1 => Some(GamepadAxis::LeftStickY),
        2 => Some(GamepadAxis::RightStickX),
        3 => Some(GamepadAxis::RightStickY),
        _ => None,
    }
}

/// Vertical stick axes, whose Web Gamepad API sign (down positive) is
/// the reverse of this library's (up positive).
pub open spec fn spec_web_axis_inverted(a: GamepadAxis) -> bool {
    a == GamepadAxis::LeftStickY || a == GamepadAxis::RightStickY
}

/// Whether a value read from the Web Gamepad API for this axis must be
/// negated to follow the up-positive convention.
pub fn web_axis_inverted(a: GamepadAxis) -> (r: bool)
    ensures
        r == spec_web_axis_inverted(a),
{
    match a {
        GamepadAxis::LeftStickY | GamepadAxis::RightStickY => true,
        _ => false,
    }
}

/// Index in the Web Gamepad API axes array of a stick axis.
pub open spec fn web_stick_index(a: GamepadAxis) -> Option<int> {
    match a {
        GamepadAxis::LeftStickX => Some(0),
        GamepadAxis::LeftStickY => Some(1),
        GamepadAxis::RightStickX => Some(2),
        GamepadAxis::RightStickY => Some(3),
        _ => None,
    }
}

/// One entry of the browser's button array.
#[derive(Clone, Copy, Debug)]
pub struct WebButtonReading {
    pub pressed: bool,
    /// Analog value in `0.0 ..= 1.0`, as `f32` bits.
    pub value: u32,
}

/// One present controller as the browser reports it this frame.
pub struct WebPadReading {
    pub connected: bool,
    /// Button array in "Standard Gamepad" order; `None` for an entry
    /// that is not a button object.
    pub buttons: Vec<Option<WebButtonReading>>,
    /// Stick values in axes-array order, already in this library's sign
    /// convention (see [`web_axis_inverted`]), as `f32` bits; `None` for
    /// an entry that is not a number.
    pub axes: Vec<Option<u32>>,
}

/// The reading for button `b`, if its index is below `n` and the entry
/// is a button object.
pub open spec fn web_reading_upto(r: &WebPadReading, b: GamepadButton, n: int) -> Option<
    WebButtonReading,
> {
    if web_index(b) < n && web_index(b) < r.buttons@.len() {
        r.buttons@[web_index(b)]
    } else {
        None
    }
}

/// The trigger value reported through button entries below `n`.
pub open spec fn web_trigger_upto(r: &WebPadReading, a: GamepadAxis, n: int) -> Option<u32> {
    match a {
        GamepadAxis::LeftTrigger => match web_reading_upto(r, GamepadButton::LeftTrigger, n) {
            Some(br) => Some(br.value),
            None => None,
        },
        GamepadAxis::RightTrigger => match web_reading_upto(r, GamepadButton::RightTrigger, n) {
            Some(br) => Some(br.value),
            None => None,
        },
        _ => None,
    }
}

/// The stick value reported at an axes-array index below `n`.
pub open spec fn web_stick_upto(r: &WebPadReading, a: GamepadAxis, n: int) -> Option<u32> {
    match web_stick_index(a) {
        Some(k) => if k < n && k < r.axes@.len() {
            r.axes@[k]
        } else {
            None
        },
        None => None,
    }
}

/// `m` with each axis for which `f` reports a value overwritten by it.
pub open spec fn override_axes(m: Map<GamepadAxis, u32>, f: spec_fn(GamepadAxis) -> Option<u32>) -> Map<
    GamepadAxis,
    u32,
> {
    Map::new(
        |a: GamepadAxis| f(a) is Some || m.contains_key(a),
        |a: GamepadAxis|
            match f(a) {
                Some(v) => v,
                None => m[a],
            },
    )
}

/// The slot after applying the button entries below `n`: edges are this
/// frame's only, and a button changes only on a press or release edge.
pub open spec fn pad_web_buttons(p: PadModel, r: &WebPadReading, n: int) -> PadModel {
    PadModel {
        connected: r.connected,
        buttons_down: Set::new(
            |b: GamepadButton|
                match web_reading_upto(r, b, n) {
                    Some(br) => br.pressed,
                    None => p.buttons_down.contains(b),
                },
        ),
        buttons_just_pressed: Set::new(
            |b: GamepadButton|
                match web_reading_upto(r, b, n) {
                    Some(br) => br.pressed && !p.buttons_down.contains(b),
                    None => false,
                },
        ),
        buttons_just_released: Set::new(
            |b: GamepadButton|
                match web_reading_upto(r, b, n) {
                    Some(br) => !br.pressed && p.buttons_down.contains(b),
                    None => false,
                },
        ),
        axes: override_axes(p.axes, |a: GamepadAxis| web_trigger_upto(r, a, n)),
    }
}

/// The slot after applying the stick entries below `n`.
pub open spec fn pad_web_sticks(p: PadModel, r: &WebPadReading, n: int) -> PadModel {
    PadModel { axes: override_axes(p.axes, |a: GamepadAxis| web_stick_upto(r, a, n)), ..p }
}

/// The slot after one browser reading of a present controller.
pub open spec fn pad_after_web(p: PadModel, r: &WebPadReading) -> PadModel {
    pad_web_sticks(pad_web_buttons(p, r, r.buttons@.len() as int), r, 4)
}

/// The slot after the browser reports no controller there: a connected
/// slot is disconnected with its held buttons and axes cleared; a slot
/// already disconnected is left as it is.
pub open spec fn pad_after_web_absent(p: PadModel) -> PadModel {
    if p.connected {
        PadModel { connected: false, buttons_down: Set::empty(), axes: Map::empty(), ..p }
    } else {
        p
    }
}

/// Map view of a six-entry axis table indexed by [`GamepadAxis::slot`].
pub open spec fn axes_map(s: Seq<Option<u32>>) -> Map<GamepadAxis, u32> {
    Map::new(
        |a: GamepadAxis| s[a.spec_slot()] is Some,
        |a: GamepadAxis|
            match s[a.spec_slot()] {
                Some(v) => v,
                None => 0,
            },
    )
}

/// Polling state of one gamepad slot.
#[derive(Clone, Debug)]
pub struct GamepadSnapshot {
    connected: bool,
    buttons_down: ListSet<GamepadButton>,
    buttons_just_pressed: ListSet<GamepadButton>,
    buttons_just_released: ListSet<GamepadButton>,
    axes: Vec<Option<u32>>,
}

impl View for GamepadSnapshot {
    type V = PadModel;

    closed spec fn view(&self) -> PadModel {
        PadModel {
            connected: self.connected,
            buttons_down: self.buttons_down@,
            buttons_just_pressed: self.buttons_just_pressed@,
            buttons_just_released: self.buttons_just_released@,
            axes: axes_map(self.axes@),
        }
    }
}

impl GamepadSnapshot {
    pub closed spec fn wf(&self) -> bool {
        &&& self.buttons_down.wf()
        &&& self.buttons_just_pressed.wf()
        &&& self.buttons_just_released.wf()
        &&& self.axes@.len() == 6
    }

    /// A disconnected slot with nothing held and no axis reported.
    pub fn new() -> (s: Self)
        ensures
            s.wf(),
            s@ == empty_pad(),
    {
        let mut axes: Vec<Option<u32>> = Vec::new();
        axes.push(None);
        axes.push(None);
        axes.push(None);
        axes.push(None);
        axes.push(None);
        axes.push(None);
        let s = GamepadSnapshot {
            connected: false,
            buttons_down: ListSet::new(),
            buttons_just_pressed: ListSet::new(),
            buttons_just_released: ListSet::new(),
            axes,
        };
        assert(axes_map(s.axes@) =~= Map::<GamepadAxis, u32>::empty());
        s
    }

    /// Whether a controller is plugged into this slot.
    pub fn connected(&self) -> (r: bool)
        ensures
            r == self@.connected,
    {
        self.connected
    }

    pub fn is_button_down(&self, b: GamepadButton) -> (r: bool)
        ensures
            r == self@.buttons_down.contains(b),
    {
        self.buttons_down.contains(&b)
    }

    pub fn is_button_just_pressed(&self, b: GamepadButton) -> (r: bool)
        ensures
            r == self@.buttons_just_pressed.contains(b),
    {
        self.buttons_just_pressed.contains(&b)
    }

    pub fn is_button_just_released(&self, b: GamepadButton) -> (r: bool)
        ensures
            r == self@.buttons_just_released.contains(b),
    {
        self.buttons_just_released.contains(&b)
    }

    /// Last reported value of `a` (as `f32` bits), if any.
    pub fn axis(&self, a: GamepadAxis) -> (r: Option<u32>)
        requires
            self.wf(),
        ensures
            r == (if self@.axes.contains_key(a) {
                Some(self@.axes[a])
            } else {
                None
            }),
    {
        self.axes[a.slot()]
    }

    fn set_axis(&mut self, a: GamepadAxis, v: u32)
        requires
            old(self).wf(),
        ensures
            final(self).wf(),
            final(self)@ == (PadModel { axes: old(self)@.axes.insert(a, v), ..old(self)@ }),
    {
        let i = a.slot();
        self.axes.set(i, Some(v));
        assert(axes_map(self.axes@) =~= axes_map(old(self).axes@).insert(a, v));
    }

    fn clear_axes(&mut self)
        requires
            old(self).wf(),
        ensures
            final(self).wf(),
            final(self)@ == (PadModel { axes: Map::empty(), ..old(self)@ }),
    {
        self.axes.set(0, None);
        self.axes.set(1, None);
        self.axes.set(2, None);
        self.axes.set(3, None);
        self.axes.set(4, None);
        self.axes.set(5, None);
        assert(axes_map(self.axes@) =~= Map::<GamepadAxis, u32>::empty());
    }

    fn set_connected(&mut self, c: bool)
        ensures
            final(self)@ == (PadModel { connected: c, ..old(self)@ }),
            final(self).wf() == old(self).wf(),
    {
        self.connected = c;
    }

    /// Forgets this frame's press and release edges.
    pub fn clear_edges(&mut self)
        requires
            old(self).wf(),
        ensures
            final(self).wf(),
            final(self)@ == pad_edges_cleared(old(self)@),
    {
        self.buttons_just_pressed.clear();
        self.buttons_just_released.clear();
    }

    /// Applies one desktop-backend controller event to this slot.
    pub fn apply_event(&mut self, e: GamepadEvent)
        requires
            old(self).wf(),
        ensures
            final(self).wf(),
            final(self)@ == pad_after_event(old(self)@, e),
    {
        match e {
            GamepadEvent::Connected => {
                self.set_connected(true);
            },
            GamepadEvent::Disconnected => {
                self.connected = false;
                assert(self@ == (PadModel { connected: false, ..old(self)@ }));
                self.buttons_down.clear();
                self.clear_axes();
            },
            GamepadEvent::ButtonPressed(Some(b)) => {
                if self.buttons_down.insert(b) {
                    self.buttons_just_pressed.insert(b);
                } else {
                    assert(self.buttons_down@ =~= old(self).buttons_down@);
                }
            },
            GamepadEvent::ButtonReleased(Some(b)) => {
                if self.buttons_down.remove(&b) {
                    self.buttons_just_released.insert(b);
                } else {
                    assert(self.buttons_down@ =~= old(self).buttons_down@);
                }
            },
            GamepadEvent::AxisChanged(Some(a), v) => {
                self.set_axis(a, v);
            },
            GamepadEvent::ButtonChanged(Some(b), v) => {
                if let Some(a) = trigger_axis(b) {
                    self.set_axis(a, v);
                }
            },
            _ => {},
        }
    }

    /// Applies this frame's browser reading of a present controller:
    /// edges are cleared, each standard button entry updates the held set
    /// on a press or release edge, the trigger entries update the trigger
    /// axes, and the four stick entries update the stick axes.
    pub fn apply_web_reading(&mut self, r: &WebPadReading)
        requires
            old(self).wf(),
        ensures
            final(self).wf(),
            final(self)@ == pad_after_web(old(self)@, r),
    {
        let ghost p0 = self@;
        self.clear_edges();
        self.set_connected(r.connected);
        proof {
            assert(self@.buttons_down =~= pad_web_buttons(p0, r, 0).buttons_down);
            assert(self@.buttons_just_pressed =~= pad_web_buttons(p0, r, 0).buttons_just_pressed);
            assert(self@.buttons_just_released =~= pad_web_buttons(p0, r, 0).buttons_just_released);
            assert(self@.axes =~= pad_web_buttons(p0, r, 0).axes);
        }
        let n = r.buttons.len();
        let mut i: usize = 0;
        while i < n
            invariant
                n == r.buttons@.len(),
                i <= n,
                self.wf(),
                self@ == pad_web_buttons(p0, r, i as int),
            decreases n - i,
        {
            let mapped = if i <= u32::MAX as usize {
                map_web_button_index(i as u32)
            } else {
                None
            };
            proof {
                assert forall|b: GamepadButton| web_index(b) != i implies #[trigger] web_reading_upto(r, b, i + 1)
                    == web_reading_upto(r, b, i as int) by {}
            }
            match (r.buttons[i], mapped) {
                (Some(br), Some(b)) => {
                    proof {
                        lemma_web_index(i as u32, b);
                        assert(web_index(b) == i);
                    }
                    let was_down = self.buttons_down.contains(&b);
                    if br.pressed && !was_down {
                        self.buttons_down.insert(b);
                        self.buttons_just_pressed.insert(b);
                    } else if !br.pressed && was_down {
                        self.buttons_down.remove(&b);
                        self.buttons_just_released.insert(b);
                    }
                    if let Some(a) = trigger_axis(b) {
                        self.set_axis(a, br.value);
                    }
                    proof {
                        let want = pad_web_buttons(p0, r, i + 1);
                        assert forall|c: GamepadButton| #[trigger] self@.buttons_down.contains(c)
                            == want.buttons_down.contains(c) by {
                            if c != b {
                                assert(web_index(c) != i);
                            }
                        }
                        assert forall|c: GamepadButton| #[trigger] self@.buttons_just_pressed.contains(c)
                            == want.buttons_just_pressed.contains(c) by {
                            if c != b {
                                assert(web_index(c) != i);
                            }
                        }
                        assert forall|c: GamepadButton| #[trigger] self@.buttons_just_released.contains(c)
                            == want.buttons_just_released.contains(c) by {
                            if c != b {
                                assert(web_index(c) != i);
                            }
                        }
                        assert forall|c: GamepadAxis| #[trigger] web_trigger_upto(r, c, i + 1)
                            == (if spec_trigger_axis(b) == Some(c) { Some(br.value) } else { web_trigger_upto(r, c, i as int) }) by {
                            if c == GamepadAxis::LeftTrigger {
                                if b != GamepadButton::LeftTrigger {
                                    assert(web_index(GamepadButton::LeftTrigger) != i);
                                }
                            } else if c == GamepadAxis::RightTrigger {
                                if b != GamepadButton::RightTrigger {
                                    assert(web_index(GamepadButton::RightTrigger) != i);
                                }
                            }
                        }
                        assert(self@.buttons_down =~= want.buttons_down);
                        assert(self@.buttons_just_pressed =~= want.buttons_just_pressed);
                        assert(self@.buttons_just_released =~= want.buttons_just_released);
                        assert(self@.axes =~= want.axes);
                    }
                },
                _ => {
                    proof {
                        let want = pad_web_buttons(p0, r, i + 1);
                        assert forall|c: GamepadButton| #[trigger] web_reading_upto(r, c, i + 1)
                            == web_reading_upto(r, c, i as int) by {
                            if web_index(c) == i {
                                lemma_web_index(i as u32, c);
                            }
                        }
                        assert forall|c: GamepadAxis| #[trigger] web_trigger_upto(r, c, i + 1)
                            == web_trigger_upto(r, c, i as int) by {
                            assert(web_reading_upto(r, GamepadButton::LeftTrigger, i + 1)
                                == web_reading_upto(r, GamepadButton::LeftTrigger, i as int));
                            assert(web_reading_upto(r, GamepadButton::RightTrigger, i + 1)
                                == web_reading_upto(r, GamepadButton::RightTrigger, i as int));
                        }
                        assert(self@.buttons_down =~= want.buttons_down);
                        assert(self@.buttons_just_pressed =~= want.buttons_just_pressed);
                        assert(self@.buttons_just_released =~= want.buttons_just_released);
                        assert(self@.axes =~= want.axes);
                    }
                },
            }
            i = i + 1;
        }
        let ghost pb = self@;
        proof {
            assert(self@.axes =~= pad_web_sticks(pb, r, 0).axes);
        }
        let mut k: usize = 0;
        while k < 4
            invariant
                k <= 4,
                self.wf(),
                self@ == pad_web_sticks(pb, r, k as int),
            decreases 4 - k,
        {
            if let Some(a) = web_stick_axis(k) {
                if k < r.axes.len() {
                    if let Some(v) = r.axes[k] {
                        self.set_axis(a, v);
                    }
                }
            }
            proof {
                assert(self@.axes =~= pad_web_sticks(pb, r, k + 1).axes);
            }
            k = k + 1;
        }
    }

    /// The browser reports no controller in this slot.
    pub fn apply_web_absent(&mut self)
        requires
            old(self).wf(),
        ensures
            final(self).wf(),
            final(self)@ == pad_after_web_absent(old(self)@),
    {
        if self.connected {
            self.connected = false;
            self.buttons_down.clear();
            self.clear_axes();
        }
    }
}

impl Default for GamepadSnapshot {
    fn default() -> (s: Self)
        ensures
            s.wf(),
            s@ == empty_pad(),
    {
        GamepadSnapshot::new()
    }
}

} // verus!

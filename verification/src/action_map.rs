//! Named actions and virtual axes bound to raw inputs.

use vstd::prelude::*;
use crate::buttons::{GamepadAxis, GamepadButton, MouseButton};

verus! {

/// A single input source that can trigger an action. An action is held
/// when *any* of its bound sources is active.
#[derive(Clone, Copy, Debug)]
pub enum Binding {
    /// Keyboard key, by key code.
    Key(u32),
    /// Mouse button.
    Mouse(MouseButton),
    /// Gamepad button on a specific slot.
    GamepadButton { slot: usize, button: GamepadButton },
    /// Gamepad analog axis, held while `|value| >= threshold` (both as
    /// `f32` bits; a negative threshold is reached by any value). Useful
    /// for "trigger past halfway" or "stick past deadzone" as a digital
    /// action. It carries no edge.
    GamepadAxisThreshold { slot: usize, axis: GamepadAxis, threshold: u32 },
}

/// A source contributing to a virtual axis's value. Several bindings on
/// one axis resolve to the contribution of largest magnitude.
#[derive(Clone, Copy, Debug)]
#[allow(inconsistent_fields)]
pub enum AxisBinding {
    /// Two keys form an axis: `-1.0` while only `negative` is held,
    /// `+1.0` while only `positive` is held, `0.0` otherwise (both held
    /// cancel).
    KeyPair { negative: u32, positive: u32 },
    /// A gamepad axis passed through unchanged (no deadzone).
    GamepadAxis { slot: usize, axis: GamepadAxis },
    /// Two gamepad buttons form an axis, with the semantics of `KeyPair`.
    /// Good for mapping DPad directions to `-1 / 0 / +1`.
    GamepadButtonPair { slot: usize, negative: GamepadButton, positive: GamepadButton },
}

/// One name and the bindings registered under it, in registration order.
#[derive(Clone)]
pub struct NamedBindings<B> {
    name: String,
    bindings: Vec<B>,
}

impl<B> View for NamedBindings<B> {
    type V = (Seq<char>, Seq<B>);

    closed spec fn view(&self) -> (Seq<char>, Seq<B>) {
        (self.name@, self.bindings@)
    }
}

impl<B> NamedBindings<B> {
    pub fn name(&self) -> (r: &str)
        ensures
            r@ == self@.0,
    {
        self.name.as_str()
    }

    pub fn bindings(&self) -> (r: &[B])
        ensures
            r@ == self@.1,
    {
        self.bindings.as_slice()
    }
}

/// The name → bindings map that a list of entries with distinct names
/// denotes.
pub open spec fn entries_map<B>(es: Seq<NamedBindings<B>>) -> Map<Seq<char>, Seq<B>> {
    Map::new(
        |k: Seq<char>| exists|i: int| 0 <= i < es.len() && (#[trigger] es[i]@).0 == k,
        |k: Seq<char>| es[choose|i: int| 0 <= i < es.len() && (#[trigger] es[i]@).0 == k]@.1,
    )
}

/// No two entries share a name.
pub open spec fn distinct_names<B>(es: Seq<NamedBindings<B>>) -> bool {
    forall|i: int, j: int|
        0 <= i < es.len() && 0 <= j < es.len() && i != j ==> (#[trigger] es[i]@).0 != (
        #[trigger] es[j]@).0
}

/// The bindings under `name` after one more is registered.
pub open spec fn map_bind<B>(m: Map<Seq<char>, Seq<B>>, name: Seq<char>, b: B) -> Map<
    Seq<char>,
    Seq<B>,
> {
    m.insert(
        name,
        if m.contains_key(name) {
            m[name].push(b)
        } else {
            seq![b]
        },
    )
}

proof fn lemma_entries_map_at<B>(es: Seq<NamedBindings<B>>, i: int)
    requires
        distinct_names(es),
        0 <= i < es.len(),
    ensures
        entries_map(es).contains_key(es[i]@.0),
        entries_map(es)[es[i]@.0] == es[i]@.1,
{
    let k = es[i]@.0;
    assert(0 <= i < es.len() && (es[i]@).0 == k);
    let j = choose|j: int| 0 <= j < es.len() && (#[trigger] es[j]@).0 == k;
    assert(j == i);
}

/// A list of named binding lists with distinct names.
#[derive(Clone)]
pub struct BindingTable<B> {
    entries: Vec<NamedBindings<B>>,
}

impl<B> View for BindingTable<B> {
    type V = Map<Seq<char>, Seq<B>>;

    closed spec fn view(&self) -> Map<Seq<char>, Seq<B>> {
        entries_map(self.entries@)
    }
}

impl<B: Copy> BindingTable<B> {
    /// Names are distinct and every listed name has at least one binding.
    pub closed spec fn wf(&self) -> bool {
        &&& distinct_names(self.entries@)
        &&& forall|i: int| 0 <= i < self.entries@.len() ==> (#[trigger] self.entries@[i]@).1.len() > 0
    }

    pub fn new() -> (t: Self)
        ensures
            t.wf(),
            t@ == Map::<Seq<char>, Seq<B>>::empty(),
    {
        let t = BindingTable { entries: Vec::new() };
        assert(t@ =~= Map::<Seq<char>, Seq<B>>::empty());
        t
    }

    /// Index of the entry named `name`, if any.
    fn position(&self, name: &String) -> (r: Option<usize>)
        requires
            self.wf(),
        ensures
            match r {
                Some(i) => i < self.entries@.len() && self.entries@[i as int]@.0 == name@,
                None => !self@.contains_key(name@),
            },
    {
        let mut i: usize = 0;
        while i < self.entries.len()
            invariant
                i <= self.entries@.len(),
                forall|j: int| 0 <= j < i ==> (#[trigger] self.entries@[j]@).0 != name@,
            decreases self.entries@.len() - i,
        {
            if self.entries[i].name == *name {
                return Some(i);
            }
            i = i + 1;
        }
        None
    }

    /// The bindings registered under `name`.
    pub fn get(&self, name: &str) -> (r: Option<&[B]>)
        requires
            self.wf(),
        ensures
            match r {
                Some(bs) => self@.contains_key(name@) && bs@ == self@[name@],
                None => !self@.contains_key(name@),
            },
    {
        let key = name.to_owned();
        match self.position(&key) {
            Some(i) => {
                proof {
                    lemma_entries_map_at(self.entries@, i as int);
                }
                Some(self.entries[i].bindings.as_slice())
            },
            None => None,
        }
    }

    /// Appends `b` to the bindings of `name`.
    pub fn bind(&mut self, name: &str, b: B)
        requires
            old(self).wf(),
        ensures
            final(self).wf(),
            final(self)@ == map_bind(old(self)@, name@, b),
    {
        let key = name.to_owned();
        let ghost m0 = self@;
        match self.position(&key) {
            Some(i) => {
                let ghost es0 = self.entries@;
                proof {
                    lemma_entries_map_at(es0, i as int);
                }
                let mut e = self.entries.remove(i);
                e.bindings.push(b);
                self.entries.insert(i, e);
                proof {
                    let es = self.entries@;
                    assert forall|j: int| 0 <= j < es.len() && j != i implies #[trigger] es[j] == es0[j] by {}
                    assert forall|j: int| 0 <= j < es.len() implies (#[trigger] es[j]@).1.len() > 0 by {
                        if j != i {
                            assert(es[j] == es0[j]);
                        }
                    }
                    assert forall|x: int, y: int|
                        0 <= x < es.len() && 0 <= y < es.len() && x != y implies (#[trigger] es[x]@).0
                        != (#[trigger] es[y]@).0 by {
                        assert((es0[x]@).0 != (es0[y]@).0);
                    }
                    assert forall|k: Seq<char>| #[trigger] self@.contains_key(k) == map_bind(m0, name@, b).contains_key(k) by {
                        if self@.contains_key(k) {
                            let j = choose|j: int| 0 <= j < es.len() && (#[trigger] es[j]@).0 == k;
                            assert(0 <= j < es0.len() && (es0[j]@).0 == k);
                        }
                        if m0.contains_key(k) {
                            let j = choose|j: int| 0 <= j < es0.len() && (#[trigger] es0[j]@).0 == k;
                            assert(0 <= j < es.len() && (es[j]@).0 == k);
                        }
                    }
                    assert forall|k: Seq<char>| #[trigger] self@.contains_key(k) implies self@[k] == map_bind(m0, name@, b)[k] by {
                        let j = choose|j: int| 0 <= j < es.len() && (#[trigger] es[j]@).0 == k;
                        lemma_entries_map_at(es, j);
                        if j != i {
                            lemma_entries_map_at(es0, j);
                        }
                    }
                    assert(self@ =~= map_bind(m0, name@, b));
                }
            },
            None => {
                let ghost es0 = self.entries@;
                let mut bs: Vec<B> = Vec::new();
                bs.push(b);
                self.entries.push(NamedBindings { name: key, bindings: bs });
                proof {
                    let es = self.entries@;
                    let n = es0.len() as int;
                    assert forall|j: int| 0 <= j < es.len() implies (#[trigger] es[j]@).1.len() > 0 by {
                        if j < n {
                            assert(es[j] == es0[j]);
                        }
                    }
                    assert forall|x: int, y: int|
                        0 <= x < es.len() && 0 <= y < es.len() && x != y implies (#[trigger] es[x]@).0
                        != (#[trigger] es[y]@).0 by {
                        if x < n && y < n {
                            assert((es0[x]@).0 != (es0[y]@).0);
                        } else if x < n {
                            assert(es0[x] == es[x]);
                        } else {
                            assert(es0[y] == es[y]);
                        }
                    }
                    assert forall|k: Seq<char>| #[trigger] self@.contains_key(k) == map_bind(m0, name@, b).contains_key(k) by {
                        if self@.contains_key(k) {
                            let j = choose|j: int| 0 <= j < es.len() && (#[trigger] es[j]@).0 == k;
                            if j < n {
                                assert(0 <= j < es0.len() && (es0[j]@).0 == k);
                            }
                        }
                        if m0.contains_key(k) {
                            let j = choose|j: int| 0 <= j < es0.len() && (#[trigger] es0[j]@).0 == k;
                            assert(0 <= j < es.len() && (es[j]@).0 == k);
                        }
                        if k == name@ {
                            assert(0 <= n < es.len() && (es[n]@).0 == k);
                        }
                    }
                    assert forall|k: Seq<char>| #[trigger] self@.contains_key(k) implies self@[k] == map_bind(m0, name@, b)[k] by {
                        let j = choose|j: int| 0 <= j < es.len() && (#[trigger] es[j]@).0 == k;
                        lemma_entries_map_at(es, j);
                        if j < n {
                            assert(es[j] == es0[j]);
                            lemma_entries_map_at(es0, j);
                        } else {
                            assert(es[j]@.1 =~= seq![b]);
                        }
                    }
                    assert(self@ =~= map_bind(m0, name@, b));
                }
            },
        }
    }

    /// Drops every binding registered under `name`.
    pub fn clear(&mut self, name: &str)
        requires
            old(self).wf(),
        ensures
            final(self).wf(),
            final(self)@ == old(self)@.remove(name@),
    {
        let key = name.to_owned();
        let ghost m0 = self@;
        match self.position(&key) {
            Some(i) => {
                let ghost es0 = self.entries@;
                self.entries.remove(i);
                proof {
                    let es = self.entries@;
                    assert forall|j: int| 0 <= j < es.len() implies #[trigger] es[j] == es0[if j < i { j } else { j + 1 }] by {}
                    assert forall|j: int| 0 <= j < es.len() implies (#[trigger] es[j]@).1.len() > 0 by {
                        assert(es[j] == es0[if j < i { j } else { j + 1 }]);
                    }
                    assert forall|x: int, y: int|
                        0 <= x < es.len() && 0 <= y < es.len() && x != y implies (#[trigger] es[x]@).0
                        != (#[trigger] es[y]@).0 by {
                        let x0 = if x < i { x } else { x + 1 };
                        let y0 = if y < i { y } else { y + 1 };
                        assert(es[x] == es0[x0]);
                        assert(es[y] == es0[y0]);
                        assert((es0[x0]@).0 != (es0[y0]@).0);
                    }
                    assert forall|k: Seq<char>| #[trigger] self@.contains_key(k) == m0.remove(name@).contains_key(k) by {
                        if self@.contains_key(k) {
                            let j = choose|j: int| 0 <= j < es.len() && (#[trigger] es[j]@).0 == k;
                            let j0 = if j < i { j } else { j + 1 };
                            assert(es[j] == es0[j0]);
                            assert(0 <= j0 < es0.len() && (es0[j0]@).0 == k);
                            assert(j0 != i);
                        }
                        if m0.contains_key(k) && k != name@ {
                            let j0 = choose|j: int| 0 <= j < es0.len() && (#[trigger] es0[j]@).0 == k;
                            assert(j0 != i);
                            let j = if j0 < i { j0 } else { j0 - 1 };
                            assert(es[j] == es0[j0]);
                            assert(0 <= j < es.len() && (es[j]@).0 == k);
                        }
                    }
                    assert forall|k: Seq<char>| #[trigger] self@.contains_key(k) implies self@[k] == m0.remove(name@)[k] by {
                        let j = choose|j: int| 0 <= j < es.len() && (#[trigger] es[j]@).0 == k;
                        let j0 = if j < i { j } else { j + 1 };
                        assert(es[j] == es0[j0]);
                        lemma_entries_map_at(es, j);
                        lemma_entries_map_at(es0, j0);
                    }
                    assert(self@ =~= m0.remove(name@));
                }
            },
            None => {
                assert(self@ =~= m0.remove(name@));
            },
        }
    }

    /// Every name with its bindings, in the order the names were first
    /// registered.
    pub fn entries(&self) -> (r: &[NamedBindings<B>])
        requires
            self.wf(),
        ensures
            forall|i: int| 0 <= i < r@.len() ==> self@.contains_key((#[trigger] r@[i]@).0) && self@[r@[i]@.0] == r@[i]@.1,
            forall|k: Seq<char>| #[trigger] self@.contains_key(k) ==> exists|i: int| 0 <= i < r@.len() && (#[trigger] r@[i]@).0 == k,
            distinct_names(r@),
            forall|i: int| 0 <= i < r@.len() ==> (#[trigger] r@[i]@).1.len() > 0,
    {
        proof {
            assert forall|i: int| 0 <= i < self.entries@.len() implies self@.contains_key((#[trigger] self.entries@[i]@).0) && self@[self.entries@[i]@.0] == self.entries@[i]@.1 by {
                lemma_entries_map_at(self.entries@, i);
            }
        }
        self.entries.as_slice()
    }
}

} // verus!

verus! {

/// Abstract content of an [`ActionMap`].
pub struct ActionMapModel {
    pub actions: Map<Seq<char>, Seq<Binding>>,
    pub axes: Map<Seq<char>, Seq<AxisBinding>>,
}

/// A named binding layer over raw keys, mouse buttons and gamepad inputs.
///
/// Register one or more [`Binding`]s per action name and one or more
/// [`AxisBinding`]s per axis name; an action is held when any of its
/// bindings is, and an axis takes the value of largest magnitude among
/// its bindings, so a fully deflected stick dominates a key press
/// instead of stacking past ±1.
#[derive(Clone)]
pub struct ActionMap {
    actions: BindingTable<Binding>,
    axes: BindingTable<AxisBinding>,
}

impl View for ActionMap {
    type V = ActionMapModel;

    closed spec fn view(&self) -> ActionMapModel {
        ActionMapModel { actions: self.actions@, axes: self.axes@ }
    }
}

impl ActionMap {
    pub closed spec fn wf(&self) -> bool {
        self.actions.wf() && self.axes.wf()
    }

    /// A map with no actions and no axes.
    pub fn new() -> (m: Self)
        ensures
            m.wf(),
            m@.actions == Map::<Seq<char>, Seq<Binding>>::empty(),
            m@.axes == Map::<Seq<char>, Seq<AxisBinding>>::empty(),
    {
        ActionMap { actions: BindingTable::new(), axes: BindingTable::new() }
    }

    /// Registers `binding` for `action`, after the ones it already has.
    pub fn bind_action(&mut self, action: &str, binding: Binding) -> (r: &mut Self)
        requires
            old(self).wf(),
        ensures
            r.wf(),
            r@.actions == map_bind(old(self)@.actions, action@, binding),
            r@.axes == old(self)@.axes,
            *final(self) == *final(r),
    {
        self.actions.bind(action, binding);
        self
    }

    /// Registers `binding` for the virtual axis `axis`, after the ones it
    /// already has.
    pub fn bind_axis(&mut self, axis: &str, binding: AxisBinding) -> (r: &mut Self)
        requires
            old(self).wf(),
        ensures
            r.wf(),
            r@.axes == map_bind(old(self)@.axes, axis@, binding),
            r@.actions == old(self)@.actions,
            *final(self) == *final(r),
    {
        self.axes.bind(axis, binding);
        self
    }

    /// Removes every binding registered for `action`, as a rebind flow
    /// does before registering the new ones.
    pub fn clear_action(&mut self, action: &str)
        requires
            old(self).wf(),
        ensures
            final(self).wf(),
            final(self)@.actions == old(self)@.actions.remove(action@),
            final(self)@.axes == old(self)@.axes,
    {
        self.actions.clear(action);
    }

    /// Removes every binding registered for the virtual axis `axis`.
    pub fn clear_axis(&mut self, axis: &str)
        requires
            old(self).wf(),
        ensures
            final(self).wf(),
            final(self)@.axes == old(self)@.axes.remove(axis@),
            final(self)@.actions == old(self)@.actions,
    {
        self.axes.clear(axis);
    }

    /// Every action with its bindings, for a rebind UI that lists them.
    pub fn actions(&self) -> (r: &[NamedBindings<Binding>])
        requires
            self.wf(),
        ensures
            forall|i: int| 0 <= i < r@.len() ==> self@.actions.contains_key((#[trigger] r@[i]@).0) && self@.actions[r@[i]@.0] == r@[i]@.1,
            forall|k: Seq<char>| #[trigger] self@.actions.contains_key(k) ==> exists|i: int| 0 <= i < r@.len() && (#[trigger] r@[i]@).0 == k,
            distinct_names(r@),
            forall|i: int| 0 <= i < r@.len() ==> (#[trigger] r@[i]@).1.len() > 0,
    {
        self.actions.entries()
    }

    /// Every virtual axis with its bindings.
    pub fn axes(&self) -> (r: &[NamedBindings<AxisBinding>])
        requires
            self.wf(),
        ensures
            forall|i: int| 0 <= i < r@.len() ==> self@.axes.contains_key((#[trigger] r@[i]@).0) && self@.axes[r@[i]@.0] == r@[i]@.1,
            forall|k: Seq<char>| #[trigger] self@.axes.contains_key(k) ==> exists|i: int| 0 <= i < r@.len() && (#[trigger] r@[i]@).0 == k,
            distinct_names(r@),
            forall|i: int| 0 <= i < r@.len() ==> (#[trigger] r@[i]@).1.len() > 0,
    {
        self.axes.entries()
    }

    /// The bindings of `action`, if it has any entry.
    pub fn action_bindings(&self, action: &str) -> (r: Option<&[Binding]>)
        requires
            self.wf(),
        ensures
            match r {
                Some(bs) => self@.actions.contains_key(action@) && bs@ == self@.actions[action@],
                None => !self@.actions.contains_key(action@),
            },
    {
        self.actions.get(action)
    }

    /// The bindings of the virtual axis `axis`, if it has any entry.
    pub fn axis_bindings(&self, axis: &str) -> (r: Option<&[AxisBinding]>)
        requires
            self.wf(),
        ensures
            match r {
                Some(bs) => self@.axes.contains_key(axis@) && bs@ == self@.axes[axis@],
                None => !self@.axes.contains_key(axis@),
            },
    {
        self.axes.get(axis)
    }
}

impl Default for ActionMap {
    fn default() -> (m: Self)
        ensures
            m.wf(),
            m@.actions == Map::<Seq<char>, Seq<Binding>>::empty(),
            m@.axes == Map::<Seq<char>, Seq<AxisBinding>>::empty(),
    {
        ActionMap::new()
    }
}

} // verus!

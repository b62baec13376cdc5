//! A small set of `Copy` values kept in a vector without repeats.
//!
//! Button sets hold at most a few dozen entries, so a linear scan is the
//! whole lookup; the view is the mathematical set of the stored values.

use vstd::prelude::*;
use crate::buttons::{GamepadButton, MouseButton};

verus! {

/// Values that can be stored in a [`ListSet`]: copyable, with an
/// executable equality that agrees with mathematical equality.
pub trait SetElem: Copy + Sized {
    fn same(&self, other: &Self) -> (r: bool)
        ensures
            r == (*self == *other),
    ;
}

impl SetElem for MouseButton {
    fn same(&self, other: &Self) -> (r: bool) {
        *self == *other
    }
}

impl SetElem for GamepadButton {
    fn same(&self, other: &Self) -> (r: bool) {
        *self == *other
    }
}

/// Set of values backed by a vector that never holds a value twice.
#[derive(Clone, Debug)]
pub struct ListSet<T> {
    items: Vec<T>,
}

impl<T> View for ListSet<T> {
    type V = Set<T>;

    closed spec fn view(&self) -> Set<T> {
        Set::new(|x: T| self.items@.contains(x))
    }
}

impl<T: SetElem> ListSet<T> {
    /// No value is stored twice.
    pub closed spec fn wf(&self) -> bool {
        self.items@.no_duplicates()
    }

    pub fn new() -> (s: Self)
        ensures
            s.wf(),
            s@ == Set::<T>::empty(),
    {
        let s = ListSet { items: Vec::new() };
        assert(s@ =~= Set::<T>::empty());
        s
    }

    /// Index of `x` in the backing vector, if present.
    fn position(&self, x: &T) -> (r: Option<usize>)
        ensures
            match r {
                Some(i) => i < self.items@.len() && self.items@[i as int] == *x,
                None => !self.items@.contains(*x),
            },
    {
        let mut i: usize = 0;
        while i < self.items.len()
            invariant
                i <= self.items@.len(),
                forall|j: int| 0 <= j < i ==> self.items@[j] != *x,
            decreases self.items@.len() - i,
        {
            if self.items[i].same(x) {
                return Some(i);
            }
            i = i + 1;
        }
        None
    }

    pub fn contains(&self, x: &T) -> (r: bool)
        ensures
            r == self@.contains(*x),
    {
        self.position(x).is_some()
    }

    /// Adds `x`; returns whether it was absent before.
    pub fn insert(&mut self, x: T) -> (added: bool)
        requires
            old(self).wf(),
        ensures
            final(self).wf(),
            final(self)@ == old(self)@.insert(x),
            added == !old(self)@.contains(x),
    {
        match self.position(&x) {
            Some(_) => {
                assert(self@ =~= old(self)@.insert(x));
                false
            },
            None => {
                self.items.push(x);
                assert(self.items@.no_duplicates()) by {
                    assert forall|i: int, j: int|
                        0 <= i < self.items@.len() && 0 <= j < self.items@.len() && i != j
                        implies self.items@[i] != self.items@[j] by {
                        if i < old(self).items@.len() && j < old(self).items@.len() {
                        } else if i < old(self).items@.len() {
                            assert(old(self).items@.contains(self.items@[i]));
                        } else {
                            assert(old(self).items@.contains(self.items@[j]));
                        }
                    }
                }
                assert forall|y: T| self.items@.contains(y) <==> (old(self).items@.contains(y) || y == x) by {
                    if old(self).items@.contains(y) {
                        let k = choose|k: int| 0 <= k < old(self).items@.len() && old(self).items@[k] == y;
                        assert(self.items@[k] == y);
                    }
                    if y == x {
                        assert(self.items@[old(self).items@.len() as int] == x);
                    }
                }
                assert(self@ =~= old(self)@.insert(x));
                true
            },
        }
    }

    /// Removes `x`; returns whether it was present before.
    pub fn remove(&mut self, x: &T) -> (removed: bool)
        requires
            old(self).wf(),
        ensures
            final(self).wf(),
            final(self)@ == old(self)@.remove(*x),
            removed == old(self)@.contains(*x),
    {
        match self.position(x) {
            Some(i) => {
                let ghost before = self.items@;
                self.items.remove(i);
                assert(self.items@ == before.remove(i as int));
                assert forall|y: T| self.items@.contains(y) <==> (before.contains(y) && y != *x) by {
                    if self.items@.contains(y) {
                        let k = choose|k: int| 0 <= k < self.items@.len() && self.items@[k] == y;
                        if k < i {
                            assert(before[k] == y);
                        } else {
                            assert(before[k + 1] == y);
                        }
                    }
                    if before.contains(y) && y != *x {
                        let k = choose|k: int| 0 <= k < before.len() && before[k] == y;
                        assert(k != i);
                        if k < i {
                            assert(self.items@[k] == y);
                        } else {
                            assert(self.items@[k - 1] == y);
                        }
                    }
                }
                assert(self@ =~= old(self)@.remove(*x));
                true
            },
            None => {
                assert(self@ =~= old(self)@.remove(*x));
                false
            },
        }
    }

    pub fn clear(&mut self)
        ensures
            final(self).wf(),
            final(self)@ == Set::<T>::empty(),
    {
        self.items.clear();
        assert(self@ =~= Set::<T>::empty());
    }
}

} // verus!

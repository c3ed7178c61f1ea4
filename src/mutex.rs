//! A non-reentrant lock for the single-core kernel.
use vstd::prelude::*;

verus! {

/// A lock around a value. On one core and with interrupts masked while the
/// kernel runs, acquiring a free lock always succeeds; acquiring a held one
/// is a bug, which `lock` reports instead of spinning forever.
pub struct Mutex<T> {
    data: T,
    locked: bool,
}

impl<T> Mutex<T> {
    pub closed spec fn value(&self) -> T {
        self.data
    }

    pub closed spec fn is_locked(&self) -> bool {
        self.locked
    }

    /// A free lock around `val`.
    pub fn new(val: T) -> (r: Mutex<T>)
        ensures
            r.value() == val,
            !r.is_locked(),
    {
        Mutex { data: val, locked: false }
    }

    /// Acquires the lock: returns `true` when it was free; it is held
    /// afterwards either way.
    pub fn lock(&mut self) -> (r: bool)
        ensures
            r == !old(self).is_locked(),
            final(self).is_locked(),
            final(self).value() == old(self).value(),
    {
        let was_free = !self.locked;
        self.locked = true;
        was_free
    }

    /// Releases the lock.
    pub fn unlock(&mut self)
        ensures
            !final(self).is_locked(),
            final(self).value() == old(self).value(),
    {
        self.locked = false;
    }

    /// The guarded value.
    pub fn get(&self) -> (r: &T)
        ensures
            *r == self.value(),
    {
        &self.data
    }

    /// Replaces the guarded value; the lock must be held.
    pub fn set(&mut self, val: T)
        requires
            old(self).is_locked(),
        ensures
            final(self).value() == val,
            final(self).is_locked(),
    {
        self.data = val;
    }

    /// Swaps the guarded value for `val` and returns the old one; the lock
    /// must be held.
    pub fn replace(&mut self, val: T) -> (r: T)
        requires
            old(self).is_locked(),
        ensures
            r == old(self).value(),
            final(self).value() == val,
            final(self).is_locked(),
    {
        let mut v = val;
        core::mem::swap(&mut self.data, &mut v);
        v
    }

    /// Gives the value back.
    pub fn into_inner(self) -> (r: T)
        ensures
            r == self.value(),
    {
        self.data
    }
}

} // verus!

use vstd::prelude::*;

verus! {

/// A mutable memory location holding one value. Writing goes through
/// `&mut self`: the value lives in the cell itself.
pub struct Cell<T> {
    value: T,
}

impl<T> View for Cell<T> {
    type V = T;

    closed spec fn view(&self) -> T {
        self.value
    }
}

impl<T> Cell<T> {
    pub fn new(val: T) -> (c: Self)
        ensures
            c@ == val,
    {
        Cell { value: val }
    }

    /// Drops the value held and stores `val`.
    pub fn set(&mut self, val: T)
        ensures
            final(self)@ == val,
    {
        self.value = val;
    }

    /// Stores `val` and returns the value held before.
    pub fn replace(&mut self, val: T) -> (prev: T)
        ensures
            prev == old(self)@,
            final(self)@ == val,
    {
        let mut v = val;
        std::mem::swap(&mut self.value, &mut v);
        v
    }

    /// A mutable reference to the value held.
    pub fn get_mut(&mut self) -> (r: &mut T)
        ensures
            *r == old(self)@,
            final(self)@ == *final(r),
    {
        &mut self.value
    }
}

impl<T: Copy> Cell<T> {
    /// A copy of the value held.
    pub fn get(&self) -> (v: T)
        ensures
            v == self@,
    {
        self.value
    }
}

} // verus!

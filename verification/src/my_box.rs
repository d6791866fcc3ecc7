use vstd::prelude::*;

verus! {

/// An owned value on the heap.
pub struct Box<T> {
    ptr: std::boxed::Box<T>,
}

impl<T> View for Box<T> {
    type V = T;

    closed spec fn view(&self) -> T {
        *self.ptr
    }
}

impl<T> Box<T> {
    /// Moves `value` to the heap.
    pub fn new(value: T) -> (b: Self)
        ensures
            b@ == value,
    {
        Box { ptr: std::boxed::Box::new(value) }
    }

    /// Gives up this handle and hands the heap allocation, with the value in
    /// it, to the caller, who now owns it.
    pub fn into_raw(self) -> (raw: std::boxed::Box<T>)
        ensures
            *raw == self@,
    {
        self.ptr
    }
}

impl<T> std::ops::Deref for Box<T> {
    type Target = T;

    fn deref(&self) -> (r: &T)
        ensures
            *r == self@,
    {
        &*self.ptr
    }
}

impl<T> std::ops::DerefMut for Box<T> {
    fn deref_mut(&mut self) -> (r: &mut T)
        ensures
            *r == old(self)@,
            final(self)@ == *final(r),
    {
        &mut *self.ptr
    }
}

} // verus!

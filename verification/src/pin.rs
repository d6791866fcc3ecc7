use vstd::prelude::*;
use std::ops::{Deref, DerefMut};

verus! {

/// A pointer whose target is promised to stay where it is. Without `unsafe`
/// a `Pin` can be made only around a pointer whose target is `Unpin`, whose
/// moving breaks nothing.
pub struct Pin<P> {
    ptr: P,
}

impl<P> Pin<P> {
    /// The pointer held.
    pub closed spec fn pointer(&self) -> P {
        self.ptr
    }

    /// Holds `ptr` as it is.
    fn wrap(ptr: P) -> (pin: Self)
        ensures
            pin.pointer() == ptr,
    {
        Pin { ptr }
    }

    /// Pins `ptr`, whose target is `Unpin`.
    pub fn new(ptr: P) -> (pin: Self) where P: Deref, P::Target: Unpin
        ensures
            pin.pointer() == ptr,
    {
        Pin { ptr }
    }
}

impl<P: Deref> Pin<P> {
    /// A pinned shared reference to the same target.
    pub fn as_ref(&self) -> (pin: Pin<&P::Target>)
        ensures
            call_ensures(P::deref, (&self.pointer(),), pin.pointer()),
    {
        Pin { ptr: self.ptr.deref() }
    }

    /// Unpins and returns the pointer held, whose target is `Unpin`.
    pub fn into_inner(self) -> (ptr: P) where P::Target: Unpin
        ensures
            ptr == self.pointer(),
    {
        self.ptr
    }
}

impl<P: DerefMut> Pin<P> {
    /// A pinned mutable reference to the same target.
    pub fn as_mut(&mut self) -> (pin: Pin<&mut P::Target>)
        ensures
            exists|m: &mut P|
                *m == old(self).pointer() && *final(m) == final(self).pointer()
                    && #[trigger] call_ensures(P::deref_mut, (m,), pin.pointer()),
    {
        Pin::wrap(self.ptr.deref_mut())
    }
}

impl<'a, T: ?Sized> Pin<&'a T> {
    /// The shared reference held.
    pub fn get_ref(self) -> (r: &'a T)
        ensures
            r == self.pointer(),
    {
        self.ptr
    }
}

impl<'a, T> Pin<&'a mut T> {
    /// The mutable reference held, whose target is `Unpin`.
    pub fn get_mut(self) -> (r: &'a mut T) where T: Unpin
        ensures
            *r == *self.pointer(),
    {
        self.ptr
    }
}

impl<P: Deref> Deref for Pin<P> {
    type Target = P::Target;

    fn deref(&self) -> (r: &P::Target)
        ensures
            call_ensures(P::deref, (&self.pointer(),), r),
    {
        self.ptr.deref()
    }
}

impl<P: DerefMut> DerefMut for Pin<P> where P::Target: Unpin {
    fn deref_mut(&mut self) -> (r: &mut P::Target)
        ensures
            exists|m: &mut P|
                *m == old(self).pointer() && *final(m) == final(self).pointer()
                    && #[trigger] call_ensures(P::deref_mut, (m,), r),
    {
        self.ptr.deref_mut()
    }
}

} // verus!

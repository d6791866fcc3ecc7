use vstd::prelude::*;

verus! {

/// A single-threaded reference-counted pointer: every clone shares the one
/// value, which is dropped with the last clone.
pub struct Rc<T> {
    ptr: std::rc::Rc<T>,
}

/// `std::rc::Rc::clone` makes another pointer to the same allocation, so the
/// value seen through the copy is the value seen through `rc`.
#[verifier::external_body]
fn std_rc_clone<T>(rc: &std::rc::Rc<T>) -> (r: std::rc::Rc<T>)
    ensures
        *r == **rc,
{
    std::rc::Rc::clone(rc)
}

/// `std::rc::Rc::strong_count` counts the `Rc` pointers to the allocation;
/// since `rc` is one of them the count is at least one. How many there are
/// depends on the clones alive at the time, which no value here records.
#[verifier::external_body]
fn std_rc_strong_count<T>(rc: &std::rc::Rc<T>) -> (n: usize)
    ensures
        n >= 1,
{
    std::rc::Rc::strong_count(rc)
}

impl<T> View for Rc<T> {
    type V = T;

    closed spec fn view(&self) -> T {
        *self.ptr
    }
}

impl<T> Rc<T> {
    /// A new counted pointer to `val`, the only one so far.
    pub fn new(val: T) -> (r: Self)
        ensures
            r@ == val,
    {
        Rc { ptr: std::rc::Rc::new(val) }
    }

    /// Another pointer to the same value; the count goes up by one.
    pub fn clone(&self) -> (r: Self)
        ensures
            r@ == self@,
    {
        Rc { ptr: std_rc_clone(&self.ptr) }
    }

    /// How many pointers share the value.
    pub fn strong_count(&self) -> (n: u64)
        ensures
            n >= 1,
    {
        let n = std_rc_strong_count(&self.ptr);
        n as u64
    }

    /// Weak pointers are not offered; this does nothing.
    pub fn downgrade(this: &Self) {
    }
}

impl<T> std::ops::Deref for Rc<T> {
    type Target = T;

    fn deref(&self) -> (r: &T)
        ensures
            *r == self@,
    {
        &*self.ptr
    }
}

} // verus!

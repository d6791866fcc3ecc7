use vstd::prelude::*;

verus! {

/// A thread-safe reference-counted pointer: every clone shares the one
/// value, which is dropped with the last clone.
pub struct Arc<T> {
    ptr: std::sync::Arc<T>,
}

/// `std::sync::Arc::clone` makes another pointer to the same allocation, so
/// the value seen through the copy is the value seen through `arc`.
#[verifier::external_body]
fn std_arc_clone<T>(arc: &std::sync::Arc<T>) -> (r: std::sync::Arc<T>)
    ensures
        *r == **arc,
{
    std::sync::Arc::clone(arc)
}

impl<T> View for Arc<T> {
    type V = T;

    closed spec fn view(&self) -> T {
        *self.ptr
    }
}

impl<T> Arc<T> {
    /// A new counted pointer to `value`, the only one so far.
    pub fn new(value: T) -> (a: Self)
        ensures
            a@ == value,
    {
        Arc { ptr: std::sync::Arc::new(value) }
    }
}

impl<T> Clone for Arc<T> {
    /// Another pointer to the same value; the count goes up by one.
    fn clone(&self) -> (a: Self)
        ensures
            a@ == self@,
    {
        Arc { ptr: std_arc_clone(&self.ptr) }
    }
}

impl<T> std::ops::Deref for Arc<T> {
    type Target = T;

    fn deref(&self) -> (r: &T)
        ensures
            *r == self@,
    {
        &*self.ptr
    }
}

} // verus!

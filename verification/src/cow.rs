use vstd::prelude::*;
use std::borrow::{Borrow, ToOwned};
use std::ops::Deref;

verus! {

/// Clone-on-write: either borrows a value or owns a copy of it.
pub enum MyCow<'a, B> where B: ?Sized + ToOwned {
    Borrowed(&'a B),
    Owned(B::Owned),
}

/// `Borrow::borrow` on the owned form of `B`. What it lends out is decided
/// by the `Borrow` impl of that owned type, which is not known here, so
/// nothing is claimed of the result.
#[verifier::external_body]
fn borrow_owned<B: ?Sized + ToOwned>(o: &B::Owned) -> &B {
    o.borrow()
}

impl<'a, B> Deref for MyCow<'a, B> where B: ?Sized + ToOwned {
    type Target = B;

    /// The borrowed value itself, or what the owned copy lends out through
    /// its `Borrow` impl.
    fn deref(&self) -> (r: &B)
        ensures
            self is Borrowed ==> r == self->Borrowed_0,
    {
        match self {
            MyCow::Borrowed(v) => *v,
            MyCow::Owned(v) => borrow_owned::<B>(v),
        }
    }
}

} // verus!

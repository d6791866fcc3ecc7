use vstd::prelude::*;
use crate::vector::{Vec, INIT_CAP, pushes_fit};

verus! {

broadcast use {vstd::layout::layout_of_primitives, vstd::string::axiom_spec_iter};

/// A string kept as a vector of characters.
pub type Str = Vec<char>;

impl Vec<char> {
    /// The characters of `s`, in order.
    pub fn from(s: &str) -> (r: Self)
        requires
            pushes_fit::<char>(INIT_CAP as nat, s@.len()),
        ensures
            r@ == s@,
            r.capacity_ok(),
    {
        let mut out: Vec<char> = Vec::new();
        for ch in it: s.chars()
            invariant
                it.seq() == s@,
                out@ == it.seq().take(it.index() as int),
                out.capacity_ok(),
                pushes_fit::<char>(out.spec_capacity(), s@.len()),
                out.spec_capacity() >= INIT_CAP,
        {
            out.push(ch);
        }
        out
    }
}

} // verus!

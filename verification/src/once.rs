use vstd::prelude::*;

verus! {

/// Runs a piece of code once: the first `call_one` runs its closure, every
/// later one does nothing.
pub struct Once {
    called: bool,
}

impl Once {
    /// Whether a `call_one` has already run its closure.
    pub closed spec fn is_completed(&self) -> bool {
        self.called
    }

    pub fn new() -> (o: Self)
        ensures
            !o.is_completed(),
    {
        Once { called: false }
    }

    /// Marks the `Once` as used and says whether it was still unused.
    fn try_start(&mut self) -> (first: bool)
        ensures
            first == !old(self).is_completed(),
            final(self).is_completed(),
    {
        if self.called {
            false
        } else {
            self.called = true;
            true
        }
    }

    /// Runs `f` if no closure was run before; otherwise does nothing.
    pub fn call_one<T>(&mut self, f: T) where T: FnOnce()
        requires
            !old(self).is_completed() ==> f.requires(()),
        ensures
            final(self).is_completed(),
            !old(self).is_completed() ==> f.ensures((), ()),
    {
        if self.try_start() {
            f()
        }
    }
}

} // verus!

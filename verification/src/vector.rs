use vstd::prelude::*;

verus! {

/// Capacity of a freshly made vector whose element type has a nonzero size.
pub const INIT_CAP: usize = 16;

/// `c` is `INIT_CAP` doubled zero or more times.
pub open spec fn is_grown_capacity(c: nat) -> bool
    decreases c,
{
    if c <= INIT_CAP {
        c == INIT_CAP
    } else {
        c % 2 == 0 && is_grown_capacity(c / 2)
    }
}

/// Doubling keeps a capacity of the form `INIT_CAP * 2^k`.
pub proof fn lemma_grown_capacity_doubles(c: nat)
    requires
        is_grown_capacity(c),
    ensures
        is_grown_capacity(2 * c),
{
    assert((2 * c) / 2 == c);
}

/// The capacity a new vector of `T` starts with.
pub open spec fn initial_capacity<T>() -> nat {
    if size_of::<T>() == 0 {
        usize::MAX as nat
    } else {
        INIT_CAP as nat
    }
}

/// Starting from capacity `cap`, a vector of `T` can take pushes until it
/// holds `n` elements without a doubling overflowing `usize` or a doubled
/// allocation exceeding `isize::MAX` bytes.
pub open spec fn pushes_fit<T>(cap: nat, n: nat) -> bool
    decreases n - cap,
{
    if n <= cap {
        true
    } else if cap == 0 {
        false
    } else {
        &&& 2 * cap <= usize::MAX
        &&& 2 * cap * size_of::<T>() <= isize::MAX
        &&& (n <= 2 * cap || pushes_fit::<T>(2 * cap, n))
    }
}

/// The sequence reached from `s` by pushing the elements of `xs` one at a
/// time, first to last.
pub open spec fn pushed_all<T>(s: Seq<T>, xs: Seq<T>) -> Seq<T>
    decreases xs.len(),
{
    if xs.len() == 0 {
        s
    } else {
        pushed_all(s, xs.drop_last()).push(xs.last())
    }
}

/// Pushing the elements of `xs` one at a time appends `xs`: from an empty
/// vector the result holds `xs` itself, `xs.len()` elements, `xs[i]` at `i`.
pub proof fn law_pushes_append<T>(s: Seq<T>, xs: Seq<T>)
    ensures
        pushed_all(s, xs) == s + xs,
        pushed_all(Seq::empty(), xs) == xs,
    decreases xs.len(),
{
    if xs.len() > 0 {
        law_pushes_append(s, xs.drop_last());
        assert(s + xs =~= (s + xs.drop_last()).push(xs.last()));
    } else {
        assert(s + xs =~= s);
    }
    if xs.len() > 0 {
        law_pushes_append(Seq::<T>::empty(), xs.drop_last());
        assert(xs =~= xs.drop_last().push(xs.last()));
    }
}

/// What is left of the elements `s` of an iterator after `k` calls of
/// `next`, each of which takes the first element while there is one.
pub open spec fn after_nexts<T>(s: Seq<T>, k: nat) -> Seq<T>
    decreases k,
{
    if k == 0 {
        s
    } else {
        let r = after_nexts(s, (k - 1) as nat);
        if r.len() > 0 {
            r.drop_first()
        } else {
            r
        }
    }
}

/// After `k` calls of `next` the elements left are those from position `k`
/// on: the next call hands out `s[k]`, and once `k` reaches the length
/// nothing is left, so every later call gives `None`.
pub proof fn law_nexts_in_order<T>(s: Seq<T>, k: nat)
    ensures
        k <= s.len() ==> after_nexts(s, k) == s.skip(k as int),
        k < s.len() ==> after_nexts(s, k)[0] == s[k as int],
        k >= s.len() ==> after_nexts(s, k).len() == 0,
    decreases k,
{
    if k > 0 {
        law_nexts_in_order(s, (k - 1) as nat);
        if k <= s.len() {
            assert(s.skip(k - 1).drop_first() =~= s.skip(k as int));
        }
    } else {
        assert(s.skip(0) =~= s);
    }
}

/// The capacity of a vector of `T` after `n` pushes from `new`: each push
/// onto a full vector doubles it, as `push` states.
pub open spec fn capacity_after<T>(n: nat) -> nat
    decreases n,
{
    if n == 0 {
        initial_capacity::<T>()
    } else {
        let c = capacity_after::<T>((n - 1) as nat);
        if n - 1 < c {
            c
        } else {
            2 * c
        }
    }
}

/// After any number `n` of pushes from `new`, a vector of a type with a
/// nonzero size has room for its `n` elements, a capacity of `INIT_CAP`
/// doubled some number of times, and, past `INIT_CAP`, a capacity below `2 * n`.
pub proof fn law_capacity_after_pushes<T>(n: nat)
    requires
        size_of::<T>() != 0,
    ensures
        n <= capacity_after::<T>(n),
        is_grown_capacity(capacity_after::<T>(n)),
        capacity_after::<T>(n) == INIT_CAP || capacity_after::<T>(n) < 2 * n,
    decreases n,
{
    if n > 0 {
        let c = capacity_after::<T>((n - 1) as nat);
        law_capacity_after_pushes::<T>((n - 1) as nat);
        if n - 1 >= c {
            lemma_grown_capacity_doubles(c);
        }
    }
}

/// A growable array. Its logical capacity starts at `INIT_CAP` and doubles
/// whenever a push finds the vector full; for a zero-sized element type the
/// capacity is `usize::MAX` from the start and never grows.
pub struct Vec<T> {
    data: std::vec::Vec<T>,
    cap: usize,
}

impl<T> View for Vec<T> {
    type V = Seq<T>;

    closed spec fn view(&self) -> Seq<T> {
        self.data@
    }
}

impl<T> Vec<T> {
    #[verifier::type_invariant]
    closed spec fn wf(self) -> bool {
        &&& self.data@.len() <= self.cap
        &&& if size_of::<T>() == 0 {
            self.cap == usize::MAX
        } else {
            is_grown_capacity(self.cap as nat)
        }
    }

    /// The number of elements the vector can hold before it must grow.
    pub closed spec fn spec_capacity(&self) -> nat {
        self.cap as nat
    }

    /// A push on this vector either fits, or the doubled capacity is
    /// representable and its byte size stays within `isize::MAX`.
    pub open spec fn can_push(&self) -> bool {
        ||| self@.len() < self.spec_capacity()
        ||| (2 * self.spec_capacity() <= usize::MAX && 2 * self.spec_capacity() * size_of::<T>()
            <= isize::MAX)
    }

    /// A vector holds at most its capacity; the capacity is `usize::MAX` for
    /// a zero-sized `T`, and otherwise `INIT_CAP` doubled some number of
    /// times and, past `INIT_CAP`, less than twice the length.
    pub open spec fn capacity_ok(&self) -> bool {
        &&& self@.len() <= self.spec_capacity()
        &&& if size_of::<T>() == 0 {
            self.spec_capacity() == usize::MAX
        } else {
            &&& is_grown_capacity(self.spec_capacity())
            &&& (self.spec_capacity() == INIT_CAP || self.spec_capacity() < 2 * self@.len())
        }
    }

    /// An empty vector. For a type with a nonzero size it reserves room for
    /// `INIT_CAP` elements, which must fit in `isize::MAX` bytes.
    pub fn new() -> (v: Self)
        requires
            size_of::<T>() == 0 || INIT_CAP * size_of::<T>() <= isize::MAX,
        ensures
            v@ == Seq::<T>::empty(),
            v.spec_capacity() == initial_capacity::<T>(),
            v.capacity_ok(),
    {
        if std::mem::size_of::<T>() == 0 {
            Vec { data: std::vec::Vec::new(), cap: usize::MAX }
        } else {
            Vec { data: std::vec::Vec::with_capacity(INIT_CAP), cap: INIT_CAP }
        }
    }

    /// Doubles the capacity.
    fn grow(&mut self)
        requires
            2 * old(self).spec_capacity() <= usize::MAX,
            2 * old(self).spec_capacity() * size_of::<T>() <= isize::MAX,
        ensures
            final(self)@ == old(self)@,
            final(self).spec_capacity() == 2 * old(self).spec_capacity(),
    {
        proof {
            use_type_invariant(&*self);
            lemma_grown_capacity_doubles(self.cap as nat);
        }
        let new_cap = self.cap * 2;
        let mut whole = Self::default();
        std::mem::swap(self, &mut whole);
        proof {
            use_type_invariant(&whole);
        }
        let Vec { mut data, cap: _ } = whole;
        let extra = new_cap - data.len();
        data.reserve(extra);
        *self = Vec { data, cap: new_cap };
    }

    /// Appends `value`, growing first when the vector is full.
    pub fn push(&mut self, value: T)
        requires
            old(self).can_push(),
        ensures
            final(self)@ == old(self)@.push(value),
            final(self).spec_capacity() == if old(self)@.len() < old(self).spec_capacity() {
                old(self).spec_capacity()
            } else {
                2 * old(self).spec_capacity()
            },
            old(self).capacity_ok() ==> final(self).capacity_ok(),
    {
        proof {
            use_type_invariant(&*self);
        }
        if self.data.len() == self.cap {
            self.grow();
        }
        let mut whole = Self::default();
        std::mem::swap(self, &mut whole);
        proof {
            use_type_invariant(&whole);
        }
        let Vec { mut data, cap } = whole;
        data.push(value);
        *self = Vec { data, cap };
    }

    /// The element at `index`, or `None` past the end.
    pub fn get(&self, index: usize) -> (r: Option<&T>)
        ensures
            index < self@.len() ==> r == Some(&self@[index as int]),
            index >= self@.len() ==> r is None,
    {
        if index >= self.data.len() {
            return None;
        }
        Some(&self.data[index])
    }

    /// A mutable reference to the element at `index`, or `None` past the end.
    pub fn get_mut(&mut self, index: usize) -> (r: Option<&mut T>)
        ensures
            index < old(self)@.len() ==> r is Some && *r.unwrap() == old(self)@[index as int]
                && final(self)@ == old(self)@.update(index as int, *final(r.unwrap()))
                && final(self).spec_capacity() == old(self).spec_capacity(),
            index >= old(self)@.len() ==> r is None && final(self)@ == old(self)@
                && final(self).spec_capacity() == old(self).spec_capacity(),
    {
        proof {
            use_type_invariant(&*self);
        }
        if index >= self.data.len() {
            return None;
        }
        Some(&mut self.data[index])
    }

    pub fn len(&self) -> (n: usize)
        ensures
            n == self@.len(),
    {
        self.data.len()
    }

    pub fn capacity(&self) -> (c: usize)
        ensures
            c == self.spec_capacity(),
            self@.len() <= c,
            size_of::<T>() == 0 ==> c == usize::MAX,
            size_of::<T>() != 0 ==> is_grown_capacity(c as nat),
    {
        proof {
            use_type_invariant(self);
        }
        self.cap
    }

    pub fn is_empty(&self) -> (b: bool)
        ensures
            b == (self@.len() == 0),
    {
        self.data.len() == 0
    }
}

impl<T> Default for Vec<T> {
    /// An empty vector with the capacity of `new`, made without reserving
    /// memory up front.
    fn default() -> (v: Self)
        ensures
            v@ == Seq::<T>::empty(),
            v.spec_capacity() == initial_capacity::<T>(),
            v.capacity_ok(),
    {
        if std::mem::size_of::<T>() == 0 {
            Vec { data: std::vec::Vec::new(), cap: usize::MAX }
        } else {
            Vec { data: std::vec::Vec::new(), cap: INIT_CAP }
        }
    }
}

impl<T> Vec<T> {
    /// A borrowing iterator over the elements, front to back.
    pub fn iter(&self) -> (it: Iter<'_, T>)
        ensures
            it.remaining() == self@,
    {
        Iter { data: &self.data, index: 0, len: self.data.len() }
    }

    /// An owning iterator that hands out the elements front to back.
    pub fn into_iter(self) -> (it: IntoIter<T>)
        ensures
            it.remaining() == self@,
    {
        IntoIter { rest: std_vecdeque_from_vec(self.data) }
    }
}

/// `VecDeque::from` on a `Vec` turns the vector's buffer into a deque
/// holding the same elements in the same order (std documents it as O(1),
/// without moving the elements).
#[verifier::external_body]
fn std_vecdeque_from_vec<T>(v: std::vec::Vec<T>) -> (d: std::collections::VecDeque<T>)
    ensures
        d@ == v@,
{
    std::collections::VecDeque::from(v)
}

/// Iterator over the elements of a `Vec` by reference.
pub struct Iter<'a, T> {
    data: &'a std::vec::Vec<T>,
    index: usize,
    len: usize,
}

impl<'a, T> Iter<'a, T> {
    #[verifier::type_invariant]
    closed spec fn wf(self) -> bool {
        self.index <= self.len && self.len == self.data@.len()
    }

    /// The elements not yet handed out, in order.
    pub closed spec fn remaining(&self) -> Seq<T> {
        self.data@.subrange(self.index as int, self.len as int)
    }

    /// The next element, or `None` once every element was handed out.
    pub fn next(&mut self) -> (r: Option<&'a T>)
        ensures
            old(self).remaining().len() == 0 ==> r is None && final(self).remaining()
                == old(self).remaining(),
            old(self).remaining().len() > 0 ==> r == Some(&old(self).remaining()[0])
                && final(self).remaining() == old(self).remaining().drop_first(),
    {
        proof {
            use_type_invariant(&*self);
        }
        if self.index >= self.len {
            return None;
        }
        let i = self.index;
        self.index = i + 1;
        assert(self.remaining() =~= old(self).remaining().drop_first());
        Some(&self.data[i])
    }

    /// The number of elements left, as an exact lower and upper bound.
    pub fn size_hint(&self) -> (r: (usize, Option<usize>))
        ensures
            r.0 == self.remaining().len(),
            r.1 == Some(r.0),
    {
        proof {
            use_type_invariant(self);
        }
        let remaining = self.len - self.index;
        (remaining, Some(remaining))
    }
}

/// Iterator that takes the elements out of a `Vec`, front to back.
pub struct IntoIter<T> {
    /// The elements still to come, in order.
    rest: std::collections::VecDeque<T>,
}

impl<T> IntoIter<T> {
    /// The elements not yet handed out, in order.
    pub closed spec fn remaining(&self) -> Seq<T> {
        self.rest@
    }

    /// The next element, or `None` once every element was handed out.
    pub fn next(&mut self) -> (r: Option<T>)
        ensures
            old(self).remaining().len() == 0 ==> r is None && final(self).remaining()
                == old(self).remaining(),
            old(self).remaining().len() > 0 ==> r == Some(old(self).remaining()[0])
                && final(self).remaining() == old(self).remaining().drop_first(),
    {
        let r = self.rest.pop_front();
        assert(self.remaining() =~= old(self).remaining().drop_first()
            || old(self).remaining().len() == 0);
        r
    }

    /// The number of elements left, as an exact lower and upper bound.
    pub fn size_hint(&self) -> (r: (usize, Option<usize>))
        ensures
            r.0 == self.remaining().len(),
            r.1 == Some(r.0),
    {
        let remaining = self.rest.len();
        (remaining, Some(remaining))
    }
}

} // verus!

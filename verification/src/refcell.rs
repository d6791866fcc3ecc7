use vstd::prelude::*;
use std::marker::PhantomData;

verus! {

/// A value with borrow checking at run time: any number of shared borrows,
/// or one mutable borrow, may be out at a time.
///
/// A borrow is a token: `borrow` and `borrow_mut` hand one out, `get` and
/// `get_mut` reach the value with it, and `release` and `release_mut` take it
/// back, where a guard would be dropped. Each token carries the ghost tag of
/// the cell that issued it, and a cell takes back only tokens with its tag.
pub struct Refcell<T> {
    value: T,
    flags: BorrowFlags,
    /// Ghost tag of this cell, carried by the tokens it issues. Its value is
    /// left unspecified: no contract relates the tags of two cells, so a
    /// caller can hand back a token only where it can show that the tags
    /// agree, which is the cell that issued it.
    id: Ghost<int>,
}

/// The borrow counts of a `Refcell`.
struct BorrowFlags {
    /// Shared borrows out.
    count: u64,
    /// Mutable borrows out.
    m_count: u64,
}

impl BorrowFlags {
    /// At most one mutable borrow is out, and never beside a shared one.
    #[verifier::type_invariant]
    spec fn apart(self) -> bool {
        &&& self.m_count <= 1
        &&& self.m_count == 1 ==> self.count == 0
    }

    fn add_reader(&mut self)
        requires
            old(self).m_count == 0,
            old(self).count < u64::MAX,
        ensures
            final(self).count == old(self).count + 1,
            final(self).m_count == 0,
            final(self).apart(),
    {
        self.count = self.count + 1;
    }

    fn add_writer(&mut self)
        requires
            old(self).m_count == 0,
            old(self).count == 0,
        ensures
            final(self).count == 0,
            final(self).m_count == 1,
            final(self).apart(),
    {
        self.m_count = 1;
    }

    fn drop_reader(&mut self)
        requires
            old(self).count > 0,
        ensures
            final(self).count == old(self).count - 1,
            final(self).m_count == old(self).m_count,
            final(self).apart(),
    {
        proof {
            use_type_invariant(&*self);
        }
        self.count = self.count - 1;
    }

    fn drop_writer(&mut self)
        requires
            old(self).m_count > 0,
        ensures
            final(self).m_count == old(self).m_count - 1,
            final(self).count == old(self).count,
            final(self).apart(),
    {
        proof {
            use_type_invariant(&*self);
        }
        self.m_count = self.m_count - 1;
    }
}

/// A shared borrow of the value of a `Refcell`.
pub struct Ref<T> {
    cell: Ghost<int>,
    _mark: PhantomData<T>,
}

/// A mutable borrow of the value of a `Refcell`.
pub struct RefMut<T> {
    cell: Ghost<int>,
    _mark: PhantomData<T>,
}

impl<T> Ref<T> {
    /// The ghost tag of the cell that issued this borrow.
    pub closed spec fn cell_id(&self) -> int {
        self.cell@
    }
}

impl<T> RefMut<T> {
    /// The ghost tag of the cell that issued this borrow.
    pub closed spec fn cell_id(&self) -> int {
        self.cell@
    }
}

impl<T> Refcell<T> {
    /// The ghost tag of this cell, unspecified, which its tokens carry.
    pub closed spec fn id(&self) -> int {
        self.id@
    }

    /// The value held.
    pub closed spec fn value(&self) -> T {
        self.value
    }

    /// The number of shared borrows out.
    pub closed spec fn readers(&self) -> nat {
        self.flags.count as nat
    }

    /// The number of mutable borrows out.
    pub closed spec fn writers(&self) -> nat {
        self.flags.m_count as nat
    }

    /// At most one mutable borrow is out, and never beside a shared one.
    pub open spec fn borrow_ok(&self) -> bool {
        &&& self.writers() <= 1
        &&& self.writers() == 1 ==> self.readers() == 0
    }

    /// A shared borrow is granted: no mutable borrow is out (and the count
    /// of shared borrows does not overflow).
    pub open spec fn can_borrow(&self) -> bool {
        self.writers() == 0 && self.readers() < u64::MAX
    }

    /// A mutable borrow is granted: no borrow of either kind is out.
    pub open spec fn can_borrow_mut(&self) -> bool {
        self.writers() == 0 && self.readers() == 0
    }

    pub fn new(val: T) -> (c: Self)
        ensures
            c.value() == val,
            c.readers() == 0,
            c.writers() == 0,
            c.borrow_ok(),
    {
        Refcell { value: val, flags: BorrowFlags { count: 0, m_count: 0 }, id: Ghost(arbitrary()) }
    }

    /// A shared borrow; not to be asked for while the value is mutably
    /// borrowed ("cannot borrow mutably borrowed value").
    pub fn borrow(&mut self) -> (r: Ref<T>)
        requires
            old(self).can_borrow(),
        ensures
            r.cell_id() == old(self).id(),
            final(self).id() == old(self).id(),
            final(self).readers() == old(self).readers() + 1,
            final(self).writers() == old(self).writers(),
            final(self).value() == old(self).value(),
            final(self).borrow_ok(),
    {
        self.flags.add_reader();
        Ref { cell: Ghost(self.id@), _mark: PhantomData }
    }

    /// A mutable borrow; not to be asked for while any borrow is out
    /// ("cannot mutably borrowed value").
    pub fn borrow_mut(&mut self) -> (r: RefMut<T>)
        requires
            old(self).can_borrow_mut(),
        ensures
            r.cell_id() == old(self).id(),
            final(self).id() == old(self).id(),
            final(self).readers() == 0,
            final(self).writers() == 1,
            final(self).value() == old(self).value(),
            final(self).borrow_ok(),
    {
        self.flags.add_writer();
        RefMut { cell: Ghost(self.id@), _mark: PhantomData }
    }

    /// A shared borrow, or `None` while the value is mutably borrowed (or
    /// the count of shared borrows is at its limit).
    pub fn try_borrow(&mut self) -> (r: Option<Ref<T>>)
        ensures
            final(self).id() == old(self).id(),
            final(self).value() == old(self).value(),
            final(self).borrow_ok(),
            old(self).can_borrow() ==> r is Some && r->0.cell_id() == old(self).id()
                && final(self).readers() == old(self).readers() + 1 && final(self).writers()
                == old(self).writers(),
            !old(self).can_borrow() ==> r is None && final(self).readers() == old(self).readers()
                && final(self).writers() == old(self).writers(),
    {
        proof {
            use_type_invariant(&self.flags);
        }
        if self.flags.m_count == 0 && self.flags.count < u64::MAX {
            Some(self.borrow())
        } else {
            None
        }
    }

    /// A mutable borrow, or `None` while any borrow is out.
    pub fn try_borrow_mut(&mut self) -> (r: Option<RefMut<T>>)
        ensures
            final(self).id() == old(self).id(),
            final(self).value() == old(self).value(),
            final(self).borrow_ok(),
            old(self).can_borrow_mut() ==> r is Some && r->0.cell_id() == old(self).id()
                && final(self).readers() == 0 && final(self).writers() == 1,
            !old(self).can_borrow_mut() ==> r is None && final(self).readers() == old(
                self,
            ).readers() && final(self).writers() == old(self).writers(),
    {
        proof {
            use_type_invariant(&self.flags);
        }
        if self.flags.m_count == 0 && self.flags.count == 0 {
            Some(self.borrow_mut())
        } else {
            None
        }
    }

    /// The value, read through a shared borrow of this cell.
    pub fn get(&self, r: &Ref<T>) -> (v: &T)
        requires
            r.cell_id() == self.id(),
            self.readers() > 0,
        ensures
            *v == self.value(),
    {
        &self.value
    }

    /// The value, read or written through the mutable borrow of this cell.
    pub fn get_mut(&mut self, r: &RefMut<T>) -> (v: &mut T)
        requires
            r.cell_id() == old(self).id(),
            old(self).writers() > 0,
        ensures
            *v == old(self).value(),
            final(self).value() == *final(v),
            final(self).id() == old(self).id(),
            final(self).readers() == old(self).readers(),
            final(self).writers() == old(self).writers(),
            final(self).borrow_ok(),
    {
        proof {
            use_type_invariant(&self.flags);
        }
        &mut self.value
    }

    /// Ends a shared borrow of this cell.
    pub fn release(&mut self, r: Ref<T>)
        requires
            r.cell_id() == old(self).id(),
            old(self).readers() > 0,
        ensures
            final(self).id() == old(self).id(),
            final(self).readers() == old(self).readers() - 1,
            final(self).writers() == old(self).writers(),
            final(self).value() == old(self).value(),
            final(self).borrow_ok(),
    {
        self.flags.drop_reader();
    }

    /// Ends the mutable borrow of this cell.
    pub fn release_mut(&mut self, r: RefMut<T>)
        requires
            r.cell_id() == old(self).id(),
            old(self).writers() > 0,
        ensures
            final(self).id() == old(self).id(),
            final(self).writers() == old(self).writers() - 1,
            final(self).readers() == old(self).readers(),
            final(self).value() == old(self).value(),
            final(self).borrow_ok(),
    {
        self.flags.drop_writer();
    }
}

/// While a mutable borrow is out no borrow of either kind is granted, and
/// while a shared borrow is out no mutable borrow is granted.
pub proof fn law_borrows_exclude<T>(c: Refcell<T>)
    requires
        c.borrow_ok(),
    ensures
        c.writers() > 0 ==> !c.can_borrow() && !c.can_borrow_mut(),
        c.readers() > 0 ==> !c.can_borrow_mut(),
        c.writers() == 0 && c.readers() == 0 ==> c.can_borrow() && c.can_borrow_mut(),
{
}

} // verus!

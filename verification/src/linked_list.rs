use vstd::prelude::*;
use crate::vector::{after_nexts, law_nexts_in_order, law_pushes_append, pushed_all};

verus! {

/// Slot of the sentinel node before the first element.
const HEAD: usize = 0;

/// Slot of the sentinel node after the last element.
const TAIL: usize = 1;

/// A node of the list: its neighbours, as slots in the node arena, and its
/// value, which is taken out (leaving `None`) when the node is removed. A
/// node that is not linked in yet has `usize::MAX` as both links.
struct Node<T: Default> {
    next: usize,
    pre: usize,
    value: Option<T>,
}

impl<T: Default> Node<T> {
    fn new(value: T) -> (n: Self)
        ensures
            n.value == Some(value),
            n.next == usize::MAX,
            n.pre == usize::MAX,
    {
        Node { next: usize::MAX, pre: usize::MAX, value: Some(value) }
    }

    /// An unlinked node holding `T::default()`; the sentinels are made this way.
    fn default() -> (n: Self)
        ensures
            n.next == usize::MAX,
            n.pre == usize::MAX,
    {
        Self::new(T::default())
    }
}

/// The slot that follows position `i` of the element order `ord`.
spec fn succ(ord: Seq<usize>, i: int) -> usize {
    if i + 1 < ord.len() {
        ord[i + 1]
    } else {
        TAIL
    }
}

/// The slot that precedes position `i` of the element order `ord`.
spec fn pred(ord: Seq<usize>, i: int) -> usize {
    if i > 0 {
        ord[i - 1]
    } else {
        HEAD
    }
}

/// The links of `nodes` chain `HEAD`, the slots of `ord` in order, and `TAIL`,
/// in both directions, and every node of `ord` holds a value.
spec fn links_ok<T: Default>(nodes: Seq<Node<T>>, ord: Seq<usize>) -> bool {
    &&& nodes[HEAD as int].next == succ(ord, -1)
    &&& nodes[TAIL as int].pre == pred(ord, ord.len() as int)
    &&& forall|i: int|
        0 <= i < ord.len() ==> {
            let k = #[trigger] ord[i] as int;
            nodes[k].next == succ(ord, i) && nodes[k].pre == pred(ord, i) && nodes[k].value is Some
        }
}

/// A doubly linked list with a sentinel node at each end. Its nodes live in
/// an arena of slots; slots of removed nodes are kept on a free list and
/// used again.
pub struct LinkedList<T: Default> {
    nodes: std::vec::Vec<Node<T>>,
    free: std::vec::Vec<usize>,
    len: usize,
    /// The slots of the elements, first to last.
    order: Ghost<Seq<usize>>,
}

/// `nodes` with the value of the node at slot `p` replaced by `x`.
spec fn with_value<T: Default>(nodes: Seq<Node<T>>, p: int, x: T) -> Seq<Node<T>> {
    nodes.update(p, Node { value: Some(x), ..nodes[p] })
}

/// The values of the nodes at the slots of `ord`, in order.
spec fn view_of<T: Default>(nodes: Seq<Node<T>>, ord: Seq<usize>) -> Seq<T> {
    Seq::new(ord.len(), |i: int| nodes[ord[i] as int].value.unwrap())
}

impl<T: Default> View for LinkedList<T> {
    type V = Seq<T>;

    closed spec fn view(&self) -> Seq<T> {
        view_of(self.nodes@, self.order@)
    }
}

impl<T: Default> LinkedList<T> {
    /// The arena, the free list, the length and the element order agree.
    pub closed spec fn wf(&self) -> bool {
        let n = self.nodes@.len();
        let ord = self.order@;
        &&& n == 2 + ord.len() + self.free@.len()
        &&& self.len == ord.len()
        &&& ord.no_duplicates()
        &&& forall|i: int| 0 <= i < ord.len() ==> 2 <= #[trigger] ord[i] < n
        &&& links_ok(self.nodes@, ord)
        &&& self.free@.no_duplicates()
        &&& forall|j: int|
            0 <= j < self.free@.len() ==> 2 <= #[trigger] self.free@[j] < n && !ord.contains(
                self.free@[j],
            )
    }

    /// An empty list: the two sentinels linked to each other.
    pub fn new() -> (l: Self)
        ensures
            l.wf(),
            l@ == Seq::<T>::empty(),
    {
        let mut nodes: std::vec::Vec<Node<T>> = std::vec::Vec::new();
        nodes.push(Node::default());
        nodes.push(Node::default());
        nodes[HEAD].next = TAIL;
        nodes[TAIL].pre = HEAD;
        let l = LinkedList { nodes, free: std::vec::Vec::new(), len: 0, order: Ghost(Seq::empty()) };
        assert(l@ =~= Seq::<T>::empty());
        l
    }

    pub fn len(&self) -> (n: usize)
        requires
            self.wf(),
        ensures
            n == self@.len(),
    {
        self.len
    }

    pub fn is_empty(&self) -> (b: bool)
        requires
            self.wf(),
        ensures
            b == (self@.len() == 0),
    {
        self.len == 0
    }

    /// Puts `value` into an unused slot (taken from the free list, or new at
    /// the end of the arena) and returns that slot; the node is not linked.
    fn alloc_node(&mut self, value: T) -> (slot: usize)
        requires
            old(self).wf(),
            old(self).len + 3 <= usize::MAX,
        ensures
            2 <= slot < final(self).nodes@.len(),
            !old(self).order@.contains(slot),
            final(self).nodes@.len() == 1 + old(self).order@.len() + 2 + final(self).free@.len(),
            final(self).nodes@[slot as int].value == Some(value),
            final(self).nodes@.len() >= old(self).nodes@.len(),
            forall|j: int|
                0 <= j < old(self).nodes@.len() && j != slot ==> final(self).nodes@[j]
                    == old(self).nodes@[j],
            final(self).order == old(self).order,
            final(self).len == old(self).len,
            final(self).free@.no_duplicates(),
            forall|j: int|
                0 <= j < final(self).free@.len() ==> #[trigger] final(self).free@[j] != slot
                    && old(self).free@.contains(final(self).free@[j]),
    {
        match self.free.pop() {
            Some(slot) => {
                proof {
                    assert(old(self).free@[old(self).free@.len() - 1] == slot);
                }
                self.nodes[slot] = Node::new(value);
                proof {
                    assert forall|j: int| 0 <= j < self.free@.len() implies #[trigger] self.free@[j]
                        != slot && old(self).free@.contains(self.free@[j]) by {
                        assert(old(self).free@[j] == self.free@[j]);
                    }
                }
                slot
            },
            None => {
                let slot = self.nodes.len();
                self.nodes.push(Node::new(value));
                slot
            },
        }
    }
}

/// After a slot is taken for a new element, the free list that is left still
/// holds only unused slots of the arena.
proof fn lemma_free_after_alloc(
    old_free: Seq<usize>,
    free: Seq<usize>,
    ord: Seq<usize>,
    ord2: Seq<usize>,
    slot: usize,
    n0: nat,
    n: nat,
)
    requires
        n0 <= n,
        forall|j: int|
            0 <= j < old_free.len() ==> 2 <= #[trigger] old_free[j] < n0 && !ord.contains(
                old_free[j],
            ),
        forall|j: int|
            0 <= j < free.len() ==> #[trigger] free[j] != slot && old_free.contains(free[j]),
        forall|x: usize| ord2.contains(x) ==> x == slot || ord.contains(x),
    ensures
        forall|j: int|
            0 <= j < free.len() ==> 2 <= #[trigger] free[j] < n && !ord2.contains(free[j]),
{
    assert forall|j: int| 0 <= j < free.len() implies 2 <= #[trigger] free[j] < n && !ord2.contains(
        free[j],
    ) by {
        let f = free[j];
        assert(free[j] != slot && old_free.contains(free[j]));
        let jj = choose|jj: int| 0 <= jj < old_free.len() && old_free[jj] == f;
        assert(old_free[jj] == f);
    }
}

/// After a slot leaves the element order and goes on the free list, the
/// free list still holds distinct unused slots of the arena.
proof fn lemma_free_after_release(
    old_free: Seq<usize>,
    ord: Seq<usize>,
    ord2: Seq<usize>,
    s: usize,
    n: nat,
)
    requires
        old_free.no_duplicates(),
        forall|j: int|
            0 <= j < old_free.len() ==> 2 <= #[trigger] old_free[j] < n && !ord.contains(
                old_free[j],
            ),
        2 <= s < n,
        ord.contains(s),
        forall|x: usize| ord2.contains(x) ==> ord.contains(x) && x != s,
    ensures
        old_free.push(s).no_duplicates(),
        forall|j: int|
            0 <= j < old_free.push(s).len() ==> 2 <= #[trigger] old_free.push(s)[j] < n
                && !ord2.contains(old_free.push(s)[j]),
{
    let free = old_free.push(s);
    assert forall|j: int| 0 <= j < free.len() implies 2 <= #[trigger] free[j] < n && !ord2.contains(
        free[j],
    ) by {
        if j < old_free.len() {
            assert(free[j] == old_free[j]);
        }
    }
    assert forall|i: int, j: int|
        0 <= i < free.len() && 0 <= j < free.len() && i != j implies free[i] != free[j] by {
        if i < old_free.len() && j < old_free.len() {
            assert(free[i] == old_free[i] && free[j] == old_free[j]);
        } else if i < old_free.len() {
            assert(free[i] == old_free[i]);
        } else if j < old_free.len() {
            assert(free[j] == old_free[j]);
        }
    }
}

impl<T: Default> LinkedList<T> {
    /// Appends `value` after the last element and reports success. A `false`
    /// would mean that no memory could be had for the node; allocation here
    /// never returns without memory, so the answer is always `true`.
    #[verifier::spinoff_prover]
    #[verifier::rlimit(50)]
    pub fn push_back(&mut self, value: T) -> (ok: bool)
        requires
            old(self).wf(),
            old(self)@.len() + 3 <= usize::MAX,
        ensures
            final(self).wf(),
            ok,
            final(self)@ == old(self)@.push(value),
    {
        let ghost ord = self.order@;
        let ghost n0 = self.nodes@;
        let slot = self.alloc_node(value);
        let p = self.nodes[TAIL].pre;
        proof {
            assert(p == pred(ord, ord.len() as int));
            if ord.len() > 0 {
                assert(2 <= ord[ord.len() - 1] < n0.len());
            }
        }
        self.nodes[TAIL].pre = slot;
        self.nodes[slot].pre = p;
        self.nodes[slot].next = TAIL;
        self.nodes[p].next = slot;
        self.len = self.len + 1;
        proof {
            let ord2 = ord.push(slot);
            self.order@ = ord2;
            let nodes = self.nodes@;
            assert forall|i: int| 0 <= i < ord2.len() implies {
                let k = #[trigger] ord2[i] as int;
                nodes[k].next == succ(ord2, i) && nodes[k].pre == pred(ord2, i)
                    && nodes[k].value is Some
            } by {
                if i < ord.len() {
                    let k = ord[i] as int;
                    assert(ord2[i] == ord[i]);
                    assert(2 <= k < n0.len());
                    assert(k != slot) by {
                        assert(ord.contains(ord[i]));
                    }
                    assert(n0[k].next == succ(ord, i));
                    assert(n0[k].pre == pred(ord, i));
                    if i + 1 < ord.len() {
                        assert(ord.no_duplicates());
                        assert(ord[i] != ord[ord.len() - 1]);
                        assert(k != p);
                        assert(nodes[k] == n0[k]);
                    } else {
                        assert(k == p);
                    }
                } else {
                    assert(ord2[i] == slot);
                }
            }
            assert forall|i: int, j: int|
                0 <= i < ord2.len() && 0 <= j < ord2.len() && i != j implies ord2[i] != ord2[j] by {
                if i < ord.len() && j < ord.len() {
                    assert(ord.no_duplicates());
                } else if i < ord.len() {
                    assert(ord.contains(ord[i]));
                } else {
                    assert(ord.contains(ord[j]));
                }
            }
            assert forall|x: usize| ord2.contains(x) implies x == slot || ord.contains(x) by {
                let ii = choose|ii: int| 0 <= ii < ord2.len() && ord2[ii] == x;
                if ii < ord.len() {
                    assert(ord[ii] == x);
                }
            }
            lemma_free_after_alloc(
                old(self).free@,
                self.free@,
                ord,
                ord2,
                slot,
                n0.len(),
                nodes.len(),
            );
            assert(self@ =~= old(self)@.push(value));
        }
        true
    }
}

impl<T: Default> LinkedList<T> {
    /// Puts `value` before the first element; always `true`, as for `push_back`.
    #[verifier::spinoff_prover]
    #[verifier::rlimit(50)]
    pub fn push_front(&mut self, value: T) -> (ok: bool)
        requires
            old(self).wf(),
            old(self)@.len() + 3 <= usize::MAX,
        ensures
            final(self).wf(),
            ok,
            final(self)@ == seq![value] + old(self)@,
    {
        let ghost ord = self.order@;
        let ghost n0 = self.nodes@;
        let slot = self.alloc_node(value);
        let nx = self.nodes[HEAD].next;
        proof {
            assert(nx == succ(ord, -1));
            if ord.len() > 0 {
                assert(2 <= ord[0] < n0.len());
            }
        }
        self.nodes[HEAD].next = slot;
        self.nodes[slot].next = nx;
        self.nodes[slot].pre = HEAD;
        self.nodes[nx].pre = slot;
        self.len = self.len + 1;
        proof {
            let ord2 = seq![slot] + ord;
            self.order@ = ord2;
            let nodes = self.nodes@;
            assert forall|i: int| 0 <= i < ord2.len() implies {
                let k = #[trigger] ord2[i] as int;
                nodes[k].next == succ(ord2, i) && nodes[k].pre == pred(ord2, i)
                    && nodes[k].value is Some
            } by {
                if i > 0 {
                    let k = ord[i - 1] as int;
                    assert(ord2[i] == ord[i - 1]);
                    assert(2 <= k < n0.len());
                    assert(k != slot) by {
                        assert(ord.contains(ord[i - 1]));
                    }
                    assert(n0[k].next == succ(ord, i - 1));
                    assert(n0[k].pre == pred(ord, i - 1));
                    if i > 1 {
                        assert(ord.no_duplicates());
                        assert(ord[i - 1] != ord[0]);
                        assert(k != nx);
                        assert(nodes[k] == n0[k]);
                    } else {
                        assert(k == nx);
                    }
                } else {
                    assert(ord2[i] == slot);
                }
            }
            assert forall|i: int, j: int|
                0 <= i < ord2.len() && 0 <= j < ord2.len() && i != j implies ord2[i] != ord2[j] by {
                if i > 0 && j > 0 {
                    assert(ord.no_duplicates());
                } else if i > 0 {
                    assert(ord.contains(ord[i - 1]));
                } else {
                    assert(ord.contains(ord[j - 1]));
                }
            }
            assert forall|x: usize| ord2.contains(x) implies x == slot || ord.contains(x) by {
                let ii = choose|ii: int| 0 <= ii < ord2.len() && ord2[ii] == x;
                if ii > 0 {
                    assert(ord[ii - 1] == x);
                }
            }
            lemma_free_after_alloc(
                old(self).free@,
                self.free@,
                ord,
                ord2,
                slot,
                n0.len(),
                nodes.len(),
            );
            assert(self@ =~= seq![value] + old(self)@);
        }
        true
    }

    /// Takes the value out of the unlinked node at `slot`, leaving `None`
    /// there, and puts the slot on the free list.
    fn release_node(&mut self, slot: usize) -> (v: Option<T>)
        requires
            slot < old(self).nodes@.len(),
            !old(self).free@.contains(slot),
        ensures
            v == old(self).nodes@[slot as int].value,
            final(self).nodes@.len() == old(self).nodes@.len(),
            final(self).nodes@[slot as int].next == old(self).nodes@[slot as int].next,
            final(self).nodes@[slot as int].pre == old(self).nodes@[slot as int].pre,
            forall|j: int|
                0 <= j < old(self).nodes@.len() && j != slot ==> final(self).nodes@[j]
                    == old(self).nodes@[j],
            final(self).free@ == old(self).free@.push(slot),
            final(self).order == old(self).order,
            final(self).len == old(self).len,
    {
        let mut v: Option<T> = None;
        std::mem::swap(&mut self.nodes[slot].value, &mut v);
        self.free.push(slot);
        v
    }

    /// Removes and returns the last element, or `None` when the list is empty.
    #[verifier::spinoff_prover]
    #[verifier::rlimit(50)]
    pub fn pop_back(&mut self) -> (r: Option<T>)
        requires
            old(self).wf(),
        ensures
            final(self).wf(),
            old(self)@.len() == 0 ==> r is None && final(self)@ == old(self)@,
            old(self)@.len() > 0 ==> r == Some(old(self)@.last())
                && final(self)@ == old(self)@.drop_last(),
    {
        if self.len == 0 {
            return None;
        }
        let ghost ord = self.order@;
        let ghost n0 = self.nodes@;
        let s = self.nodes[TAIL].pre;
        proof {
            assert(s == ord[ord.len() - 1]);
            assert(2 <= ord[ord.len() - 1] < n0.len());
            if ord.len() > 1 {
                assert(2 <= ord[ord.len() - 2] < n0.len());
            }
        }
        let p = self.nodes[s].pre;
        proof {
            assert(p == pred(ord, ord.len() - 1));
        }
        self.nodes[TAIL].pre = p;
        self.nodes[p].next = TAIL;
        proof {
            assert(!self.free@.contains(s)) by {
                if self.free@.contains(s) {
                    let jj = choose|jj: int| 0 <= jj < self.free@.len() && self.free@[jj] == s;
                    assert(!ord.contains(self.free@[jj]));
                    assert(ord.contains(ord[ord.len() - 1]));
                }
            }
        }
        let v = self.release_node(s);
        self.len = self.len - 1;
        proof {
            let ord2 = ord.drop_last();
            self.order@ = ord2;
            let nodes = self.nodes@;
            assert forall|i: int| 0 <= i < ord2.len() implies {
                let k = #[trigger] ord2[i] as int;
                nodes[k].next == succ(ord2, i) && nodes[k].pre == pred(ord2, i)
                    && nodes[k].value is Some
            } by {
                let k = ord[i] as int;
                assert(ord2[i] == ord[i]);
                assert(2 <= k < n0.len());
                assert(ord.no_duplicates());
                assert(k != s);
                assert(n0[k].next == succ(ord, i));
                assert(n0[k].pre == pred(ord, i));
                if i + 2 < ord.len() {
                    assert(ord[i] != ord[ord.len() - 2]);
                    assert(k != p);
                    assert(nodes[k] == n0[k]);
                } else {
                    assert(k == p);
                }
            }
            assert forall|i: int, j: int|
                0 <= i < ord2.len() && 0 <= j < ord2.len() && i != j implies ord2[i] != ord2[j] by {
                assert(ord.no_duplicates());
            }
            assert forall|x: usize| ord2.contains(x) implies ord.contains(x) && x != s by {
                let ii = choose|ii: int| 0 <= ii < ord2.len() && ord2[ii] == x;
                assert(ord[ii] == x);
                assert(ord.no_duplicates());
            }
            assert(ord.contains(ord[ord.len() - 1]));
            lemma_free_after_release(old(self).free@, ord, ord2, s, nodes.len());
            assert(self@ =~= old(self)@.drop_last());
        }
        v
    }
}

impl<T: Default> LinkedList<T> {
    /// Removes and returns the first element, or `None` when the list is empty.
    #[verifier::spinoff_prover]
    #[verifier::rlimit(50)]
    pub fn pop_front(&mut self) -> (r: Option<T>)
        requires
            old(self).wf(),
        ensures
            final(self).wf(),
            old(self)@.len() == 0 ==> r is None && final(self)@ == old(self)@,
            old(self)@.len() > 0 ==> r == Some(old(self)@[0])
                && final(self)@ == old(self)@.drop_first(),
    {
        if self.len == 0 {
            return None;
        }
        let ghost ord = self.order@;
        let ghost n0 = self.nodes@;
        let s = self.nodes[HEAD].next;
        proof {
            assert(s == ord[0]);
            assert(2 <= ord[0] < n0.len());
            if ord.len() > 1 {
                assert(2 <= ord[1] < n0.len());
            }
        }
        let nx = self.nodes[s].next;
        proof {
            assert(nx == succ(ord, 0));
        }
        self.nodes[HEAD].next = nx;
        self.nodes[nx].pre = HEAD;
        proof {
            assert(!self.free@.contains(s)) by {
                if self.free@.contains(s) {
                    let jj = choose|jj: int| 0 <= jj < self.free@.len() && self.free@[jj] == s;
                    assert(!ord.contains(self.free@[jj]));
                    assert(ord.contains(ord[0]));
                }
            }
        }
        let v = self.release_node(s);
        self.len = self.len - 1;
        proof {
            let ord2 = ord.drop_first();
            self.order@ = ord2;
            let nodes = self.nodes@;
            assert forall|i: int| 0 <= i < ord2.len() implies {
                let k = #[trigger] ord2[i] as int;
                nodes[k].next == succ(ord2, i) && nodes[k].pre == pred(ord2, i)
                    && nodes[k].value is Some
            } by {
                let k = ord[i + 1] as int;
                assert(ord2[i] == ord[i + 1]);
                assert(2 <= k < n0.len());
                assert(ord.no_duplicates());
                assert(k != s);
                assert(n0[k].next == succ(ord, i + 1));
                assert(n0[k].pre == pred(ord, i + 1));
                if i > 0 {
                    assert(ord[i + 1] != ord[1]);
                    assert(k != nx);
                    assert(nodes[k] == n0[k]);
                } else {
                    assert(k == nx);
                }
            }
            assert forall|i: int, j: int|
                0 <= i < ord2.len() && 0 <= j < ord2.len() && i != j implies ord2[i] != ord2[j] by {
                assert(ord.no_duplicates());
                assert(ord2[i] == ord[i + 1] && ord2[j] == ord[j + 1]);
            }
            assert forall|x: usize| ord2.contains(x) implies ord.contains(x) && x != s by {
                let ii = choose|ii: int| 0 <= ii < ord2.len() && ord2[ii] == x;
                assert(ord[ii + 1] == x);
                assert(ord.no_duplicates());
            }
            assert(ord.contains(ord[0]));
            lemma_free_after_release(old(self).free@, ord, ord2, s, nodes.len());
            assert(self@ =~= old(self)@.drop_first());
        }
        v
    }

    /// The first element, or `None` when the list is empty.
    pub fn front(&self) -> (r: Option<&T>)
        requires
            self.wf(),
        ensures
            self@.len() == 0 ==> r is None,
            self@.len() > 0 ==> r == Some(&self@[0]),
    {
        if self.len > 0 {
            let first = self.nodes[HEAD].next;
            proof {
                assert(2 <= self.order@[0] < self.nodes@.len());
            }
            self.nodes[first].value.as_ref()
        } else {
            None
        }
    }

    /// The last element, or `None` when the list is empty.
    pub fn back(&self) -> (r: Option<&T>)
        requires
            self.wf(),
        ensures
            self@.len() == 0 ==> r is None,
            self@.len() > 0 ==> r == Some(&self@.last()),
    {
        if self.len > 0 {
            let last = self.nodes[TAIL].pre;
            proof {
                let n = self.order@.len() - 1;
                assert(2 <= self.order@[n] < self.nodes@.len());
            }
            self.nodes[last].value.as_ref()
        } else {
            None
        }
    }

    /// The slot of the element at position `index`, found by following the
    /// `next` links from the head sentinel.
    fn slot_of(&self, index: usize) -> (slot: usize)
        requires
            self.wf(),
            index < self@.len(),
        ensures
            slot == self.order@[index as int],
    {
        let mut p = HEAD;
        let mut i: usize = 0;
        while i <= index
            invariant
                self.wf(),
                index < self@.len(),
                i <= index + 1,
                p == pred(self.order@, i as int),
            decreases index + 1 - i,
        {
            proof {
                if i > 0 {
                    assert(2 <= self.order@[i - 1] < self.nodes@.len());
                }
            }
            p = self.nodes[p].next;
            i = i + 1;
        }
        p
    }

    /// The element at position `index`, or `None` past the end.
    pub fn get(&self, index: usize) -> (r: Option<&T>)
        requires
            self.wf(),
        ensures
            index < self@.len() ==> r == Some(&self@[index as int]),
            index >= self@.len() ==> r is None,
    {
        if index < self.len {
            let p = self.slot_of(index);
            proof {
                assert(2 <= self.order@[index as int] < self.nodes@.len());
            }
            self.nodes[p].value.as_ref()
        } else {
            None
        }
    }

    /// A mutable reference to the element at position `index`, or `None`
    /// past the end.
    pub fn get_mut(&mut self, index: usize) -> (r: Option<&mut T>)
        requires
            old(self).wf(),
        ensures
            final(self).wf(),
            index < old(self)@.len() ==> r is Some && *r.unwrap() == old(self)@[index as int]
                && final(self)@ == old(self)@.update(index as int, *final(r.unwrap())),
            index >= old(self)@.len() ==> r is None && final(self)@ == old(self)@,
    {
        if index < self.len {
            let p = self.slot_of(index);
            self.value_mut(p, Ghost(index as int))
        } else {
            None
        }
    }

    /// A mutable reference to the value of the element at position `i`,
    /// whose slot is `p`.
    fn value_mut(&mut self, p: usize, Ghost(i): Ghost<int>) -> (r: Option<&mut T>)
        requires
            old(self).wf(),
            0 <= i < old(self)@.len(),
            p == old(self).order@[i],
        ensures
            final(self).wf(),
            r is Some && *r.unwrap() == old(self)@[i] && final(self)@ == old(self)@.update(
                i,
                *final(r.unwrap()),
            ),
    {
        proof {
            assert(2 <= self.order@[i] < self.nodes@.len());
        }
        proof {
            let ord = self.order@;
            let nodes = self.nodes@;
            assert(ord.no_duplicates());
            assert forall|x: T|
                view_of(#[trigger] with_value(nodes, p as int, x), ord)
                    =~= view_of(nodes, ord).update(i, x) by {
                assert forall|j: int| 0 <= j < ord.len() && j != i implies ord[j] != p by {}
            }
            assert forall|x: T|
                links_ok(#[trigger] with_value(nodes, p as int, x), ord) by {
                let nodes2 = with_value(nodes, p as int, x);
                assert forall|j: int| 0 <= j < ord.len() implies {
                    let k = #[trigger] ord[j] as int;
                    nodes2[k].next == succ(ord, j) && nodes2[k].pre == pred(ord, j)
                        && nodes2[k].value is Some
                } by {
                    assert(2 <= ord[j] < nodes.len());
                }
            }
        }
        match &mut self.nodes[p].value {
            Some(r) => Some(r),
            None => None,
        }
    }

    /// A mutable reference to the first element, or `None` when the list is empty.
    pub fn front_mut(&mut self) -> (r: Option<&mut T>)
        requires
            old(self).wf(),
        ensures
            final(self).wf(),
            old(self)@.len() > 0 ==> r is Some && *r.unwrap() == old(self)@[0] && final(self)@
                == old(self)@.update(0, *final(r.unwrap())),
            old(self)@.len() == 0 ==> r is None && final(self)@ == old(self)@,
    {
        if self.len > 0 {
            let p = self.nodes[HEAD].next;
            self.value_mut(p, Ghost(0))
        } else {
            None
        }
    }

    /// A mutable reference to the last element, or `None` when the list is empty.
    pub fn back_mut(&mut self) -> (r: Option<&mut T>)
        requires
            old(self).wf(),
        ensures
            final(self).wf(),
            old(self)@.len() > 0 ==> r is Some && *r.unwrap() == old(self)@.last()
                && final(self)@ == old(self)@.update(old(self)@.len() - 1, *final(r.unwrap())),
            old(self)@.len() == 0 ==> r is None && final(self)@ == old(self)@,
    {
        if self.len > 0 {
            let p = self.nodes[TAIL].pre;
            self.value_mut(p, Ghost(self.len as int - 1))
        } else {
            None
        }
    }

    /// Removes every element, last one first.
    pub fn clear(&mut self)
        requires
            old(self).wf(),
        ensures
            final(self).wf(),
            final(self)@ == Seq::<T>::empty(),
    {
        while self.len > 0
            invariant
                self.wf(),
            decreases self@.len(),
        {
            self.pop_back();
        }
        assert(self@ =~= Seq::<T>::empty());
    }
}

/// Pushing `x` at the back and then popping from the back gives `x` back
/// and leaves the elements as they were.
pub proof fn law_push_back_pop_back<T>(s: Seq<T>, x: T)
    ensures
        s.push(x).len() > 0,
        s.push(x).last() == x,
        s.push(x).drop_last() == s,
{
    assert(s.push(x).drop_last() =~= s);
}

/// Pushing `x` at the front and then popping from the front gives `x` back
/// and leaves the elements as they were.
pub proof fn law_push_front_pop_front<T>(s: Seq<T>, x: T)
    ensures
        (seq![x] + s).len() > 0,
        (seq![x] + s)[0] == x,
        (seq![x] + s).drop_first() == s,
{
    assert((seq![x] + s).drop_first() =~= s);
}

/// Pushing at the back and popping from the front is first in, first out:
/// on a non-empty list the front comes out and `x` stays at the back.
pub proof fn law_push_back_pop_front<T>(s: Seq<T>, x: T)
    requires
        s.len() > 0,
    ensures
        s.push(x)[0] == s[0],
        s.push(x).drop_first() == s.drop_first().push(x),
{
    assert(s.push(x).drop_first() =~= s.drop_first().push(x));
}

/// `front` is the element at position 0 and `back` the one at position
/// `len - 1`, so on a list of one element both are that element.
pub proof fn law_front_back_single<T>(s: Seq<T>)
    requires
        s.len() == 1,
    ensures
        s[0] == s.last(),
{
}

/// Pushing `xs` at the back of an empty list and then popping from the
/// front hands the elements out first in, first out: the `k`-th pop gives
/// `xs[k]`, and after `xs.len()` pops the list is empty.
pub proof fn law_queue_order<T>(xs: Seq<T>, k: nat)
    ensures
        k < xs.len() ==> after_nexts(pushed_all(Seq::empty(), xs), k)[0] == xs[k as int],
        k >= xs.len() ==> after_nexts(pushed_all(Seq::empty(), xs), k).len() == 0,
{
    law_pushes_append(Seq::<T>::empty(), xs);
    law_nexts_in_order(xs, k);
}

/// One call that changes a list, for replaying a history of calls.
pub enum ListOp<T> {
    PushFront(T),
    PushBack(T),
    PopFront,
    PopBack,
}

/// The elements after one call, as the contracts of `push_front`,
/// `push_back`, `pop_front` and `pop_back` give them.
pub open spec fn list_step<T>(s: Seq<T>, op: ListOp<T>) -> Seq<T> {
    match op {
        ListOp::PushFront(x) => seq![x] + s,
        ListOp::PushBack(x) => s.push(x),
        ListOp::PopFront => if s.len() > 0 {
            s.drop_first()
        } else {
            s
        },
        ListOp::PopBack => if s.len() > 0 {
            s.drop_last()
        } else {
            s
        },
    }
}

/// The elements after the calls `ops`, in order, starting from `s`.
pub open spec fn list_replay<T>(s: Seq<T>, ops: Seq<ListOp<T>>) -> Seq<T>
    decreases ops.len(),
{
    if ops.len() == 0 {
        s
    } else {
        list_step(list_replay(s, ops.drop_last()), ops.last())
    }
}

/// The number of pushes among `ops`.
pub open spec fn push_count<T>(ops: Seq<ListOp<T>>) -> nat
    decreases ops.len(),
{
    if ops.len() == 0 {
        0
    } else {
        push_count(ops.drop_last()) + match ops.last() {
            ListOp::PushFront(_) => 1nat,
            ListOp::PushBack(_) => 1nat,
            _ => 0nat,
        }
    }
}

/// The number of pops among `ops` that found the list non-empty, and so
/// returned `Some`.
pub open spec fn pops_taken<T>(s: Seq<T>, ops: Seq<ListOp<T>>) -> nat
    decreases ops.len(),
{
    if ops.len() == 0 {
        0
    } else {
        let before = list_replay(s, ops.drop_last());
        pops_taken(s, ops.drop_last()) + match ops.last() {
            ListOp::PopFront => if before.len() > 0 {
                1nat
            } else {
                0nat
            },
            ListOp::PopBack => if before.len() > 0 {
                1nat
            } else {
                0nat
            },
            _ => 0nat,
        }
    }
}

/// Whatever the order of the calls, the length is the starting length plus
/// the pushes minus the pops that returned `Some`.
pub proof fn law_length_counts_calls<T>(s: Seq<T>, ops: Seq<ListOp<T>>)
    ensures
        list_replay(s, ops).len() + pops_taken(s, ops) == s.len() + push_count(ops),
    decreases ops.len(),
{
    if ops.len() > 0 {
        law_length_counts_calls(s, ops.drop_last());
    }
}

} // verus!

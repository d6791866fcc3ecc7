# diy_std

Hand-made versions of common standard-library types, written in Verus with
contracts over mathematical models:

- `vector`: `Vec<T>` with a logical capacity that starts at 16 and doubles,
  its borrowing iterator `Iter` and owning iterator `IntoIter`.
- `string`: `Str`, a vector of `char`, built from a `&str`.
- `linked_list`: a doubly linked `LinkedList<T>` with sentinel nodes, kept in
  an arena of slots with a free list; its view is the sequence of elements.
- `my_box`, `rc`, `arc`: an owned heap value and two reference-counted
  pointers.
- `cell`, `refcell`, `once`: a value cell, a cell with run-time borrow
  counting (borrows are tokens, tied to the cell that issued them, that are
  handed back), and a run-once guard.
- `pin`: a pointer wrapper that pins only `Unpin` targets.
- `cow`: a clone-on-write enum that derefs to the borrowed value or to what
  the owned copy lends out.

`app/` holds the demo program.

use diy_std::arc::Arc;
use diy_std::cell::Cell;
use diy_std::cow::MyCow;
use diy_std::my_box::Box;
use diy_std::once::Once;
use diy_std::pin::Pin;
use diy_std::rc::Rc;
use diy_std::refcell::Refcell;
use std::ops::{Deref, DerefMut};

#[test]
fn box_holds_and_hands_back() {
    let mut b = Box::new(41);
    assert_eq!(*b, 41);
    *b.deref_mut() += 1;
    assert_eq!(*b.deref(), 42);
    let raw = b.into_raw();
    assert_eq!(*raw, 42);
}

#[test]
fn rc_clones_share_value_and_count() {
    let a = Rc::new(String::from("shared"));
    assert_eq!(a.strong_count(), 1);
    let b = a.clone();
    assert_eq!(a.strong_count(), 2);
    assert_eq!(b.strong_count(), 2);
    assert_eq!(b.as_str(), "shared");
    Rc::downgrade(&a);
    drop(b);
    assert_eq!(a.strong_count(), 1);
    assert_eq!(*a, "shared");
}

#[test]
fn arc_clones_share_value() {
    let a = Arc::new(vec![1, 2, 3]);
    let b = a.clone();
    assert_eq!(*b, vec![1, 2, 3]);
    assert_eq!(a.len(), 3);
}

#[test]
fn cell_set_get_replace() {
    let mut c = Cell::new(5);
    assert_eq!(c.get(), 5);
    c.set(6);
    assert_eq!(c.get(), 6);
    assert_eq!(c.replace(7), 6);
    assert_eq!(c.get(), 7);
    *c.get_mut() = 8;
    assert_eq!(c.get(), 8);
}

#[test]
fn refcell_borrow_release_then_borrow_mut() {
    let mut cell = Refcell::new(10);
    let r1 = cell.borrow();
    let r2 = cell.borrow();
    assert_eq!(*cell.get(&r1), 10);
    assert_eq!(*cell.get(&r2), 10);
    cell.release(r1);
    cell.release(r2);
    let m = cell.borrow_mut();
    *cell.get_mut(&m) = 11;
    cell.release_mut(m);
    let r = cell.borrow();
    assert_eq!(*cell.get(&r), 11);
    cell.release(r);
}

#[test]
fn once_runs_first_closure_only() {
    let mut runs = 0;
    let mut once = Once::new();
    once.call_one(|| runs += 1);
    once.call_one(|| runs += 10);
    assert_eq!(runs, 1);
}

#[test]
fn pin_round_trips() {
    let x = 5;
    let p = Pin::new(&x);
    assert_eq!(*p, 5);
    assert_eq!(*p.as_ref().get_ref(), 5);
    assert_eq!(*p.get_ref(), 5);
    let b = std::boxed::Box::new(7);
    let mut pb = Pin::new(b);
    *pb.as_mut().get_mut() += 1;
    *pb.deref_mut() += 1;
    assert_eq!(*pb, 9);
    let back = pb.into_inner();
    assert_eq!(*back, 9);
}

#[test]
fn refcell_try_borrow_refuses_conflicts() {
    let mut cell = Refcell::new(String::from("x"));
    let m = cell.try_borrow_mut().expect("free cell lends mutably");
    assert!(cell.try_borrow().is_none());
    assert!(cell.try_borrow_mut().is_none());
    cell.get_mut(&m).push('y');
    cell.release_mut(m);
    let r1 = cell.try_borrow().expect("shared borrow after release");
    let r2 = cell.try_borrow().expect("second shared borrow");
    assert!(cell.try_borrow_mut().is_none());
    assert_eq!(cell.get(&r1).as_str(), "xy");
    cell.release(r1);
    cell.release(r2);
    assert!(cell.try_borrow_mut().is_some());
}

#[test]
fn cow_derefs_both_forms() {
    let text = String::from("borrowed");
    let b: MyCow<str> = MyCow::Borrowed(text.as_str());
    assert_eq!(&*b, "borrowed");
    let o: MyCow<str> = MyCow::Owned(String::from("owned"));
    assert_eq!(&*o, "owned");
    let v: MyCow<[i32]> = MyCow::Owned(vec![1, 2]);
    assert_eq!(v.len(), 2);
}

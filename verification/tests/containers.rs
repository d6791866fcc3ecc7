use diy_std::linked_list::LinkedList;
use diy_std::string::Str;
use diy_std::vector::Vec;

#[test]
fn test() {}

#[test]
fn linked_list_doc_example() {
    let mut l = LinkedList::new();
    l.push_back(2);
    l.push_back(3);
    assert_eq!(l.get(0), Some(&2));
    assert_eq!(l.get(1), Some(&3));
    assert_eq!(l.front(), Some(&2));
    assert_eq!(l.back(), Some(&3));
    l.clear();
    assert!(l.is_empty())
}

#[test]
fn linked_list_push_pop_both_ends() {
    let mut l: LinkedList<i32> = LinkedList::new();
    assert!(l.is_empty());
    assert_eq!(l.pop_back(), None);
    assert_eq!(l.pop_front(), None);
    assert_eq!(l.front(), None);
    assert_eq!(l.back(), None);
    assert!(l.push_back(1));
    assert!(l.push_back(2));
    assert!(l.push_front(0));
    assert_eq!(l.len(), 3);
    assert_eq!(l.get(0), Some(&0));
    assert_eq!(l.get(1), Some(&1));
    assert_eq!(l.get(2), Some(&2));
    assert_eq!(l.get(3), None);
    assert_eq!(l.pop_front(), Some(0));
    assert_eq!(l.pop_back(), Some(2));
    assert_eq!(l.pop_back(), Some(1));
    assert_eq!(l.pop_back(), None);
    assert!(l.is_empty());
}

#[test]
fn linked_list_reuses_slots() {
    let mut l: LinkedList<u32> = LinkedList::new();
    let mut model = std::collections::VecDeque::new();
    for round in 0..5u32 {
        for i in 0..10u32 {
            l.push_back(round * 100 + i);
            model.push_back(round * 100 + i);
        }
        for _ in 0..5u32 {
            assert_eq!(l.pop_front(), model.pop_front());
        }
    }
    assert_eq!(l.len(), 25);
    assert_eq!(l.front(), Some(&205));
    assert_eq!(l.back(), Some(&409));
    l.push_front(7);
    assert_eq!(l.get(0), Some(&7));
    assert_eq!(l.get(1), Some(&205));
    assert_eq!(l.get(25), Some(&409));
}

#[test]
fn linked_list_mutable_access() {
    let mut l: LinkedList<String> = LinkedList::new();
    l.push_back("a".to_string());
    l.push_back("b".to_string());
    l.push_back("c".to_string());
    if let Some(x) = l.front_mut() {
        x.push('1');
    }
    if let Some(x) = l.back_mut() {
        x.push('3');
    }
    if let Some(x) = l.get_mut(1) {
        x.push('2');
    }
    assert!(l.get_mut(3).is_none());
    assert_eq!(l.get(0).map(|s| s.as_str()), Some("a1"));
    assert_eq!(l.get(1).map(|s| s.as_str()), Some("b2"));
    assert_eq!(l.get(2).map(|s| s.as_str()), Some("c3"));
    let mut e: LinkedList<String> = LinkedList::new();
    assert!(e.front_mut().is_none());
    assert!(e.back_mut().is_none());
}

#[test]
fn vec_push_get_and_growth() {
    let mut v: Vec<u64> = Vec::new();
    assert!(v.is_empty());
    assert_eq!(v.capacity(), 16);
    for i in 0..16u64 {
        v.push(i * 10);
    }
    assert_eq!(v.capacity(), 16);
    v.push(160);
    assert_eq!(v.capacity(), 32);
    assert_eq!(v.len(), 17);
    assert_eq!(v.get(0), Some(&0));
    assert_eq!(v.get(16), Some(&160));
    assert_eq!(v.get(17), None);
    for i in 17..33u64 {
        v.push(i * 10);
    }
    assert_eq!(v.capacity(), 64);
    assert_eq!(v.len(), 33);
}

#[test]
fn vec_zero_sized_capacity() {
    let mut v: Vec<()> = Vec::new();
    assert_eq!(v.capacity(), usize::MAX);
    v.push(());
    v.push(());
    assert_eq!(v.len(), 2);
    assert_eq!(v.capacity(), usize::MAX);
    assert_eq!(v.get(1), Some(&()));
}

#[test]
fn vec_get_mut_writes_through() {
    let mut v: Vec<i32> = Vec::new();
    v.push(1);
    v.push(2);
    if let Some(x) = v.get_mut(1) {
        *x = 20;
    }
    assert!(v.get_mut(2).is_none());
    assert_eq!(v.get(1), Some(&20));
    assert_eq!(v.get(0), Some(&1));
}

#[test]
fn vec_iterators_in_order() {
    let mut v: Vec<i32> = Vec::new();
    v.push(3);
    v.push(1);
    v.push(2);
    let mut it = v.iter();
    assert_eq!(it.size_hint(), (3, Some(3)));
    assert_eq!(it.next(), Some(&3));
    assert_eq!(it.size_hint(), (2, Some(2)));
    assert_eq!(it.next(), Some(&1));
    assert_eq!(it.next(), Some(&2));
    assert_eq!(it.next(), None);
    assert_eq!(it.size_hint(), (0, Some(0)));
    let mut owned = v.into_iter();
    assert_eq!(owned.size_hint(), (3, Some(3)));
    assert_eq!(owned.next(), Some(3));
    assert_eq!(owned.next(), Some(1));
    assert_eq!(owned.size_hint(), (1, Some(1)));
    assert_eq!(owned.next(), Some(2));
    assert_eq!(owned.next(), None);
}

#[test]
fn str_from_keeps_chars() {
    let s = Str::from("héllo, 世界");
    assert_eq!(s.len(), 9);
    assert_eq!(s.get(0), Some(&'h'));
    assert_eq!(s.get(1), Some(&'é'));
    assert_eq!(s.get(7), Some(&'世'));
    assert_eq!(s.get(8), Some(&'界'));
    assert_eq!(s.get(9), None);
    let e = Str::from("");
    assert!(e.is_empty());
    let long: String = std::iter::repeat('x').take(40).collect();
    let l = Str::from(&long);
    assert_eq!(l.len(), 40);
    assert_eq!(l.capacity(), 64);
}

#[test]
fn vec_default_matches_new() {
    let mut v: Vec<u8> = Default::default();
    assert!(v.is_empty());
    assert_eq!(v.capacity(), 16);
    for i in 0..17u8 {
        v.push(i);
    }
    assert_eq!(v.capacity(), 32);
    assert_eq!(v.get(16), Some(&16));
    let z: Vec<()> = Vec::default();
    assert_eq!(z.capacity(), usize::MAX);
}

#[test]
fn vec_capacity_stays_below_twice_the_length() {
    let mut v: Vec<u32> = Vec::new();
    for i in 0..200u32 {
        v.push(i);
        let cap = v.capacity();
        assert!(v.len() <= cap);
        assert!(cap == 16 || cap / 2 < v.len());
        assert!(cap % 16 == 0 && (cap / 16).is_power_of_two());
    }
    assert_eq!(v.len(), 200);
    assert_eq!(v.get(199), Some(&199));
    assert_eq!(v.get(200), None);
}

#[test]
fn str_from_short_string_capacity() {
    let s = Str::from("h\u{e9}llo");
    assert_eq!(s.len(), 5);
    assert_eq!(s.get(0), Some(&'h'));
    assert_eq!(s.get(1), Some(&'\u{e9}'));
    assert_eq!(s.get(4), Some(&'o'));
    assert_eq!(s.get(5), None);
    assert_eq!(s.capacity(), 16);
}

#[test]
fn linked_list_length_counts_pushes_and_pops() {
    let mut l: LinkedList<i64> = LinkedList::new();
    let mut model = std::collections::VecDeque::new();
    let mut pushes = 0usize;
    let mut pops = 0usize;
    for step in 0..300i64 {
        match step % 7 {
            0 | 3 => {
                l.push_back(step);
                model.push_back(step);
                pushes += 1;
            }
            1 | 5 => {
                l.push_front(step);
                model.push_front(step);
                pushes += 1;
            }
            2 => {
                let r = l.pop_front();
                assert_eq!(r, model.pop_front());
                if r.is_some() {
                    pops += 1;
                }
            }
            _ => {
                let r = l.pop_back();
                assert_eq!(r, model.pop_back());
                if r.is_some() {
                    pops += 1;
                }
            }
        }
        assert_eq!(l.len(), pushes - pops);
        assert_eq!(l.is_empty(), l.len() == 0);
    }
    for i in 0..l.len() {
        assert_eq!(l.get(i), model.get(i));
    }
    assert_eq!(l.get(l.len()), None);
}

#[test]
fn linked_list_queue_order() {
    let mut l: LinkedList<u16> = LinkedList::new();
    for x in 0..50u16 {
        assert!(l.push_back(x * 3));
    }
    for x in 0..50u16 {
        assert_eq!(l.pop_front(), Some(x * 3));
    }
    assert_eq!(l.pop_front(), None);
    assert!(l.is_empty());
}

use rust_dsa::array_list::ArrayList;
use rust_dsa::linked_list::LinkedList;
use rust_dsa::rawvec::RawVec;
use rust_dsa::ring_buffer::RingBuffer;

#[test]
fn growth_capacity_sequence() {
    let mut rv = RawVec::<u8>::new();
    assert_eq!(rv.cap(), 0);
    rv.grow();
    assert_eq!(rv.cap(), 5);
    rv.grow();
    assert_eq!(rv.cap(), 10);
    rv.grow();
    assert_eq!(rv.cap(), 20);
    rv.grow();
    assert_eq!(rv.cap(), 40);
}

#[test]
fn pushes_then_pops_are_lifo() {
    let mut l = ArrayList::<u32>::new();
    for v in [11, 22, 33, 44, 55, 66, 77] {
        l.push(v);
    }
    for v in [77, 66, 55, 44, 33, 22, 11] {
        assert_eq!(l.pop(), Some(v));
    }
    assert_eq!(l.pop(), None);
}

#[test]
fn front_pushes_then_pops_are_fifo() {
    let mut l = ArrayList::<u32>::new();
    for v in [11, 22, 33, 44, 55, 66, 77] {
        l.push_front(v);
    }
    for v in [11, 22, 33, 44, 55, 66, 77] {
        assert_eq!(l.pop(), Some(v));
    }
    assert_eq!(l.pop(), None);
}

#[test]
fn ring_keeps_last_capacity_values() {
    let mut rb = RingBuffer::<u32>::with_capacity(3);
    rb.push_back(1);
    rb.push_back(2);
    rb.push_back(3);
    rb.push_back(4);
    assert_eq!(rb.len(), 3);
    assert_eq!(*rb.index(0), 2);
    assert_eq!(*rb.index(1), 3);
    assert_eq!(*rb.index(2), 4);
    assert_eq!(rb.pop_front(), Some(2));
    assert_eq!(rb.pop_front(), Some(3));
    assert_eq!(rb.pop_front(), Some(4));
    assert_eq!(rb.pop_front(), None);
}

#[test]
fn consumption_yields_in_order() {
    let mut l = ArrayList::<String>::new();
    l.push("a".to_string());
    l.push("b".to_string());
    l.push("c".to_string());
    let mut it = l.into_iter();
    assert_eq!(it.next(), Some("a".to_string()));
    assert_eq!(it.next(), Some("b".to_string()));
    assert_eq!(it.next(), Some("c".to_string()));
    assert_eq!(it.next(), None);
}

#[test]
fn abandoned_consumption_finalizes_the_rest() {
    let mut l = ArrayList::<String>::new();
    l.push("a".to_string());
    l.push("b".to_string());
    l.push("c".to_string());
    let mut it = l.into_iter();
    assert_eq!(it.next(), Some("a".to_string()));
    // Dropping the cursor here must finalize "b" and "c" exactly once
    // and must not touch the already yielded "a" again.
    drop(it);
}

#[test]
fn circular_overwrite_scenario() {
    let mut rb = RingBuffer::<String>::with_capacity(2);
    rb.push_back("Hey".to_string());
    *rb.index_mut(0) = "META".to_string();
    rb.push_back("You".to_string());
    assert_eq!(*rb.index(0), "META".to_string());
    assert_eq!(*rb.index(1), "You".to_string());
    rb.push_back("Guys".to_string());
    assert_eq!(*rb.index(0), "You".to_string());
    assert_eq!(*rb.index(1), "Guys".to_string());
    assert_eq!(rb.pop_front(), Some("You".to_string()));
    assert_eq!(rb.len(), 1);
    assert_eq!(*rb.index(0), "Guys".to_string());
}

#[test]
fn wrapped_index_wraps_around() {
    let mut rb = RingBuffer::<u8>::with_capacity(3);
    rb.push_back(10);
    rb.push_back(20);
    rb.push_back(30);
    assert_eq!(rb.pop_front(), Some(10));
    assert_eq!(rb.head(), 1);
    assert_eq!(rb.wrapped_index(0), 1);
    assert_eq!(rb.wrapped_index(1), 2);
    assert_eq!(rb.wrapped_index(2), 0);
}

#[test]
fn split_off_edge_positions() {
    let mut l = LinkedList::<u8>::new();
    l.push_front(3);
    l.push_front(2);
    l.push_front(1);
    assert!(l.split_off(0).is_none());
    assert_eq!(l.len(), 3);
    assert!(l.split_off(4).is_none());
    assert_eq!(l.len(), 3);
    let tail = l.split_off(3);
    assert!(tail.is_some());
    assert!(tail.unwrap().is_empty());
    assert_eq!(l.len(), 3);
}

#[test]
fn empty_pops_signal_absence() {
    let mut l = ArrayList::<u8>::new();
    assert_eq!(l.pop(), None);
    let mut rb = RingBuffer::<u8>::with_capacity(4);
    assert_eq!(rb.pop_front(), None);
    let mut ll = LinkedList::<u8>::new();
    assert_eq!(ll.pop_front(), None);
}

use rust_dsa::queue::{ArrayQueue, LinkedQueue, StdArrayQueue, StdLinkedQueue};

#[test]
fn array_queue_works() {
    let mut s = ArrayQueue::<usize>::new();
    assert_eq!(s.pop(), None);
    s.push(3478);
    s.push(1);
    assert_eq!(s.pop(), Some(3478));
    assert_eq!(s.pop(), Some(1));
}

#[test]
fn linked_queue_works() {
    let mut s = LinkedQueue::<usize>::new();
    assert_eq!(s.pop(), None);
    s.push(3478);
    s.push(1);
    assert_eq!(s.pop(), Some(3478));
    assert_eq!(s.pop(), Some(1));
}

#[test]
fn std_array_queue_works() {
    let mut s = StdArrayQueue::<usize>::new();
    assert_eq!(s.pop(), None);
    s.push(3478);
    s.push(1);
    assert_eq!(s.pop(), Some(3478));
    assert_eq!(s.pop(), Some(1));
}

#[test]
fn std_linked_queue_works() {
    let mut s = StdLinkedQueue::<usize>::new();
    assert_eq!(s.pop(), None);
    s.push(3478);
    s.push(1);
    assert_eq!(s.pop(), Some(3478));
    assert_eq!(s.pop(), Some(1));
}

use rust_dsa::stack::{ArrayStack, LinkedStack, StdArrayStack, StdLinkedStack};

#[test]
fn array_stack_works() {
    let mut s = ArrayStack::<usize>::new();
    assert_eq!(s.pop(), None);
    s.push(3478);
    s.push(1);
    assert_eq!(s.pop(), Some(1));
    assert_eq!(s.pop(), Some(3478));
}

#[test]
fn linked_stack_works() {
    let mut s = LinkedStack::<usize>::new();
    assert_eq!(s.pop(), None);
    s.push(3478);
    s.push(1);
    assert_eq!(s.pop(), Some(1));
    assert_eq!(s.pop(), Some(3478));
}

#[test]
fn std_array_stack_works() {
    let mut s = StdArrayStack::<usize>::new();
    assert_eq!(s.pop(), None);
    s.push(3478);
    s.push(1);
    assert_eq!(s.pop(), Some(1));
    assert_eq!(s.pop(), Some(3478));
}

#[test]
fn std_linked_stack_works() {
    let mut s = StdLinkedStack::<usize>::new();
    assert_eq!(s.pop(), None);
    s.push(3478);
    s.push(1);
    assert_eq!(s.pop(), Some(1));
    assert_eq!(s.pop(), Some(3478));
}

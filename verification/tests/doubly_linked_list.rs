use rust_dsa::doubly_linked_list::DoublyLinkedList;

#[test]
fn doubly_linked_list_linked_list_works() {
    let mut l = DoublyLinkedList::<usize>::new();
    assert_eq!(l.len(), 0);
    assert!(l.is_empty());
    assert_eq!(l.pop_front(), None);
    l.push_front(5);
    assert_eq!(l.len(), 1);
    assert_eq!(l.pop_front(), Some(5));
    assert_eq!(l.len(), 0);
    l.push_back(10);
    assert_eq!(l.len(), 1);
    assert_eq!(l.pop_back(), Some(10));
    assert_eq!(l.len(), 0);
    l.push_front(5); // 5
    l.push_back(10); // 5 10
    l.push_front(3); // 3 5 10
    l.push_back(7); // 3 5 10 7
    assert_eq!(l.pop_front(), Some(3));
    assert_eq!(l.pop_front(), Some(5));
    assert_eq!(l.pop_front(), Some(10));
    assert_eq!(l.pop_front(), Some(7));
    assert_eq!(l.len(), 0);
    l.push_front(5); // 5
    l.push_back(10); // 5 10
    l.push_front(3); // 3 5 10
    l.push_back(7); // 3 5 10 7
    assert_eq!(l.pop_back(), Some(7));
    assert_eq!(l.pop_back(), Some(10));
    assert_eq!(l.pop_back(), Some(5));
    assert_eq!(l.pop_back(), Some(3));
    assert_eq!(l.len(), 0);
    l.push_front(5); // 5
    l.push_back(10); // 5 10
    let mut l2 = DoublyLinkedList::<usize>::new();
    l2.push_front(3); // 3
    l2.push_back(7); // 3 7
    l.append(l2); // 5 10 3 7
    assert_eq!(l.len(), 4);
    assert_eq!(l.pop_front(), Some(5));
    assert_eq!(l.pop_front(), Some(10));
    assert_eq!(l.pop_front(), Some(3));
    assert_eq!(l.pop_front(), Some(7));
}

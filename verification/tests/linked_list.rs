use rust_dsa::linked_list::LinkedList;

#[test]
fn linked_list_linked_list_works() {
    let mut l = LinkedList::<usize>::new();
    assert!(l.is_empty());
    assert_eq!(l.len(), 0);
    l.push_front(5);
    assert!(!l.is_empty());
    assert_eq!(l.len(), 1);
    assert_eq!(l.pop_front(), Some(5));
    assert_eq!(l.len(), 0);
    assert!(l.is_empty());
    l.push_front(5);
    l.push_front(4);
    l.push_front(3);
    l.push_front(2);
    assert_eq!(l.len(), 4);

    let split = l.split_off(1);
    assert!(split.is_some());
    let mut split = split.unwrap();
    assert_eq!(split.pop_front(), Some(3));
    assert!(!split.is_empty());
    assert_eq!(split.len(), 2);
    assert_eq!(split.pop_front(), Some(4));
    assert_eq!(split.pop_front(), Some(5));
    assert!(split.is_empty());
    assert_eq!(split.len(), 0);
    assert_eq!(l.len(), 1);
    assert_eq!(l.pop_front(), Some(2));

    l.push_front(5);
    l.push_front(6);
    split.push_front(8);
    split.append(l);
    assert_eq!(split.len(), 3);
    assert_eq!(split.pop_front(), Some(8));
    assert_eq!(split.pop_front(), Some(6));
    assert_eq!(split.pop_front(), Some(5));
}

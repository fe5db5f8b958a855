use rust_dsa::array_list::ArrayList;

#[test]
fn array_list_works() {
    let mut l = ArrayList::<u8>::new();
    assert_eq!(l.len(), 0);
    assert_eq!(l.pop(), None);
    l.push(5);
    assert_eq!(l.len(), 1);
    l.push_front(10);
    assert_eq!(*l.index(0), 10);
    assert_eq!(*l.index(1), 5);
    assert_eq!(l.len(), 2);
    assert_eq!(l.pop(), Some(5));
    assert_eq!(l.pop(), Some(10));
    l.push(10);
    l.push(254);
    l.push(7);
    l.push(8);
    l.push(9);
    l.push(6);
    assert_eq!(*l.index(2), 7);
    *l.index_mut(2) = 25;
    assert_eq!(*l.index(2), 25);
    assert_eq!(*l.index(5), 6);
    assert_eq!(l.len(), 6);
    let mut it = l.into_iter();
    let mut collected: Vec<u8> = Vec::new();
    while let Some(v) = it.next() {
        collected.push(v);
    }
    assert_eq!(collected, vec![10, 254, 25, 8, 9, 6]);
}

#[test]
fn string_list_works() {
    let mut l = ArrayList::<String>::new();

    l.push("hey".to_string());
    l.push("you".to_string());
    l.push("guys".to_string());

    assert_eq!(l.len(), 3);
    assert_eq!(l.pop(), Some("guys".to_string()));
    let mut i = l.into_iter();
    assert_eq!(i.next(), Some("hey".to_string()));
}

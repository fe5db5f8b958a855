use rust_dsa::ring_buffer::RingBuffer;

#[test]
fn ring_buffer_works() {
    let mut rb = RingBuffer::<u8>::with_capacity(8);
    assert_eq!(rb.len(), 0);
    assert_eq!(rb.pop_front(), None);
    rb.push_back(1);
    assert_eq!(*rb.index(0), 1);
    rb.push_back(9);
    rb.push_back(7);
    *rb.index_mut(2) = 14;
    assert_eq!(rb.len(), 3);
    assert_eq!(rb.pop_front(), Some(1));
    assert_eq!(rb.head(), 1);
    assert_eq!(rb.pop_front(), Some(9));
    assert_eq!(rb.pop_front(), Some(14));
    assert_eq!(rb.pop_front(), None);
}

#[test]
fn string_ring_works() {
    let mut rb = RingBuffer::<String>::with_capacity(2);
    rb.push_back("Hey".to_string());
    *rb.index_mut(0) = "META".to_string();
    rb.push_back("You".to_string());
    assert_eq!(rb.len(), 2);
    rb.push_back("Guys".to_string());
    assert_eq!(rb.len(), 2);
    // The full-buffer push evicted the oldest element ("META"), so the
    // oldest live element is now "You".
    assert_eq!(rb.pop_front(), Some("You".to_string()));
}

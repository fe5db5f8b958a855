use rust_dsa::rawvec::RawVec;

#[test]
fn rawvec_works() {
    let mut rv = RawVec::<i64>::new();
    assert_eq!(rv.cap(), 0);
    rv.grow();
    assert_eq!(rv.cap(), 5);
    rv.write_slot(0, 50);
    assert_eq!(*rv.read_slot(0), 50);

    rv.grow();
    assert_eq!(rv.cap(), 10);
    assert_eq!(*rv.read_slot(0), 50);
    rv.write_slot(9, 67);
    assert_eq!(*rv.read_slot(9), 67);

    drop(rv);
}

use rust_dsa::search::{binary_search, binary_search_rec, linear_search, linear_search_slice};

#[test]
fn linear_search_works() {
    let v = vec![1, 2, 3];
    assert_eq!(Some(3), linear_search(v, |&n: &i32| n == 3));
    let v = vec![1, 2, 3];
    assert_eq!(None, linear_search(v, |&n: &i32| n == 4));
}

#[test]
fn linear_search_slice_works() {
    let s = [1, 2, 3].as_slice();
    assert_eq!(Some(2), linear_search_slice(s, &3));
    assert_eq!(None, linear_search_slice(s, &4));
}

#[test]
fn binary_search_works() {
    let s = [1, 3, 5, 8, 13, 21].as_slice();
    assert_eq!(Some(1), binary_search(s, &3));
    assert_eq!(Some(4), binary_search(s, &13));
    assert_eq!(Some(5), binary_search(s, &21));
    assert_eq!(None, binary_search(s, &2));
    assert_eq!(None, binary_search(s, &0));
    assert_eq!(None, binary_search(s, &23));
}

#[test]
fn binary_search_rec_works() {
    let s = [1, 3, 5, 8, 13, 21].as_slice();
    assert_eq!(Some(0), binary_search_rec(s, &1));
    assert_eq!(Some(1), binary_search_rec(s, &3));
    assert_eq!(Some(2), binary_search_rec(s, &5));
    assert_eq!(Some(3), binary_search_rec(s, &8));
    assert_eq!(Some(4), binary_search_rec(s, &13));
    assert_eq!(Some(5), binary_search_rec(s, &21));
    assert_eq!(None, binary_search_rec(s, &0));
    assert_eq!(None, binary_search_rec(s, &2));
    assert_eq!(None, binary_search_rec(s, &15));
    assert_eq!(None, binary_search_rec(s, &23));
}

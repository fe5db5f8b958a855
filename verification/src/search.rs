//! Linear search and binary search over slices, and a linear search that
//! consumes its input while testing a caller-supplied predicate.
//!
//! The contracts speak through the element type's own equality and
//! ordering (`eq_spec`, `partial_cmp_spec`); the caller vouches that
//! those obey the usual laws, which the standard numeric types do.

use vstd::prelude::*;

use core::cmp::Ordering;
use vstd::laws_cmp::{obeys_cmp_partial_ord, obeys_partial_cmp_spec_properties};
use vstd::laws_eq::{obeys_eq, obeys_eq_spec_properties};
use vstd::std_specs::cmp::{PartialEqSpec, PartialOrdSpec};

verus! {

/// Whether `x` sorts at or before `y` under the element type's ordering.
pub open spec fn le_spec<T: PartialOrd>(x: T, y: T) -> bool {
    ||| x.partial_cmp_spec(&y) == Some(Ordering::Less)
    ||| x.partial_cmp_spec(&y) == Some(Ordering::Equal)
}

/// Whether `s` is sorted in nondecreasing order.
pub open spec fn sorted<T: PartialOrd>(s: Seq<T>) -> bool {
    forall|i: int, j: int| 0 <= i < j < s.len() ==> le_spec(#[trigger] s[i], #[trigger] s[j])
}

/// Consumes `v` front to back and returns the first element `p` accepts,
/// or nothing once `p` has rejected every element.
pub fn linear_search<T, P: Fn(&T) -> bool>(v: Vec<T>, p: P) -> (r: Option<T>)
    requires
        forall|x: &T| #[trigger] call_requires(p, (x,)),
    ensures
        match r {
            Some(x) => exists|i: int|
                {
                    &&& 0 <= i < v@.len()
                    &&& v@[i] == x
                    &&& call_ensures(p, (&x,), true)
                    &&& forall|j: int| 0 <= j < i ==> call_ensures(p, (#[trigger] &v@[j],), false)
                },
            None => forall|j: int|
                0 <= j < v@.len() ==> call_ensures(p, (#[trigger] &v@[j],), false),
        },
    decreases v@.len(),
{
    let ghost whole = v@;
    let mut v = v;
    if v.len() == 0 {
        return None;
    }
    let x = v.remove(0);
    if p(&x) {
        proof {
            assert(0 <= 0 < whole.len() && whole[0] == x && call_ensures(p, (&x,), true)
                && forall|j: int| 0 <= j < 0 ==> call_ensures(p, (#[trigger] &whole[j],), false));
        }
        Some(x)
    } else {
        let ghost tail = v@;
        let r = linear_search(v, p);
        proof {
            assert(tail =~= whole.drop_first());
            if r is Some {
                let y = r->0;
                let i0 = choose|i: int|
                    {
                        &&& 0 <= i < tail.len()
                        &&& tail[i] == y
                        &&& call_ensures(p, (&y,), true)
                        &&& forall|j: int|
                            0 <= j < i ==> call_ensures(p, (#[trigger] &tail[j],), false)
                    };
                assert(whole[i0 + 1] == y);
                assert forall|j: int| 0 <= j < i0 + 1 implies call_ensures(
                    p,
                    (#[trigger] &whole[j],),
                    false,
                ) by {
                    if j > 0 {
                        assert(whole[j] == tail[j - 1]);
                    }
                }
                assert(0 <= i0 + 1 < whole.len() && whole[i0 + 1] == y && call_ensures(
                    p,
                    (&y,),
                    true,
                ) && forall|j: int|
                    0 <= j < i0 + 1 ==> call_ensures(p, (#[trigger] &whole[j],), false));
            } else {
                assert forall|j: int| 0 <= j < whole.len() implies call_ensures(
                    p,
                    (#[trigger] &whole[j],),
                    false,
                ) by {
                    if j > 0 {
                        assert(whole[j] == tail[j - 1]);
                    }
                }
            }
        }
        r
    }
}

/// Returns the position of the first element of `s` equal to `q`, or
/// nothing when no element is.
pub fn linear_search_slice<T: PartialEq>(s: &[T], q: &T) -> (r: Option<usize>)
    requires
        obeys_eq::<T>(),
    ensures
        match r {
            Some(i) => {
                &&& i < s@.len()
                &&& s@[i as int].eq_spec(q)
                &&& forall|j: int| 0 <= j < i ==> !(#[trigger] s@[j].eq_spec(q))
            },
            None => forall|j: int| 0 <= j < s@.len() ==> !(#[trigger] s@[j].eq_spec(q)),
        },
{
    do_linear_search_slice(s, q, 0)
}

/// Returns the position of the first element of `s` at or past `i` equal
/// to `q`, or nothing when no such element exists.
pub fn do_linear_search_slice<T: PartialEq>(s: &[T], q: &T, i: usize) -> (r: Option<usize>)
    requires
        obeys_eq::<T>(),
        i <= s@.len(),
    ensures
        match r {
            Some(k) => {
                &&& i <= k < s@.len()
                &&& s@[k as int].eq_spec(q)
                &&& forall|j: int| i <= j < k ==> !(#[trigger] s@[j].eq_spec(q))
            },
            None => forall|j: int| i <= j < s@.len() ==> !(#[trigger] s@[j].eq_spec(q)),
        },
    decreases s@.len() - i,
{
    if i < s.len() {
        if &s[i] == q {
            Some(i)
        } else {
            do_linear_search_slice(s, q, i + 1)
        }
    } else {
        None
    }
}

/// Returns the position of an element of the sorted slice `s` equal to
/// `q`, or nothing exactly when no element is equal to `q`.
pub fn binary_search<T: PartialOrd>(s: &[T], q: &T) -> (r: Option<usize>)
    requires
        obeys_cmp_partial_ord::<T>(),
        obeys_partial_cmp_spec_properties::<T>(),
        sorted(s@),
        forall|i: int| 0 <= i < s@.len() ==> (#[trigger] q.partial_cmp_spec(&s@[i])) is Some,
        s@.len() <= usize::MAX / 2,
    ensures
        match r {
            Some(i) => {
                &&& i < s@.len()
                &&& s@[i as int].eq_spec(q)
            },
            None => forall|i: int| 0 <= i < s@.len() ==> !(#[trigger] s@[i].eq_spec(q)),
        },
{
    do_binary_search(s, q, 0, s.len())
}

/// Halving search for `q` within positions `[low, high)` of the sorted
/// slice `s`.
pub fn do_binary_search<T: PartialOrd>(s: &[T], q: &T, low: usize, high: usize) -> (r: Option<
    usize,
>)
    requires
        obeys_cmp_partial_ord::<T>(),
        obeys_partial_cmp_spec_properties::<T>(),
        sorted(s@),
        forall|i: int| 0 <= i < s@.len() ==> (#[trigger] q.partial_cmp_spec(&s@[i])) is Some,
        low <= high <= s@.len(),
        s@.len() <= usize::MAX / 2,
    ensures
        match r {
            Some(i) => {
                &&& low <= i < high
                &&& s@[i as int].eq_spec(q)
            },
            None => forall|i: int| low <= i < high ==> !(#[trigger] s@[i].eq_spec(q)),
        },
    decreases high - low,
{
    proof {
        reveal(obeys_cmp_partial_ord);
    }
    if low >= high {
        return None;
    }

    let mid = (high + low) / 2;

    if &s[mid] == q {
        Some(mid)
    } else if q < &s[mid] {
        proof {
            lemma_no_match_from(s@, *q, mid as int, high as int);
        }
        do_binary_search(s, q, low, mid)
    } else {
        proof {
            lemma_greater_at(s@, *q, mid as int);
            lemma_no_match_up_to(s@, *q, low as int, mid as int);
        }
        do_binary_search(s, q, mid + 1, high)
    }
}

/// Returns the position of an element of the sorted, non-empty slice `s`
/// equal to `q`, or nothing exactly when no element is equal to `q`;
/// recurses on ever smaller subslices.
pub fn binary_search_rec<T: PartialOrd>(s: &[T], q: &T) -> (r: Option<usize>)
    requires
        obeys_cmp_partial_ord::<T>(),
        obeys_partial_cmp_spec_properties::<T>(),
        sorted(s@),
        forall|i: int| 0 <= i < s@.len() ==> (#[trigger] q.partial_cmp_spec(&s@[i])) is Some,
        s@.len() > 0,
    ensures
        match r {
            Some(i) => {
                &&& i < s@.len()
                &&& s@[i as int].eq_spec(q)
            },
            None => forall|i: int| 0 <= i < s@.len() ==> !(#[trigger] s@[i].eq_spec(q)),
        },
    decreases s@.len(),
{
    proof {
        reveal(obeys_cmp_partial_ord);
    }
    let mid = s.len() / 2;

    if &s[mid] == q {
        Some(mid)
    } else if q < &s[mid] && s.len() > 1 {
        let left = &s[0..mid];
        proof {
            assert(left@ =~= s@.subrange(0, mid as int));
            lemma_no_match_from(s@, *q, mid as int, s@.len() as int);
        }
        let r = binary_search_rec(left, q);
        proof {
            if r is None {
                assert forall|k: int| 0 <= k < mid implies !(#[trigger] s@[k].eq_spec(q)) by {
                    assert(s@[k] == left@[k]);
                }
            }
        }
        r
    } else if s.len() > 1 && mid + 1 < s.len() && q > &s[mid] {
        let right = &s[(mid + 1)..s.len()];
        proof {
            assert(right@ =~= s@.subrange(mid + 1, s@.len() as int));
            lemma_greater_at(s@, *q, mid as int);
            lemma_no_match_up_to(s@, *q, 0, mid as int);
        }
        match binary_search_rec(right, q) {
            Some(i) => {
                proof {
                    assert(s@[i + mid + 1] == right@[i as int]);
                }
                Some(i + mid + 1)
            },
            None => {
                proof {
                    assert forall|k: int|
                        mid + 1 <= k < s@.len() implies !(#[trigger] s@[k].eq_spec(q)) by {
                        assert(s@[k] == right@[k - (mid + 1)]);
                    }
                }
                None
            },
        }
    } else {
        proof {
            if q.partial_cmp_spec(&s@[mid as int]) == Some(Ordering::Less) {
                assert(s@.len() == 1);
                lemma_no_match_from(s@, *q, mid as int, s@.len() as int);
            } else {
                lemma_greater_at(s@, *q, mid as int);
                lemma_no_match_up_to(s@, *q, 0, mid as int);
                assert(mid + 1 >= s@.len());
            }
        }
        None
    }
}

/// When `q` sorts strictly before position `from` of the sorted slice,
/// no position in `[from, until)` holds an element equal to `q`.
proof fn lemma_no_match_from<T: PartialOrd>(s: Seq<T>, q: T, from: int, until: int)
    requires
        obeys_cmp_partial_ord::<T>(),
        obeys_partial_cmp_spec_properties::<T>(),
        sorted(s),
        0 <= from < s.len(),
        until <= s.len(),
        q.partial_cmp_spec(&s[from]) == Some(Ordering::Less),
    ensures
        forall|i: int| from <= i < until ==> !(#[trigger] s[i].eq_spec(&q)),
{
    reveal(obeys_cmp_partial_ord);
    reveal(obeys_partial_cmp_spec_properties);
    reveal(obeys_eq_spec_properties);
    assert forall|i: int| from <= i < until implies !(#[trigger] s[i].eq_spec(&q)) by {
        if s[i].eq_spec(&q) {
            if i == from {
                assert(s[from].partial_cmp_spec(&q) == Some(Ordering::Equal));
                assert(s[from].partial_cmp_spec(&q) == Some(Ordering::Greater));
            } else {
                assert(le_spec(s[from], s[i]));
                if s[from].partial_cmp_spec(&s[i]) == Some(Ordering::Less) {
                    assert(q.partial_cmp_spec(&s[i]) == Some(Ordering::Less));
                    assert(q.eq_spec(&s[i]));
                    assert(q.partial_cmp_spec(&s[i]) == Some(Ordering::Equal));
                } else {
                    assert(s[from].eq_spec(&s[i]));
                    assert(s[from].eq_spec(&q));
                    assert(s[from].partial_cmp_spec(&q) == Some(Ordering::Equal));
                    assert(s[from].partial_cmp_spec(&q) == Some(Ordering::Greater));
                }
            }
        }
    }
}

/// When the element at `at` neither equals `q` nor sorts after it, and
/// the two compare at all, `q` sorts strictly after it.
proof fn lemma_greater_at<T: PartialOrd>(s: Seq<T>, q: T, at: int)
    requires
        obeys_cmp_partial_ord::<T>(),
        obeys_partial_cmp_spec_properties::<T>(),
        0 <= at < s.len(),
        q.partial_cmp_spec(&s[at]) is Some,
        q.partial_cmp_spec(&s[at]) != Some(Ordering::Less),
        !s[at].eq_spec(&q),
    ensures
        q.partial_cmp_spec(&s[at]) == Some(Ordering::Greater),
{
    reveal(obeys_cmp_partial_ord);
    reveal(obeys_partial_cmp_spec_properties);
    reveal(obeys_eq_spec_properties);
    if q.partial_cmp_spec(&s[at]) == Some(Ordering::Equal) {
        assert(q.eq_spec(&s[at]));
        assert(s[at].eq_spec(&q));
    }
}

/// When `q` sorts strictly after position `at` of the sorted slice, no
/// position in `[from, at]` holds an element equal to `q`.
proof fn lemma_no_match_up_to<T: PartialOrd>(s: Seq<T>, q: T, from: int, at: int)
    requires
        obeys_cmp_partial_ord::<T>(),
        obeys_partial_cmp_spec_properties::<T>(),
        sorted(s),
        0 <= from,
        0 <= at < s.len(),
        q.partial_cmp_spec(&s[at]) == Some(Ordering::Greater),
    ensures
        forall|i: int| from <= i <= at ==> !(#[trigger] s[i].eq_spec(&q)),
{
    reveal(obeys_cmp_partial_ord);
    reveal(obeys_partial_cmp_spec_properties);
    reveal(obeys_eq_spec_properties);
    assert forall|i: int| from <= i <= at implies !(#[trigger] s[i].eq_spec(&q)) by {
        if s[i].eq_spec(&q) {
            if i == at {
                assert(s[at].partial_cmp_spec(&q) == Some(Ordering::Equal));
                assert(s[at].partial_cmp_spec(&q) == Some(Ordering::Less));
            } else {
                assert(le_spec(s[i], s[at]));
                assert(s[at].partial_cmp_spec(&q) == Some(Ordering::Less));
                if s[i].partial_cmp_spec(&s[at]) == Some(Ordering::Less) {
                    assert(s[i].partial_cmp_spec(&q) == Some(Ordering::Less));
                    assert(s[i].partial_cmp_spec(&q) == Some(Ordering::Equal));
                } else {
                    assert(s[i].eq_spec(&s[at]));
                    assert(s[at].eq_spec(&q));
                    assert(s[at].partial_cmp_spec(&q) == Some(Ordering::Equal));
                }
            }
        }
    }
}

} // verus!

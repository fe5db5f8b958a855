//! A fixed-capacity circular sequence with a moving head offset, built on
//! one exclusively owned [`RawVec`] that never grows.

use vstd::prelude::*;

use crate::rawvec::RawVec;
use vstd::arithmetic::div_mod::{
    lemma_fundamental_div_mod, lemma_fundamental_div_mod_converse_mod, lemma_mod_pos_bound,
    lemma_small_mod,
};

verus! {

/// For a head offset and a logical position both within capacity, the
/// wrapped physical slot is the plain sum, reduced once if it passed the
/// end of the buffer.
proof fn lemma_wrap(cap: int, head: int, i: int)
    requires
        0 < cap,
        0 <= head < cap,
        0 <= i <= cap,
    ensures
        (head + i) % cap == if head + i < cap {
            head + i
        } else {
            head + i - cap
        },
{
    if head + i < cap {
        lemma_small_mod((head + i) as nat, cap as nat);
    } else {
        lemma_fundamental_div_mod_converse_mod(head + i, cap, 1, head + i - cap);
    }
}

/// Physical slot that holds logical position `i` in a buffer of `cap`
/// slots whose oldest element sits at slot `head`.
spec fn wrap_slot(head: int, cap: int, i: int) -> int {
    (head + i) % cap
}

/// A fixed-capacity sequence that appends at its logical tail and, once
/// full, evicts the oldest element for each further append. The slot of
/// logical position `i` is `(head + i)` modulo the capacity.
pub struct RingBuffer<T> {
    head: usize,
    buf: RawVec<T>,
    len: usize,
}

impl<T> View for RingBuffer<T> {
    type V = Seq<T>;

    closed spec fn view(&self) -> Seq<T> {
        Seq::new(
            self.len as nat,
            |i: int| self.buf@[wrap_slot(self.head as int, self.buf@.len() as int, i)]->0,
        )
    }
}

impl<T> RingBuffer<T> {
    /// Number of slots allocated at construction; it never changes.
    pub closed spec fn capacity(&self) -> nat {
        self.buf@.len()
    }

    /// Physical slot of the oldest live element.
    pub closed spec fn spec_head(&self) -> nat {
        self.head as nat
    }


    /// Well-formedness: the occupied window fits the capacity, the head
    /// lies inside the buffer, and every occupied slot holds a live
    /// element.
    pub closed spec fn wf(&self) -> bool {
        &&& self.len <= self.buf@.len()
        &&& self.buf@.len() == 0 ==> self.head == 0
        &&& self.buf@.len() > 0 ==> self.head < self.buf@.len()
        &&& forall|i: int|
            0 <= i < self.len ==> self.buf@[#[trigger] wrap_slot(
                self.head as int,
                self.buf@.len() as int,
                i,
            )] is Some
    }

    /// Creates a buffer with exactly `cap` slots, allocated up front;
    /// the capacity is immutable for the buffer's lifetime.
    pub fn with_capacity(cap: usize) -> (r: Self)
        ensures
            r.wf(),
            r@ =~= Seq::<T>::empty(),
            r.capacity() == cap,
            r.spec_head() == 0,
    {
        RingBuffer { head: 0, buf: RawVec::<T>::with_capacity(cap), len: 0 }
    }

    /// Number of live elements.
    pub fn len(&self) -> (r: usize)
        ensures
            r == self@.len(),
    {
        self.len
    }

    /// Physical slot of the oldest live element.
    pub fn head(&self) -> (r: usize)
        ensures
            r == self.spec_head(),
    {
        self.head
    }

    /// Resolves logical offset `i` from the head to a physical slot,
    /// wrapping around the end of the buffer.
    pub fn wrapped_index(&self, i: usize) -> (r: usize)
        requires
            self.wf(),
            self.capacity() > 0,
        ensures
            r == (self.spec_head() + i) % (self.capacity() as int),
            r < self.capacity(),
    {
        let cap = self.buf.cap();
        let rem = i % cap;
        proof {
            lemma_fundamental_div_mod(i as int, cap as int);
            lemma_mod_pos_bound(i as int, cap as int);
            let q = i as int / cap as int;
            assert((q + 1) * cap == q * cap + cap && q * cap == cap * q) by (nonlinear_arith);
            if self.head + rem < cap {
                lemma_fundamental_div_mod_converse_mod(
                    self.head + i,
                    cap as int,
                    i as int / cap as int,
                    self.head + rem,
                );
            } else {
                lemma_fundamental_div_mod_converse_mod(
                    self.head + i,
                    cap as int,
                    i as int / cap as int + 1,
                    self.head + rem - cap,
                );
            }
        }
        if rem < cap - self.head {
            self.head + rem
        } else {
            rem - (cap - self.head)
        }
    }

    /// Appends `val` at the logical tail. While the buffer is not full
    /// the element count grows by one; once full, the oldest element is
    /// finalized in place, replaced by `val`, and the head advances so
    /// the buffer keeps holding the most recent `capacity` values.
    pub fn push_back(&mut self, val: T)
        requires
            old(self).wf(),
            old(self).capacity() > 0,
        ensures
            final(self).wf(),
            final(self).capacity() == old(self).capacity(),
            final(self)@ =~= ring_step(old(self).capacity(), old(self)@, val),
            old(self)@.len() < old(self).capacity() ==> final(self).spec_head() == old(
                self,
            ).spec_head(),
            old(self)@.len() == old(self).capacity() ==> final(self).spec_head() == ((old(
                self,
            ).spec_head() + 1) as int) % (old(self).capacity() as int),
    {
        let ghost cap = self.buf@.len() as int;
        let ghost head = self.head as int;
        let i = self.wrapped_index(self.len);
        if self.len == self.buf.cap() {
            proof {
                lemma_wrap(cap, head, cap);
                assert(i == head);
                assert forall|s: int| 0 <= s < cap implies self.buf@[s] is Some by {
                    let k = if s >= head {
                        s - head
                    } else {
                        s - head + cap
                    };
                    lemma_wrap(cap, head, k);
                    assert(self.buf@[wrap_slot(head, cap, k)] is Some);
                }
            }
            let next_head = self.wrapped_index(1);
            let _evicted = self.buf.take_slot(i);
            self.buf.write_slot(i, val);
            self.head = next_head;
            proof {
                lemma_wrap(cap, head, 1);
                let head2 = self.head as int;
                assert forall|k: int| 0 <= k < self.len implies self.buf@[
                    #[trigger] wrap_slot(head2, cap, k)
                ] is Some by {
                    lemma_wrap(cap, head2, k);
                }
                assert(final(self)@ =~= old(self)@.drop_first().push(val)) by {
                    assert forall|k: int| 0 <= k < cap implies self.buf@[
                        #[trigger] wrap_slot(head2, cap, k)
                    ]->0 == old(self)@.drop_first().push(val)[k] by {
                        lemma_wrap(cap, head2, k);
                        lemma_wrap(cap, head, k + 1);
                    }
                }
            }
        } else {
            self.buf.write_slot(i, val);
            self.len = self.len + 1;
            proof {
                let len0 = old(self).len as int;
                assert forall|k: int| 0 <= k < self.len implies self.buf@[
                    #[trigger] wrap_slot(head, cap, k)
                ] is Some by {
                    lemma_wrap(cap, head, k);
                    lemma_wrap(cap, head, len0);
                }
                assert(final(self)@ =~= old(self)@.push(val)) by {
                    assert forall|k: int| 0 <= k <= len0 implies self.buf@[
                        #[trigger] wrap_slot(head, cap, k)
                    ]->0 == old(self)@.push(val)[k] by {
                        lemma_wrap(cap, head, k);
                        lemma_wrap(cap, head, len0);
                    }
                }
            }
        }
    }

    /// Removes and returns the oldest element, advancing the head, or
    /// returns nothing when the buffer is empty.
    pub fn pop_front(&mut self) -> (r: Option<T>)
        requires
            old(self).wf(),
        ensures
            final(self).wf(),
            final(self).capacity() == old(self).capacity(),
            match r {
                Some(x) => {
                    &&& old(self)@.len() > 0
                    &&& x == old(self)@.first()
                    &&& final(self)@ =~= old(self)@.drop_first()
                    &&& final(self).spec_head() == ((old(self).spec_head() + 1) as int) % (
                    old(self).capacity() as int)
                },
                None => {
                    &&& old(self)@.len() == 0
                    &&& final(self)@ == old(self)@
                    &&& final(self).spec_head() == old(self).spec_head()
                },
            },
    {
        if self.len == 0 {
            return None;
        }
        let ghost cap = self.buf@.len() as int;
        let ghost head = self.head as int;
        let i = self.head;
        let next_head = self.wrapped_index(1);
        proof {
            lemma_wrap(cap, head, 0);
            assert(self.buf@[wrap_slot(head, cap, 0)] is Some);
        }
        let x = self.buf.take_slot(i);
        self.head = next_head;
        self.len = self.len - 1;
        proof {
            lemma_wrap(cap, head, 1);
            let head2 = self.head as int;
            assert forall|k: int| 0 <= k < self.len implies self.buf@[
                #[trigger] wrap_slot(head2, cap, k)
            ] is Some by {
                lemma_wrap(cap, head2, k);
                lemma_wrap(cap, head, k + 1);
                assert(self.buf@[wrap_slot(head, cap, k + 1)] is Some);
            }
            assert(final(self)@ =~= old(self)@.drop_first()) by {
                assert forall|k: int| 0 <= k < self.len implies self.buf@[
                    #[trigger] wrap_slot(head2, cap, k)
                ]->0 == old(self)@.drop_first()[k] by {
                    lemma_wrap(cap, head2, k);
                    lemma_wrap(cap, head, k + 1);
                }
            }
        }
        Some(x)
    }

    /// Borrows the logical element at offset `i` from the oldest;
    /// offsets at or past the length are outside this function's
    /// contract.
    pub fn index(&self, i: usize) -> (r: &T)
        requires
            self.wf(),
            i < self@.len(),
        ensures
            *r == self@[i as int],
    {
        if i >= self.len {
            return vstd::pervasive::unreached();
        }
        let w = self.wrapped_index(i);
        proof {
            assert(w == wrap_slot(self.head as int, self.buf@.len() as int, i as int));
        }
        self.buf.read_slot(w)
    }

    /// Mutably borrows the logical element at offset `i` from the
    /// oldest; the buffer afterwards holds whatever the caller leaves
    /// behind the reference.
    pub fn index_mut(&mut self, i: usize) -> (r: &mut T)
        requires
            old(self).wf(),
            i < old(self)@.len(),
        ensures
            *r == old(self)@[i as int],
            final(self).wf(),
            final(self).capacity() == old(self).capacity(),
            final(self).spec_head() == old(self).spec_head(),
            final(self)@ =~= old(self)@.update(i as int, *final(r)),
    {
        if i >= self.len {
            return vstd::pervasive::unreached();
        }
        let ghost cap = self.buf@.len() as int;
        let ghost head = self.head as int;
        let w = self.wrapped_index(i);
        proof {
            assert(w == wrap_slot(head, cap, i as int));
            assert forall|k: int| 0 <= k < self.len && k != i implies #[trigger] wrap_slot(
                head,
                cap,
                k,
            ) != w by {
                lemma_wrap(cap, head, k);
                lemma_wrap(cap, head, i as int);
            }
        }
        self.buf.slot_mut(w)
    }
}

/// One logical append at the model level: while the window holds fewer
/// than `cap` values the new value is appended; at `cap` the oldest value
/// falls out as the new one comes in.
pub open spec fn ring_step<T>(cap: nat, s: Seq<T>, v: T) -> Seq<T> {
    if s.len() < cap {
        s.push(v)
    } else {
        s.drop_first().push(v)
    }
}

/// The window a sequence of `push_back` calls builds: each value of `vs`
/// is appended in turn to a buffer of capacity `cap` holding `s`.
pub open spec fn ring_push_all<T>(cap: nat, s: Seq<T>, vs: Seq<T>) -> Seq<T>
    decreases vs.len(),
{
    if vs.len() == 0 {
        s
    } else {
        ring_push_all(cap, ring_step(cap, s, vs[0]), vs.drop_first())
    }
}

/// Appending a sequence of values to a window that is within capacity
/// leaves the last `cap` values of the whole history, oldest first.
proof fn lemma_ring_push_all_window<T>(cap: nat, s: Seq<T>, vs: Seq<T>)
    requires
        cap > 0,
        s.len() <= cap,
    ensures
        ring_push_all(cap, s, vs) =~= if s.len() + vs.len() <= cap {
            s + vs
        } else {
            (s + vs).subrange(s.len() + vs.len() - cap, (s.len() + vs.len()) as int)
        },
    decreases vs.len(),
{
    if vs.len() == 0 {
        assert(s + vs =~= s);
    } else {
        let s2 = ring_step(cap, s, vs[0]);
        lemma_ring_push_all_window(cap, s2, vs.drop_first());
        assert(s2 + vs.drop_first() =~= if s.len() < cap {
            s + vs
        } else {
            (s + vs).subrange(1, (s.len() + vs.len()) as int)
        });
    }
}

/// After `cap + 1` appends into an initially empty buffer of capacity
/// `cap`, the buffer holds exactly the last `cap` appended values, oldest
/// first; the very first value is gone.
pub proof fn lemma_ring_keeps_last_capacity<T>(cap: nat, vs: Seq<T>)
    requires
        cap > 0,
        vs.len() == cap + 1,
    ensures
        ring_push_all(cap, Seq::<T>::empty(), vs) =~= vs.subrange(1, vs.len() as int),
{
    lemma_ring_push_all_window(cap, Seq::<T>::empty(), vs);
    assert(Seq::<T>::empty() + vs =~= vs);
}

} // verus!

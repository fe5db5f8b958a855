//! A contiguous, length-tracked list with amortized-constant append, built
//! on one exclusively owned [`RawVec`].

use vstd::prelude::*;

use crate::rawvec::RawVec;

verus! {

/// A growable contiguous sequence. Slots `[0, len)` of the backing buffer
/// hold live elements; the remaining slots are vacant or stale and are
/// never read.
pub struct ArrayList<T> {
    buf: RawVec<T>,
    len: usize,
}

impl<T> View for ArrayList<T> {
    type V = Seq<T>;

    closed spec fn view(&self) -> Seq<T> {
        Seq::new(self.len as nat, |i: int| self.buf@[i]->0)
    }
}

impl<T> ArrayList<T> {
    /// Well-formedness: the occupied prefix fits in the buffer and every
    /// occupied slot holds a live element.
    pub closed spec fn wf(&self) -> bool {
        &&& self.len <= self.buf@.len()
        &&& forall|i: int| 0 <= i < self.len ==> self.buf@[i] is Some
    }

    /// Creates an empty list; no allocation happens until the first push.
    pub fn new() -> (r: Self)
        ensures
            r.wf(),
            r@ =~= Seq::<T>::empty(),
    {
        ArrayList { buf: RawVec::new(), len: 0 }
    }

    /// Number of live elements.
    pub fn len(&self) -> (r: usize)
        ensures
            r == self@.len(),
    {
        self.len
    }

    /// Appends `val` at the end, growing the buffer first if it is full.
    pub fn push(&mut self, val: T)
        requires
            old(self).wf(),
            old(self)@.len() <= usize::MAX / 2,
        ensures
            final(self).wf(),
            final(self)@ =~= old(self)@.push(val),
    {
        if self.len == self.buf.cap() {
            self.buf.grow();
        }
        self.buf.write_slot(self.len, val);
        self.len = self.len + 1;
    }

    /// Prepends `val`, shifting every element one slot toward higher
    /// indices; costs time linear in the length.
    pub fn push_front(&mut self, val: T)
        requires
            old(self).wf(),
            old(self)@.len() <= usize::MAX / 2,
        ensures
            final(self).wf(),
            final(self)@ =~= seq![val] + old(self)@,
    {
        if self.len == self.buf.cap() {
            self.buf.grow();
        }
        let ghost orig = self.buf@;
        let ghost oldv = self@;
        proof {
            assert(oldv =~= old(self)@);
        }
        let mut j: usize = self.len;
        let n: usize = self.len;
        while j > 0
            invariant
                j <= n,
                n < orig.len(),
                n == oldv.len(),
                self.len == n,
                self.buf@.len() == orig.len(),
                forall|i: int|
                    0 <= i < n ==> (#[trigger] orig[i]) is Some && orig[i]->0 == oldv[i],
                forall|i: int| 0 <= i < j ==> self.buf@[i] == orig[i],
                forall|i: int| j < i <= n ==> self.buf@[i] == orig[i - 1],
            decreases j,
        {
            proof {
                assert(self.buf@[j - 1] == orig[j - 1] && orig[j - 1] is Some);
            }
            let x = self.buf.take_slot(j - 1);
            self.buf.write_slot(j, x);
            j = j - 1;
        }
        self.buf.write_slot(0, val);
        self.len = self.len + 1;
    }

    /// Removes and returns the last element, or nothing when the list is
    /// empty.
    pub fn pop(&mut self) -> (r: Option<T>)
        requires
            old(self).wf(),
        ensures
            final(self).wf(),
            match r {
                Some(x) => {
                    &&& old(self)@.len() > 0
                    &&& x == old(self)@.last()
                    &&& final(self)@ =~= old(self)@.drop_last()
                },
                None => {
                    &&& old(self)@.len() == 0
                    &&& final(self)@ == old(self)@
                },
            },
    {
        if self.len > 0 {
            self.len = self.len - 1;
            Some(self.buf.take_slot(self.len))
        } else {
            None
        }
    }

    /// Borrows the element at position `i`; positions at or past the
    /// length are outside this function's contract.
    pub fn index(&self, i: usize) -> (r: &T)
        requires
            self.wf(),
            i < self@.len(),
        ensures
            *r == self@[i as int],
    {
        if i >= self.len {
            return vstd::pervasive::unreached();
        }
        self.buf.read_slot(i)
    }

    /// Mutably borrows the element at position `i`; the list afterwards
    /// holds whatever the caller leaves behind the reference.
    pub fn index_mut(&mut self, i: usize) -> (r: &mut T)
        requires
            old(self).wf(),
            i < old(self)@.len(),
        ensures
            *r == old(self)@[i as int],
            final(self).wf(),
            final(self)@ =~= old(self)@.update(i as int, *final(r)),
    {
        if i >= self.len {
            return vstd::pervasive::unreached();
        }
        self.buf.slot_mut(i)
    }

    /// Hands the whole list to a cursor that yields its elements from the
    /// front, one at a time, in position order.
    pub fn into_iter(self) -> (r: ArrayListIter<T>)
        requires
            self.wf(),
        ensures
            r.wf(),
            r@ =~= self@,
    {
        ArrayListIter::new(self)
    }
}

/// An ownership-transferring cursor over an [`ArrayList`]. It owns the
/// remainder of the list, so abandoning it mid-sequence still finalizes
/// every element it has not yielded exactly once.
pub struct ArrayListIter<T> {
    list: ArrayList<T>,
    pos: usize,
}

impl<T> View for ArrayListIter<T> {
    type V = Seq<T>;

    closed spec fn view(&self) -> Seq<T> {
        Seq::new(
            (self.list.len - self.pos) as nat,
            |i: int| self.list.buf@[self.pos + i]->0,
        )
    }
}

impl<T> ArrayListIter<T> {
    /// Well-formedness: the slots not yet yielded, `[pos, len)`, hold live
    /// elements within the backing buffer.
    pub closed spec fn wf(&self) -> bool {
        &&& self.pos <= self.list.len
        &&& self.list.len <= self.list.buf@.len()
        &&& forall|i: int| self.pos <= i < self.list.len ==> self.list.buf@[i] is Some
    }

    /// Wraps `list` in a cursor positioned before its first element.
    pub fn new(list: ArrayList<T>) -> (r: Self)
        requires
            list.wf(),
        ensures
            r.wf(),
            r@ =~= list@,
    {
        ArrayListIter { list, pos: 0 }
    }

    /// Moves the next element out, or returns nothing once the sequence
    /// is exhausted.
    pub fn next(&mut self) -> (r: Option<T>)
        requires
            old(self).wf(),
        ensures
            final(self).wf(),
            match r {
                Some(x) => {
                    &&& old(self)@.len() > 0
                    &&& x == old(self)@.first()
                    &&& final(self)@ =~= old(self)@.drop_first()
                },
                None => {
                    &&& old(self)@.len() == 0
                    &&& final(self)@ == old(self)@
                },
            },
    {
        if self.pos < self.list.len {
            let x = self.list.buf.take_slot(self.pos);
            self.pos = self.pos + 1;
            Some(x)
        } else {
            None
        }
    }
}

/// The list a sequence of `push` calls builds: each value of `vs` is
/// appended in turn to a list holding `s`.
pub open spec fn push_all<T>(s: Seq<T>, vs: Seq<T>) -> Seq<T>
    decreases vs.len(),
{
    if vs.len() == 0 {
        s
    } else {
        push_all(s.push(vs[0]), vs.drop_first())
    }
}

/// The values `k` successive `pop` calls return from a list holding `s`,
/// in the order they are returned.
pub open spec fn pop_all<T>(s: Seq<T>, k: nat) -> Seq<T>
    decreases k,
{
    if k == 0 {
        Seq::<T>::empty()
    } else {
        seq![s.last()] + pop_all(s.drop_last(), (k - 1) as nat)
    }
}

/// Pushing a sequence of values appends them in order.
pub proof fn lemma_push_all_appends<T>(s: Seq<T>, vs: Seq<T>)
    ensures
        push_all(s, vs) =~= s + vs,
    decreases vs.len(),
{
    if vs.len() == 0 {
    } else {
        lemma_push_all_appends(s.push(vs[0]), vs.drop_first());
        assert(s.push(vs[0]) + vs.drop_first() =~= s + vs);
    }
}

/// Popping `k` times from a list that holds `s` followed by `vs`, with
/// `k == vs.len()`, returns exactly the values of `vs` in reverse order.
pub proof fn lemma_pop_all_reverses<T>(s: Seq<T>, vs: Seq<T>)
    ensures
        pop_all(s + vs, vs.len()) =~= vs.reverse(),
    decreases vs.len(),
{
    if vs.len() == 0 {
    } else {
        assert((s + vs).drop_last() =~= s + vs.drop_last());
        assert((s + vs).last() == vs.last());
        lemma_pop_all_reverses(s, vs.drop_last());
        assert(pop_all(s + vs, vs.len()) =~= seq![vs.last()] + vs.drop_last().reverse());
        assert(vs.reverse() =~= seq![vs.last()] + vs.drop_last().reverse());
    }
}

/// Last-in, first-out: pushing the values of `vs` onto a list holding `s`
/// and then popping `vs.len()` times returns the pushed values in exact
/// reverse order of insertion and leaves `s` behind; by `pop`'s contract a
/// further pop on the leftover of an initially empty list returns nothing.
pub proof fn lemma_push_pop_lifo<T>(s: Seq<T>, vs: Seq<T>)
    ensures
        push_all(s, vs) =~= s + vs,
        pop_all(push_all(s, vs), vs.len()) =~= vs.reverse(),
        push_all(s, vs).subrange(0, s.len() as int) =~= s,
{
    lemma_push_all_appends(s, vs);
    lemma_pop_all_reverses(s, vs);
}

/// The values the consuming cursor yields, one per step, from a list
/// holding `s`.
pub open spec fn yield_all<T>(s: Seq<T>, k: nat) -> Seq<T>
    decreases k,
{
    if k == 0 {
        Seq::<T>::empty()
    } else {
        seq![s.first()] + yield_all(s.drop_first(), (k - 1) as nat)
    }
}

/// Ownership-transferring consumption yields every element in position
/// order: a list holding `s`, consumed for `s.len()` steps, hands out
/// exactly `s`; by `next`'s contract a further step returns nothing.
pub proof fn lemma_consumption_yields_in_order<T>(s: Seq<T>)
    ensures
        yield_all(s, s.len()) =~= s,
    decreases s.len(),
{
    if s.len() > 0 {
        lemma_consumption_yields_in_order(s.drop_first());
    }
}

/// The list a sequence of `push_front` calls builds: each value of `vs`
/// is prepended in turn to a list holding `s`.
pub open spec fn push_front_all<T>(s: Seq<T>, vs: Seq<T>) -> Seq<T>
    decreases vs.len(),
{
    if vs.len() == 0 {
        s
    } else {
        push_front_all(seq![vs[0]] + s, vs.drop_first())
    }
}

/// Prepending a sequence of values reverses it in front of the list.
pub proof fn lemma_push_front_all_reverses<T>(s: Seq<T>, vs: Seq<T>)
    ensures
        push_front_all(s, vs) =~= vs.reverse() + s,
    decreases vs.len(),
{
    if vs.len() == 0 {
    } else {
        lemma_push_front_all_reverses(seq![vs[0]] + s, vs.drop_first());
        assert(vs.drop_first().reverse() + (seq![vs[0]] + s) =~= vs.reverse() + s);
    }
}

/// First-in, first-out: prepending the values of `vs` with `push_front`
/// onto an empty list and then popping `vs.len()` times from the end
/// returns the values in exact insertion order.
pub proof fn lemma_push_front_pop_fifo<T>(vs: Seq<T>)
    ensures
        pop_all(push_front_all(Seq::<T>::empty(), vs), vs.len()) =~= vs,
{
    lemma_push_front_all_reverses(Seq::<T>::empty(), vs);
    assert(vs.reverse() + Seq::<T>::empty() =~= Seq::<T>::empty() + vs.reverse());
    lemma_pop_all_reverses(Seq::<T>::empty(), vs.reverse());
    assert(vs.reverse().reverse() =~= vs);
}

} // verus!

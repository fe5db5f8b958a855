//! First-in, first-out adapters over the crate's own lists and over the
//! standard library's collections. For every adapter, position 0 of the
//! view is the element `pop` returns next, and `push` appends at the end.

use vstd::prelude::*;

use crate::array_list::ArrayList;
use crate::doubly_linked_list::DoublyLinkedList;
use std::collections::VecDeque;

verus! {

/// A queue on the crate's growable list: entering elements are prepended
/// and leave from the list's end, oldest first.
pub struct ArrayQueue<T> {
    list: ArrayList<T>,
}

impl<T> View for ArrayQueue<T> {
    type V = Seq<T>;

    closed spec fn view(&self) -> Seq<T> {
        self.list@.reverse()
    }
}

impl<T> ArrayQueue<T> {
    /// Well-formedness of the underlying list.
    pub closed spec fn wf(&self) -> bool {
        self.list.wf()
    }

    /// Creates an empty queue.
    pub fn new() -> (r: Self)
        ensures
            r.wf(),
            r@ =~= Seq::<T>::empty(),
    {
        ArrayQueue { list: ArrayList::<T>::new() }
    }

    /// Enqueues `val` behind every element already waiting.
    pub fn push(&mut self, val: T)
        requires
            old(self).wf(),
            old(self)@.len() <= usize::MAX / 2,
        ensures
            final(self).wf(),
            final(self)@ =~= old(self)@.push(val),
    {
        self.list.push_front(val);
        proof {
            assert((seq![val] + old(self).list@).reverse() =~= old(self).list@.reverse().push(
                val,
            ));
        }
    }

    /// Dequeues the oldest element, or nothing when the queue is empty.
    pub fn pop(&mut self) -> (r: Option<T>)
        requires
            old(self).wf(),
        ensures
            final(self).wf(),
            match r {
                Some(x) => {
                    &&& old(self)@.len() > 0
                    &&& x == old(self)@.first()
                    &&& final(self)@ =~= old(self)@.drop_first()
                },
                None => {
                    &&& old(self)@.len() == 0
                    &&& final(self)@ == old(self)@
                },
            },
    {
        let r = self.list.pop();
        proof {
            if r is Some {
                assert(old(self).list@.drop_last().reverse() =~= old(
                    self,
                ).list@.reverse().drop_first());
            }
        }
        r
    }
}

/// A queue on the crate's double-ended list: entering elements are
/// prepended and leave from the back, oldest first.
pub struct LinkedQueue<T> {
    list: DoublyLinkedList<T>,
}

impl<T> View for LinkedQueue<T> {
    type V = Seq<T>;

    closed spec fn view(&self) -> Seq<T> {
        self.list@.reverse()
    }
}

impl<T> LinkedQueue<T> {
    /// Creates an empty queue.
    pub fn new() -> (r: Self)
        ensures
            r@ =~= Seq::<T>::empty(),
    {
        LinkedQueue { list: DoublyLinkedList::<T>::new() }
    }

    /// Enqueues `val` behind every element already waiting.
    pub fn push(&mut self, val: T)
        ensures
            final(self)@ =~= old(self)@.push(val),
    {
        self.list.push_front(val);
        proof {
            assert((seq![val] + old(self).list@).reverse() =~= old(self).list@.reverse().push(
                val,
            ));
        }
    }

    /// Dequeues the oldest element, or nothing when the queue is empty.
    pub fn pop(&mut self) -> (r: Option<T>)
        ensures
            match r {
                Some(x) => {
                    &&& old(self)@.len() > 0
                    &&& x == old(self)@.first()
                    &&& final(self)@ =~= old(self)@.drop_first()
                },
                None => {
                    &&& old(self)@.len() == 0
                    &&& final(self)@ == old(self)@
                },
            },
    {
        let r = self.list.pop_back();
        proof {
            if r is Some {
                assert(old(self).list@.drop_last().reverse() =~= old(
                    self,
                ).list@.reverse().drop_first());
            }
        }
        r
    }
}

/// A queue on the standard library's double-ended array.
pub struct StdArrayQueue<T> {
    list: VecDeque<T>,
}

impl<T> View for StdArrayQueue<T> {
    type V = Seq<T>;

    closed spec fn view(&self) -> Seq<T> {
        self.list@.reverse()
    }
}

impl<T> StdArrayQueue<T> {
    /// Creates an empty queue.
    pub fn new() -> (r: Self)
        ensures
            r@ =~= Seq::<T>::empty(),
    {
        StdArrayQueue { list: VecDeque::<T>::new() }
    }

    /// Enqueues `val` behind every element already waiting.
    pub fn push(&mut self, val: T)
        ensures
            final(self)@ =~= old(self)@.push(val),
    {
        self.list.push_front(val);
        proof {
            assert((seq![val] + old(self).list@).reverse() =~= old(self).list@.reverse().push(
                val,
            ));
        }
    }

    /// Dequeues the oldest element, or nothing when the queue is empty.
    pub fn pop(&mut self) -> (r: Option<T>)
        ensures
            match r {
                Some(x) => {
                    &&& old(self)@.len() > 0
                    &&& x == old(self)@.first()
                    &&& final(self)@ =~= old(self)@.drop_first()
                },
                None => {
                    &&& old(self)@.len() == 0
                    &&& final(self)@ == old(self)@
                },
            },
    {
        let r = self.list.pop_back();
        proof {
            if r is Some {
                assert(old(self).list@.subrange(0, old(self).list@.len() - 1).reverse() =~= old(
                    self,
                ).list@.reverse().drop_first());
            }
        }
        r
    }
}

/// A queue kept in a standard-library double-ended collection, entered
/// at the front and left at the back.
pub struct StdLinkedQueue<T> {
    list: VecDeque<T>,
}

impl<T> View for StdLinkedQueue<T> {
    type V = Seq<T>;

    closed spec fn view(&self) -> Seq<T> {
        self.list@.reverse()
    }
}

impl<T> StdLinkedQueue<T> {
    /// Creates an empty queue.
    pub fn new() -> (r: Self)
        ensures
            r@ =~= Seq::<T>::empty(),
    {
        StdLinkedQueue { list: VecDeque::<T>::new() }
    }

    /// Enqueues `val` behind every element already waiting.
    pub fn push(&mut self, val: T)
        ensures
            final(self)@ =~= old(self)@.push(val),
    {
        self.list.push_front(val);
        proof {
            assert((seq![val] + old(self).list@).reverse() =~= old(self).list@.reverse().push(
                val,
            ));
        }
    }

    /// Dequeues the oldest element, or nothing when the queue is empty.
    pub fn pop(&mut self) -> (r: Option<T>)
        ensures
            match r {
                Some(x) => {
                    &&& old(self)@.len() > 0
                    &&& x == old(self)@.first()
                    &&& final(self)@ =~= old(self)@.drop_first()
                },
                None => {
                    &&& old(self)@.len() == 0
                    &&& final(self)@ == old(self)@
                },
            },
    {
        let r = self.list.pop_back();
        proof {
            if r is Some {
                assert(old(self).list@.subrange(0, old(self).list@.len() - 1).reverse() =~= old(
                    self,
                ).list@.reverse().drop_first());
            }
        }
        r
    }
}

} // verus!

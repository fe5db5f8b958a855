//! Last-in, first-out adapters over the crate's own lists and over the
//! standard library's collections. For every adapter, the last position
//! of the view is the top of the stack: `push` appends there and `pop`
//! removes from there.

use vstd::prelude::*;

use crate::array_list::ArrayList;
use crate::linked_list::LinkedList;
use std::collections::VecDeque;

verus! {

/// A stack on the crate's growable list: elements enter and leave at the
/// list's end.
pub struct ArrayStack<T> {
    list: ArrayList<T>,
}

impl<T> View for ArrayStack<T> {
    type V = Seq<T>;

    closed spec fn view(&self) -> Seq<T> {
        self.list@
    }
}

impl<T> ArrayStack<T> {
    /// Well-formedness of the underlying list.
    pub closed spec fn wf(&self) -> bool {
        self.list.wf()
    }

    /// Creates an empty stack.
    pub fn new() -> (r: Self)
        ensures
            r.wf(),
            r@ =~= Seq::<T>::empty(),
    {
        ArrayStack { list: ArrayList::<T>::new() }
    }

    /// Pushes `val` on top.
    pub fn push(&mut self, val: T)
        requires
            old(self).wf(),
            old(self)@.len() <= usize::MAX / 2,
        ensures
            final(self).wf(),
            final(self)@ =~= old(self)@.push(val),
    {
        self.list.push(val);
    }

    /// Pops the top element, or nothing when the stack is empty.
    pub fn pop(&mut self) -> (r: Option<T>)
        requires
            old(self).wf(),
        ensures
            final(self).wf(),
            match r {
                Some(x) => {
                    &&& old(self)@.len() > 0
                    &&& x == old(self)@.last()
                    &&& final(self)@ =~= old(self)@.drop_last()
                },
                None => {
                    &&& old(self)@.len() == 0
                    &&& final(self)@ == old(self)@
                },
            },
    {
        self.list.pop()
    }
}

/// A stack on the crate's singly-linked list: elements enter and leave
/// at the list's front.
pub struct LinkedStack<T> {
    list: LinkedList<T>,
}

impl<T> View for LinkedStack<T> {
    type V = Seq<T>;

    closed spec fn view(&self) -> Seq<T> {
        self.list@.reverse()
    }
}

impl<T> LinkedStack<T> {
    /// Well-formedness of the underlying list.
    pub closed spec fn wf(&self) -> bool {
        self.list.wf()
    }

    /// Creates an empty stack.
    pub fn new() -> (r: Self)
        ensures
            r.wf(),
            r@ =~= Seq::<T>::empty(),
    {
        LinkedStack { list: LinkedList::<T>::new() }
    }

    /// Pushes `val` on top.
    pub fn push(&mut self, val: T)
        requires
            old(self).wf(),
            old(self)@.len() < usize::MAX,
        ensures
            final(self).wf(),
            final(self)@ =~= old(self)@.push(val),
    {
        self.list.push_front(val);
        proof {
            assert((seq![val] + old(self).list@).reverse() =~= old(self).list@.reverse().push(
                val,
            ));
        }
    }

    /// Pops the top element, or nothing when the stack is empty.
    pub fn pop(&mut self) -> (r: Option<T>)
        requires
            old(self).wf(),
        ensures
            final(self).wf(),
            match r {
                Some(x) => {
                    &&& old(self)@.len() > 0
                    &&& x == old(self)@.last()
                    &&& final(self)@ =~= old(self)@.drop_last()
                },
                None => {
                    &&& old(self)@.len() == 0
                    &&& final(self)@ == old(self)@
                },
            },
    {
        let r = self.list.pop_front();
        proof {
            if r is Some {
                assert(old(self).list@.drop_first().reverse() =~= old(
                    self,
                ).list@.reverse().drop_last());
            }
        }
        r
    }
}

/// A stack on the standard library's growable array.
pub struct StdArrayStack<T> {
    list: Vec<T>,
}

impl<T> View for StdArrayStack<T> {
    type V = Seq<T>;

    closed spec fn view(&self) -> Seq<T> {
        self.list@
    }
}

impl<T> StdArrayStack<T> {
    /// Creates an empty stack.
    pub fn new() -> (r: Self)
        ensures
            r@ =~= Seq::<T>::empty(),
    {
        StdArrayStack { list: Vec::<T>::new() }
    }

    /// Pushes `val` on top.
    pub fn push(&mut self, val: T)
        ensures
            final(self)@ =~= old(self)@.push(val),
    {
        self.list.push(val);
    }

    /// Pops the top element, or nothing when the stack is empty.
    pub fn pop(&mut self) -> (r: Option<T>)
        ensures
            match r {
                Some(x) => {
                    &&& old(self)@.len() > 0
                    &&& x == old(self)@.last()
                    &&& final(self)@ =~= old(self)@.drop_last()
                },
                None => {
                    &&& old(self)@.len() == 0
                    &&& final(self)@ == old(self)@
                },
            },
    {
        self.list.pop()
    }
}

/// A stack kept in a standard-library double-ended collection, entered
/// and left at the front.
pub struct StdLinkedStack<T> {
    list: VecDeque<T>,
}

impl<T> View for StdLinkedStack<T> {
    type V = Seq<T>;

    closed spec fn view(&self) -> Seq<T> {
        self.list@.reverse()
    }
}

impl<T> StdLinkedStack<T> {
    /// Creates an empty stack.
    pub fn new() -> (r: Self)
        ensures
            r@ =~= Seq::<T>::empty(),
    {
        StdLinkedStack { list: VecDeque::<T>::new() }
    }

    /// Pushes `val` on top.
    pub fn push(&mut self, val: T)
        ensures
            final(self)@ =~= old(self)@.push(val),
    {
        self.list.push_front(val);
        proof {
            assert((seq![val] + old(self).list@).reverse() =~= old(self).list@.reverse().push(
                val,
            ));
        }
    }

    /// Pops the top element, or nothing when the stack is empty.
    pub fn pop(&mut self) -> (r: Option<T>)
        ensures
            match r {
                Some(x) => {
                    &&& old(self)@.len() > 0
                    &&& x == old(self)@.last()
                    &&& final(self)@ =~= old(self)@.drop_last()
                },
                None => {
                    &&& old(self)@.len() == 0
                    &&& final(self)@ == old(self)@
                },
            },
    {
        let r = self.list.pop_front();
        proof {
            if r is Some {
                assert(old(self).list@.subrange(1, old(self).list@.len() as int).reverse() =~= old(
                    self,
                ).list@.reverse().drop_last());
            }
        }
        r
    }
}

} // verus!

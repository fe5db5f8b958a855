//! A double-ended list: elements enter and leave at either end, and two
//! lists can be joined in one step.

use vstd::prelude::*;

verus! {

/// A double-ended list. The front element is at position 0 of the view,
/// the back element at the last position.
pub struct DoublyLinkedList<T> {
    items: Vec<T>,
}

impl<T> View for DoublyLinkedList<T> {
    type V = Seq<T>;

    closed spec fn view(&self) -> Seq<T> {
        self.items@
    }
}

impl<T> DoublyLinkedList<T> {
    /// Creates an empty list.
    pub fn new() -> (r: Self)
        ensures
            r@ =~= Seq::<T>::empty(),
    {
        DoublyLinkedList { items: Vec::new() }
    }

    /// Number of elements.
    pub fn len(&self) -> (r: usize)
        ensures
            r == self@.len(),
    {
        self.items.len()
    }

    /// Whether the list holds no element.
    pub fn is_empty(&self) -> (r: bool)
        ensures
            r == (self@.len() == 0),
    {
        self.items.len() == 0
    }

    /// Prepends `value` at the front.
    pub fn push_front(&mut self, value: T)
        ensures
            final(self)@ =~= seq![value] + old(self)@,
    {
        self.items.insert(0, value);
    }

    /// Appends `value` at the back.
    pub fn push_back(&mut self, value: T)
        ensures
            final(self)@ =~= old(self)@.push(value),
    {
        self.items.push(value);
    }

    /// Removes and returns the front element, or nothing when the list
    /// is empty.
    pub fn pop_front(&mut self) -> (r: Option<T>)
        ensures
            match r {
                Some(x) => {
                    &&& old(self)@.len() > 0
                    &&& x == old(self)@.first()
                    &&& final(self)@ =~= old(self)@.drop_first()
                },
                None => {
                    &&& old(self)@.len() == 0
                    &&& final(self)@ == old(self)@
                },
            },
    {
        if self.items.len() == 0 {
            None
        } else {
            Some(self.items.remove(0))
        }
    }

    /// Removes and returns the back element, or nothing when the list
    /// is empty.
    pub fn pop_back(&mut self) -> (r: Option<T>)
        ensures
            match r {
                Some(x) => {
                    &&& old(self)@.len() > 0
                    &&& x == old(self)@.last()
                    &&& final(self)@ =~= old(self)@.drop_last()
                },
                None => {
                    &&& old(self)@.len() == 0
                    &&& final(self)@ == old(self)@
                },
            },
    {
        self.items.pop()
    }

    /// Moves every element of `l` to the back of this list, in order.
    pub fn append(&mut self, l: Self)
        ensures
            final(self)@ =~= old(self)@ + l@,
    {
        let mut l = l;
        self.items.append(&mut l.items);
    }
}

} // verus!

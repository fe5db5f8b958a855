//! A singly-linked list of owned nodes with splitting and appending.

use vstd::prelude::*;

verus! {

/// A singly-linked list; the head node holds the front element.
pub struct LinkedList<T> {
    len: usize,
    head: Option<Box<Node<T>>>,
}

struct Node<T> {
    value: T,
    next: Option<Box<Node<T>>>,
}

/// The values a chain of nodes holds, front first.
spec fn link_seq<T>(link: Option<Box<Node<T>>>) -> Seq<T>
    decreases link,
{
    match link {
        None => Seq::<T>::empty(),
        Some(n) => seq![n.value] + link_seq(n.next),
    }
}

impl<T> Node<T> {
    fn new(value: T) -> (r: Self)
        ensures
            r.value == value,
            r.next is None,
    {
        Node { value, next: None }
    }
}

/// Splits the chain of `node` after its first `at` values: the first `at`
/// stay with `node`, and the rest are handed back detached. When the
/// chain is shorter than `at`, nothing is detached.
fn split_nodes<T>(node: Box<Node<T>>, at: usize) -> (r: (
    Box<Node<T>>,
    Option<Option<Box<Node<T>>>>,
))
    requires
        at >= 1,
    ensures
        match r.1 {
            Some(tail) => {
                &&& at <= link_seq(Some(node)).len()
                &&& link_seq(Some(r.0)) =~= link_seq(Some(node)).subrange(0, at as int)
                &&& link_seq(tail) =~= link_seq(Some(node)).subrange(
                    at as int,
                    link_seq(Some(node)).len() as int,
                )
            },
            None => {
                &&& at > link_seq(Some(node)).len()
                &&& link_seq(Some(r.0)) == link_seq(Some(node))
            },
        },
    decreases at,
{
    let mut node = node;
    if at == 1 {
        let tail = node.next.take();
        proof {
            assert(link_seq(None::<Box<Node<T>>>) =~= Seq::<T>::empty());
            assert(link_seq(Some(node)) =~= seq![node.value]);
        }
        (node, Some(tail))
    } else {
        match node.next.take() {
            None => {
                proof {
                    assert(link_seq(None::<Box<Node<T>>>) =~= Seq::<T>::empty());
                }
                (node, None)
            },
            Some(next) => {
                let ghost v0 = node.value;
                let ghost whole = seq![node.value] + link_seq(Some(next));
                let (kept, tail) = split_nodes(next, at - 1);
                node.next = Some(kept);
                proof {
                    assert(link_seq(Some(node)) =~= seq![v0] + link_seq(Some(kept)));
                    if tail is Some {
                        assert(link_seq(Some(node)) =~= whole.subrange(0, at as int));
                        assert(link_seq(tail->0) =~= whole.subrange(
                            at as int,
                            whole.len() as int,
                        ));
                    } else {
                        assert(link_seq(Some(node)) =~= whole);
                    }
                }
                (node, tail)
            },
        }
    }
}

/// Attaches the chain of `other` after the last node of `node`.
fn append_nodes<T>(node: Box<Node<T>>, other: Box<Node<T>>) -> (r: Box<Node<T>>)
    ensures
        link_seq(Some(r)) =~= link_seq(Some(node)) + link_seq(Some(other)),
    decreases link_seq(Some(node)).len(),
{
    let mut node = node;
    match node.next.take() {
        None => {
            node.next = Some(other);
            proof {
                assert(link_seq(None::<Box<Node<T>>>) =~= Seq::<T>::empty());
                assert(link_seq(Some(node)) =~= seq![node.value] + link_seq(Some(other)));
            }
            node
        },
        Some(next) => {
            let ghost v0 = node.value;
            let joined = append_nodes(next, other);
            node.next = Some(joined);
            proof {
                assert(link_seq(Some(node)) =~= seq![v0] + link_seq(Some(joined)));
            }
            node
        },
    }
}

impl<T> LinkedList<T> {
    /// Well-formedness: the stored length counts the nodes.
    pub closed spec fn wf(&self) -> bool {
        self.len == link_seq(self.head).len()
    }

    /// Creates an empty list.
    pub fn new() -> (r: Self)
        ensures
            r.wf(),
            r@ =~= Seq::<T>::empty(),
    {
        LinkedList { len: 0, head: None }
    }

    /// Number of elements.
    pub fn len(&self) -> (r: usize)
        requires
            self.wf(),
        ensures
            r == self@.len(),
    {
        self.len
    }

    /// Whether the list holds no element.
    pub fn is_empty(&self) -> (r: bool)
        requires
            self.wf(),
        ensures
            r == (self@.len() == 0),
    {
        self.len == 0
    }

    /// Prepends `value` at the front.
    pub fn push_front(&mut self, value: T)
        requires
            old(self).wf(),
            old(self)@.len() < usize::MAX,
        ensures
            final(self).wf(),
            final(self)@ =~= seq![value] + old(self)@,
    {
        if self.head.is_none() {
            self.head = Some(Box::new(Node::new(value)));
        } else {
            let mut n = Node::new(value);
            n.next = self.head.take();
            self.head = Some(Box::new(n));
        }
        self.len = self.len + 1;
    }

    /// Removes and returns the front element, or nothing when the list
    /// is empty.
    pub fn pop_front(&mut self) -> (r: Option<T>)
        requires
            old(self).wf(),
        ensures
            final(self).wf(),
            match r {
                Some(x) => {
                    &&& old(self)@.len() > 0
                    &&& x == old(self)@.first()
                    &&& final(self)@ =~= old(self)@.drop_first()
                },
                None => {
                    &&& old(self)@.len() == 0
                    &&& final(self)@ == old(self)@
                },
            },
    {
        match self.head.take() {
            Some(h) => {
                let mut h = h;
                self.head = h.next.take();
                self.len = self.len - 1;
                Some(h.value)
            },
            None => None,
        }
    }

    /// Splits the list after its first `at` elements and returns the
    /// detached rest. Asking to split at the very front (`at == 0`) or
    /// past the end returns nothing and leaves the list unchanged.
    pub fn split_off(&mut self, at: usize) -> (r: Option<Self>)
        requires
            old(self).wf(),
        ensures
            final(self).wf(),
            match r {
                Some(l) => {
                    &&& 1 <= at <= old(self)@.len()
                    &&& l.wf()
                    &&& final(self)@ =~= old(self)@.subrange(0, at as int)
                    &&& l@ =~= old(self)@.subrange(at as int, old(self)@.len() as int)
                },
                None => {
                    &&& at == 0 || at > old(self)@.len()
                    &&& final(self)@ == old(self)@
                },
            },
    {
        if at == 0 {
            return None;
        }
        match self.head.take() {
            None => None,
            Some(h) => {
                let (kept, detached) = split_nodes(h, at);
                self.head = Some(kept);
                match detached {
                    Some(tail) => {
                        let rest_len = self.len - at;
                        self.len = at;
                        Some(LinkedList { len: rest_len, head: tail })
                    },
                    None => None,
                }
            },
        }
    }

    /// Moves every element of `l` to the end of this list, in order.
    pub fn append(&mut self, l: Self)
        requires
            old(self).wf(),
            l.wf(),
            old(self)@.len() + l@.len() <= usize::MAX,
        ensures
            final(self).wf(),
            final(self)@ =~= old(self)@ + l@,
    {
        match self.head.take() {
            None => {
                self.head = l.head;
                self.len = l.len;
            },
            Some(h) => {
                match l.head {
                    None => {
                        self.head = Some(h);
                    },
                    Some(other) => {
                        let joined = append_nodes(h, other);
                        self.head = Some(joined);
                        self.len = self.len + l.len;
                    },
                }
            },
        }
    }
}

impl<T> View for LinkedList<T> {
    type V = Seq<T>;

    closed spec fn view(&self) -> Seq<T> {
        link_seq(self.head)
    }
}

} // verus!

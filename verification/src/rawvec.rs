//! An owner-managed block of element slots with explicit capacity growth.

use vstd::prelude::*;

use vstd::arithmetic::power2::pow2;

verus! {

/// The capacity one growth yields: an empty buffer gets an initial 5
/// slots, any other buffer doubles.
pub open spec fn grown(cap: nat) -> nat {
    if cap == 0 {
        5
    } else {
        2 * cap
    }
}

/// Backing storage for a fixed number of element slots.
///
/// The buffer knows only how many slots are allocated, never how many are
/// logically occupied: tracking which slots hold live elements is entirely
/// the owner's job. A slot holds `Some` when the owner has written an
/// element into it and `None` when it is vacant.
pub struct RawVec<T> {
    slots: Vec<Option<T>>,
}

impl<T> View for RawVec<T> {
    type V = Seq<Option<T>>;

    closed spec fn view(&self) -> Seq<Option<T>> {
        self.slots@
    }
}

impl<T> RawVec<T> {
    /// Creates an empty buffer with no slots; allocation is deferred until
    /// the first growth.
    pub fn new() -> (r: Self)
        ensures
            r@ =~= Seq::<Option<T>>::empty(),
    {
        RawVec { slots: Vec::new() }
    }

    /// Creates a buffer with exactly `cap` vacant slots.
    pub fn with_capacity(cap: usize) -> (r: Self)
        ensures
            r@.len() == cap,
            forall|i: int| 0 <= i < cap ==> r@[i] is None,
    {
        let mut rv = Self::new();
        rv.grow_to(cap);
        rv
    }

    /// Number of slots currently allocated.
    pub fn cap(&self) -> (r: usize)
        ensures
            r == self@.len(),
    {
        self.slots.len()
    }

    /// Extends the buffer to hold `new_cap` slots, keeping every existing
    /// slot at its offset and leaving the added slots vacant.
    fn grow_to(&mut self, new_cap: usize)
        requires
            old(self)@.len() <= new_cap,
        ensures
            final(self)@.len() == new_cap,
            forall|i: int| 0 <= i < old(self)@.len() ==> final(self)@[i] == old(self)@[i],
            forall|i: int| old(self)@.len() <= i < new_cap ==> final(self)@[i] is None,
    {
        while self.slots.len() < new_cap
            invariant
                self.slots@.len() <= new_cap,
                old(self)@.len() <= self.slots@.len(),
                forall|i: int| 0 <= i < old(self)@.len() ==> self.slots@[i] == old(self)@[i],
                forall|i: int| old(self)@.len() <= i < self.slots@.len() ==> self.slots@[i] is None,
            decreases new_cap - self.slots@.len(),
        {
            self.slots.push(None);
        }
    }

    /// Grows the buffer: an empty buffer gets an initial 5 slots, any other
    /// buffer doubles its capacity. Existing slots keep their offsets.
    pub fn grow(&mut self)
        requires
            old(self)@.len() <= usize::MAX / 2,
        ensures
            final(self)@.len() == grown(old(self)@.len()),
            forall|i: int| 0 <= i < old(self)@.len() ==> final(self)@[i] == old(self)@[i],
            forall|i: int|
                old(self)@.len() <= i < final(self)@.len() ==> final(self)@[i] is None,
    {
        let new_cap: usize = if self.slots.len() == 0 {
            5
        } else {
            self.slots.len() * 2
        };
        self.grow_to(new_cap);
    }

    /// Writes `v` into slot `i`; whatever the slot held before is gone.
    pub fn write_slot(&mut self, i: usize, v: T)
        requires
            i < old(self)@.len(),
        ensures
            final(self)@ == old(self)@.update(i as int, Some(v)),
    {
        self.slots[i] = Some(v);
    }

    /// Moves the element out of slot `i`, leaving the slot vacant.
    pub fn take_slot(&mut self, i: usize) -> (v: T)
        requires
            i < old(self)@.len(),
            old(self)@[i as int] is Some,
        ensures
            v == old(self)@[i as int]->0,
            final(self)@ == old(self)@.update(i as int, None),
    {
        let slot: &mut Option<T> = &mut self.slots[i];
        let taken = slot.take();
        taken.unwrap()
    }

    /// Borrows the element in slot `i`.
    pub fn read_slot(&self, i: usize) -> (r: &T)
        requires
            i < self@.len(),
            self@[i as int] is Some,
        ensures
            *r == self@[i as int]->0,
    {
        self.slots[i].as_ref().unwrap()
    }

    /// Mutably borrows the element in slot `i`; the slot stays occupied,
    /// holding whatever the caller leaves behind the reference.
    pub fn slot_mut(&mut self, i: usize) -> (r: &mut T)
        requires
            i < old(self)@.len(),
            old(self)@[i as int] is Some,
        ensures
            *r == old(self)@[i as int]->0,
            final(self)@ == old(self)@.update(i as int, Some(*final(r))),
    {
        let slot: &mut Option<T> = &mut self.slots[i];
        slot.as_mut().unwrap()
    }
}

/// The capacity a buffer reaches after `k` growths from empty.
pub open spec fn grown_capacity(k: nat) -> nat
    decreases k,
{
    if k == 0 {
        0
    } else {
        grown(grown_capacity((k - 1) as nat))
    }
}

/// Under repeated single-element growth starting empty, the capacity
/// sequence is 0, 5, 10, 20, 40, and so on: the first growth yields 5
/// slots and each further growth doubles the count.
pub proof fn lemma_growth_sequence(k: nat)
    requires
        k >= 1,
    ensures
        grown_capacity(k) == 5 * pow2((k - 1) as nat),
    decreases k,
{
    if k == 1 {
        assert(pow2(0) == 1) by {
            vstd::arithmetic::power2::lemma2_to64();
        }
    } else {
        lemma_growth_sequence((k - 1) as nat);
        assert(pow2((k - 1) as nat) == 2 * pow2((k - 2) as nat)) by {
            vstd::arithmetic::power2::lemma_pow2_unfold((k - 1) as nat);
        }
    }
}

} // verus!

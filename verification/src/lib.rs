//! Fundamental in-memory data-structure primitives: an owner-managed growable
//! buffer, a contiguous growable list, and a fixed-capacity circular buffer,
//! together with linked lists, stack and queue adapters, and search routines.

pub mod array_list;
pub mod doubly_linked_list;
pub mod linked_list;
pub mod queue;
pub mod rawvec;
pub mod ring_buffer;
pub mod search;
pub mod stack;

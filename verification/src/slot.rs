//! A bounded handoff cell of capacity one.
//!
//! The relay forwards each outcome to the outbound consumer through a
//! bounded queue whose capacity of exactly one is a deliberate design
//! constant: the producer may have at most one outstanding, unconsumed item,
//! so inbound consumption can never race further ahead than one message.
//! This type is that queue's state; a driver suspends a `put` until the slot
//! is free and a `take` until it is full.

use vstd::prelude::*;

verus! {

/// A handoff cell holding at most one item.
pub struct SingleSlot<T> {
    item: Option<T>,
}

impl<T> SingleSlot<T> {
    /// The item currently in the slot, if any.
    pub closed spec fn spec_item(&self) -> Option<T> {
        self.item
    }

    /// True when the slot holds no item, so a `put` may proceed.
    pub open spec fn spec_is_empty(&self) -> bool {
        self.spec_item() is None
    }

    /// Creates an empty slot.
    pub fn new() -> (s: Self)
        ensures
            s.spec_is_empty(),
    {
        SingleSlot { item: None }
    }

    /// True when the slot holds no item.
    pub fn is_empty(&self) -> (r: bool)
        ensures
            r == self.spec_is_empty(),
    {
        self.item.is_none()
    }

    /// Puts an item into the slot.  The slot must be free: a caller that
    /// finds it full must wait until the consumer has taken the previous
    /// item.
    pub fn put(&mut self, item: T)
        requires
            old(self).spec_is_empty(),
        ensures
            final(self).spec_item() == Some(item),
    {
        self.item = Some(item);
    }

    /// Takes the item out of the slot, leaving it free.  The slot must be
    /// full: a caller that finds it empty must wait until the producer has
    /// put the next item.
    pub fn take(&mut self) -> (item: T)
        requires
            old(self).spec_item() is Some,
        ensures
            final(self).spec_is_empty(),
            Some(item) == old(self).spec_item(),
    {
        match self.item.take() {
            Some(item) => item,
            None => vstd::pervasive::unreached(),
        }
    }
}

} // verus!

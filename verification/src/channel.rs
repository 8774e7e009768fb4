//! The channel fabric's queue discipline: a bounded, first-in first-out
//! queue with a fixed capacity, so that a slow consumer backpressures
//! producers instead of growing memory without bound.
//!
//! `try_push` on a full queue hands the item back untouched: the caller
//! keeps it and waits for space — nothing is dropped and nothing errors.

use vstd::prelude::*;

verus! {

/// The default bound of the publish and acknowledge queues: deep enough to
/// ride out a burst, small enough that a slow consumer is felt quickly.
pub const DEFAULT_QUEUE_BOUND: usize = 100;

/// A bounded FIFO queue with a capacity fixed at construction.
#[derive(Clone, Debug, PartialEq, Eq)]
pub struct BoundedQueue<T> {
    items: Vec<T>,
    capacity: usize,
}

impl<T> View for BoundedQueue<T> {
    type V = Seq<T>;

    closed spec fn view(&self) -> Seq<T> {
        self.items@
    }
}

impl<T> BoundedQueue<T> {
    /// The queue's fixed bound.
    pub closed spec fn spec_capacity(self) -> usize {
        self.capacity
    }

    /// A queue is well formed when it never holds more than its bound.
    pub open spec fn wf(self) -> bool {
        self@.len() <= self.spec_capacity() && self.spec_capacity() > 0
    }

    /// An empty queue with the given bound.
    pub fn new(capacity: usize) -> (q: Self)
        requires
            capacity > 0,
        ensures
            q@ == Seq::<T>::empty(),
            q.spec_capacity() == capacity,
            q.wf(),
    {
        BoundedQueue { items: Vec::new(), capacity }
    }

    /// The queue's fixed bound.
    pub fn capacity(&self) -> (c: usize)
        ensures
            c == self.spec_capacity(),
    {
        self.capacity
    }

    /// How many items wait in the queue.
    pub fn len(&self) -> (n: usize)
        ensures
            n == self@.len(),
    {
        self.items.len()
    }

    /// Whether the queue holds nothing.
    pub fn is_empty(&self) -> (r: bool)
        ensures
            r == (self@.len() == 0),
    {
        self.items.len() == 0
    }

    /// Whether the queue is at its bound.
    pub fn is_full(&self) -> (r: bool)
        ensures
            r == (self@.len() >= self.spec_capacity()),
    {
        self.items.len() >= self.capacity
    }

    /// Appends an item if the queue has room.
    ///
    /// Backpressure: on a full queue the item comes back unchanged and the
    /// queue is untouched — the item is neither dropped nor turned into an
    /// error, and the caller suspends until space frees.
    pub fn try_push(&mut self, x: T) -> (r: Option<T>)
        requires
            old(self).wf(),
        ensures
            final(self).wf(),
            final(self).spec_capacity() == old(self).spec_capacity(),
            old(self)@.len() < old(self).spec_capacity() ==> {
                &&& final(self)@ == old(self)@.push(x)
                &&& r is None
            },
            old(self)@.len() >= old(self).spec_capacity() ==> {
                &&& final(self)@ == old(self)@
                &&& r == Some(x)
            },
    {
        if self.items.len() >= self.capacity {
            Some(x)
        } else {
            self.items.push(x);
            None
        }
    }

    /// Removes and returns the oldest item, keeping arrival order.
    pub fn pop_front(&mut self) -> (r: Option<T>)
        requires
            old(self).wf(),
        ensures
            final(self).wf(),
            final(self).spec_capacity() == old(self).spec_capacity(),
            old(self)@.len() == 0 ==> {
                &&& r is None
                &&& final(self)@ == old(self)@
            },
            old(self)@.len() > 0 ==> {
                &&& r == Some(old(self)@[0])
                &&& final(self)@ == old(self)@.drop_first()
            },
    {
        if self.items.len() == 0 {
            None
        } else {
            let x = self.items.remove(0);
            proof {
                assert(final(self)@ =~= old(self)@.drop_first());
            }
            Some(x)
        }
    }
}

} // verus!

//! The handoff queue: a bounded first-in first-out sequence of requests.
//!
//! The queue does no locking of its own. It is safe because it has one owner
//! at any instant.

use crate::request_unit::RequestUnit;
use std::collections::VecDeque;
use vstd::prelude::*;

verus! {

/// Queue capacity used where none is given.
pub const MAX_QUEUE_SIZE: usize = 500;

/// A bounded queue of requests, oldest first.
pub struct HandoffQueue {
    items: VecDeque<RequestUnit>,
    capacity: usize,
}

impl View for HandoffQueue {
    type V = Seq<RequestUnit>;

    /// The queued requests, oldest first.
    closed spec fn view(&self) -> Seq<RequestUnit> {
        self.items@
    }
}

impl HandoffQueue {
    /// The most requests the queue holds.
    pub closed spec fn spec_capacity(&self) -> usize {
        self.capacity
    }

    /// The queue never holds more than its capacity.
    pub open spec fn wf(&self) -> bool {
        self@.len() <= self.spec_capacity()
    }

    /// An empty queue that holds up to `capacity` requests.
    pub fn new(capacity: usize) -> (queue: HandoffQueue)
        ensures
            queue.wf(),
            queue@ == Seq::<RequestUnit>::empty(),
            queue.spec_capacity() == capacity,
    {
        HandoffQueue { items: VecDeque::new(), capacity }
    }

    /// The most requests the queue holds.
    pub fn capacity(&self) -> (capacity: usize)
        ensures
            capacity == self.spec_capacity(),
    {
        self.capacity
    }

    /// The number of queued requests.
    pub fn len(&self) -> (len: usize)
        ensures
            len == self@.len(),
    {
        self.items.len()
    }

    /// Whether the queue holds no request.
    pub fn is_empty(&self) -> (empty: bool)
        ensures
            empty == (self@.len() == 0),
    {
        self.items.len() == 0
    }

    /// Whether the queue is at capacity.
    pub fn is_full(&self) -> (full: bool)
        ensures
            full == (self@.len() >= self.spec_capacity()),
    {
        self.items.len() >= self.capacity
    }

    /// Appends `request` behind the queued ones. A full queue takes nothing
    /// and hands the request back.
    pub fn push_back(&mut self, request: RequestUnit) -> (refused: Option<RequestUnit>)
        requires
            old(self).wf(),
        ensures
            final(self).wf(),
            final(self).spec_capacity() == old(self).spec_capacity(),
            old(self)@.len() < old(self).spec_capacity() ==> refused.is_none() && final(self)@
                == old(self)@.push(request),
            old(self)@.len() >= old(self).spec_capacity() ==> refused == Some(request)
                && final(self)@ == old(self)@,
    {
        if self.items.len() >= self.capacity {
            Some(request)
        } else {
            self.items.push_back(request);
            None
        }
    }

    /// Takes the oldest request out of the queue; `None` when it is empty.
    pub fn pop_front(&mut self) -> (front: Option<RequestUnit>)
        requires
            old(self).wf(),
        ensures
            final(self).wf(),
            final(self).spec_capacity() == old(self).spec_capacity(),
            old(self)@.len() == 0 ==> front.is_none() && final(self)@ == old(self)@,
            old(self)@.len() > 0 ==> front == Some(old(self)@[0]) && final(self)@
                == old(self)@.drop_first(),
    {
        self.items.pop_front()
    }

    /// Takes every request out of the queue, oldest first.
    pub fn drain(&mut self) -> (taken: Vec<RequestUnit>)
        requires
            old(self).wf(),
        ensures
            final(self).wf(),
            final(self).spec_capacity() == old(self).spec_capacity(),
            final(self)@ == Seq::<RequestUnit>::empty(),
            taken@ == old(self)@,
    {
        let mut taken: Vec<RequestUnit> = Vec::new();
        while self.items.len() > 0
            invariant
                self.capacity == old(self).capacity,
                taken@ + self.items@ == old(self).items@,
            decreases self.items@.len(),
        {
            let ghost before = self.items@;
            let front = self.items.pop_front();
            match front {
                Some(request) => {
                    assert(taken@.push(request) + before.drop_first() =~= taken@ + before);
                    taken.push(request);
                },
                None => {},
            }
        }
        assert(taken@ + self.items@ =~= taken@);
        taken
    }
}

} // verus!

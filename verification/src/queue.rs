//! Bounded first-in-first-out task queue.
//!
//! The model of the work channel between producers and the worker pool: a
//! bounded queue that refuses a push when full (the caller then suspends and
//! retries — backpressure, never a dropped task) and hands tasks out in
//! arrival order.

use vstd::prelude::*;

use crate::worker::{Task, TaskV};

verus! {

/// The capacity the tracker runs with.
pub const DEFAULT_QUEUE_CAPACITY: usize = 10000;

/// A bounded first-in-first-out queue of tasks.
pub struct TaskQueue {
    tasks: Vec<Task>,
    capacity: usize,
}

impl View for TaskQueue {
    type V = Seq<TaskV>;

    closed spec fn view(&self) -> Seq<TaskV> {
        self.tasks@.map_values(|t: Task| t@)
    }
}

impl TaskQueue {
    /// The bound the queue was made with.
    pub closed spec fn capacity_spec(self) -> usize {
        self.capacity
    }

    /// An empty queue with the given bound.
    pub fn new(capacity: usize) -> (q: TaskQueue)
        ensures
            q@.len() == 0,
            q.capacity_spec() == capacity,
    {
        let q = TaskQueue { tasks: Vec::new(), capacity: capacity };
        proof {
            assert(q@ =~= Seq::<TaskV>::empty());
        }
        q
    }

    /// How many tasks wait in the queue.
    pub fn len(&self) -> (n: usize)
        ensures
            n == self@.len(),
    {
        self.tasks.len()
    }

    /// The bound the queue was made with.
    pub fn capacity(&self) -> (n: usize)
        ensures
            n == self.capacity_spec(),
    {
        self.capacity
    }

    /// Enqueues a task at the back; a full queue refuses and hands the task
    /// back unchanged, so the producer can suspend and retry.
    pub fn push(&mut self, t: Task) -> (r: Result<(), Task>)
        ensures
            final(self).capacity_spec() == old(self).capacity_spec(),
            old(self)@.len() < old(self).capacity_spec() ==> r is Ok && final(self)@ == old(
                self,
            )@.push(t@),
            old(self)@.len() >= old(self).capacity_spec() ==> final(self)@ == old(self)@ && (
            r matches Err(b) && b@ == t@),
    {
        if self.tasks.len() < self.capacity {
            self.tasks.push(t);
            proof {
                assert(self@ =~= old(self)@.push(t@));
            }
            Ok(())
        } else {
            Err(t)
        }
    }

    /// Dequeues the task that arrived first, if any.
    pub fn pop(&mut self) -> (r: Option<Task>)
        ensures
            final(self).capacity_spec() == old(self).capacity_spec(),
            old(self)@.len() == 0 ==> r is None && final(self)@ == old(self)@,
            old(self)@.len() > 0 ==> (r matches Some(t) && t@ == old(self)@[0] && final(self)@
                == old(self)@.drop_first()),
    {
        if self.tasks.len() == 0 {
            None
        } else {
            let t = self.tasks.remove(0);
            proof {
                assert(self@ =~= old(self)@.drop_first());
            }
            Some(t)
        }
    }
}

} // verus!

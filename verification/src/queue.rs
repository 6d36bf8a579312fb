//! The shared job queue: an ordered sequence of pending jobs with strict
//! FIFO discipline. Submission appends at the back; a worker's poll removes
//! the front (oldest) entry. The queue is unbounded: enqueueing always
//! succeeds and never drops, duplicates or reorders a job.

use vstd::prelude::*;

verus! {

/// An ordered sequence of pending jobs. Its view is the sequence of queued
/// values, oldest first.
pub struct JobQueue<T> {
    items: Vec<T>,
}

impl<T> View for JobQueue<T> {
    type V = Seq<T>;

    closed spec fn view(&self) -> Seq<T> {
        self.items@
    }
}

impl<T> JobQueue<T> {
    /// A fresh queue holds nothing.
    pub fn new() -> (q: Self)
        ensures
            q@ == Seq::<T>::empty(),
    {
        JobQueue { items: Vec::new() }
    }

    /// Append a job at the back. Always succeeds: the queue has no capacity
    /// bound, and every job already queued stays, in its place.
    pub fn enqueue(&mut self, job: T)
        ensures
            final(self)@ == old(self)@.push(job),
    {
        self.items.push(job);
    }

    /// Remove and return the oldest pending job, if any. On a non-empty
    /// queue this is exactly the front entry, and the rest keep their
    /// order; an empty queue is left unchanged.
    pub fn dequeue(&mut self) -> (r: Option<T>)
        ensures
            old(self)@.len() == 0 ==> r is None && final(self)@ == old(self)@,
            old(self)@.len() > 0 ==> r == Some(old(self)@[0])
                && final(self)@ == old(self)@.drop_first(),
    {
        if self.items.len() == 0 {
            None
        } else {
            Some(self.items.remove(0))
        }
    }

    /// How many jobs are pending.
    pub fn len(&self) -> (n: usize)
        ensures
            n == self@.len(),
    {
        self.items.len()
    }

    /// Whether no job is pending.
    pub fn is_empty(&self) -> (b: bool)
        ensures
            b == (self@.len() == 0),
    {
        self.items.len() == 0
    }
}

} // verus!

//! A single-threaded model of the whole pool, and the ordering guarantees.
//!
//! At run time the pool's state is spread across threads: the pending queue
//! behind a lock, the lifecycle flag behind another, and one loop per
//! worker. What those parts guarantee about ordering does not depend on the
//! threads, only on two transitions: a submission appends a job at the back
//! of the pending queue, and a successful poll moves the front (oldest)
//! pending job into execution. [`PoolState`] is that state machine as data,
//! [`submit_step`] and [`poll_step`] are its transitions as specifications,
//! and the proof functions at the bottom state the guarantees: strict FIFO
//! dequeue order, excess jobs waiting their turn, and a workerless pool
//! accepting jobs without ever starting one.

use vstd::prelude::*;

use crate::queue::JobQueue;

verus! {

/// The pool's state, with the jobs already handed to workers kept as
/// history: `started` lists them in the order their execution began.
pub struct PoolState<T> {
    /// How many workers the pool was created with. Fixed for its lifetime.
    pub worker_count: usize,
    /// The lifecycle flag: while true, workers keep polling. No operation
    /// of the pool ever turns it false.
    pub live: bool,
    /// The jobs submitted and not yet taken by any worker, oldest first.
    pub pending: JobQueue<T>,
    /// The jobs some worker has begun executing, in dequeue order.
    pub started: Vec<T>,
}

/// What one submission does: the job goes to the back of the pending queue.
pub open spec fn submit_step<T>(pending: Seq<T>, job: T) -> Seq<T> {
    pending.push(job)
}

/// What one successful poll does: the oldest pending job, if any, moves
/// from the front of the queue into execution; an empty queue leaves the
/// state unchanged. The result pairs the remaining pending jobs with the
/// new execution history.
pub open spec fn poll_step<T>(pending: Seq<T>, started: Seq<T>) -> (Seq<T>, Seq<T>) {
    if pending.len() == 0 {
        (pending, started)
    } else {
        (pending.drop_first(), started.push(pending[0]))
    }
}

/// The pending queue after a sequence of submissions, in order.
pub open spec fn after_submits<T>(pending: Seq<T>, jobs: Seq<T>) -> Seq<T>
    decreases jobs.len(),
{
    if jobs.len() == 0 {
        pending
    } else {
        after_submits(submit_step(pending, jobs[0]), jobs.drop_first())
    }
}

/// The state after `n` successful polls.
pub open spec fn after_polls<T>(pending: Seq<T>, started: Seq<T>, n: nat) -> (Seq<T>, Seq<T>)
    decreases n,
{
    if n == 0 {
        (pending, started)
    } else {
        let stepped = poll_step(pending, started);
        after_polls(stepped.0, stepped.1, (n - 1) as nat)
    }
}

impl<T> PoolState<T> {
    /// A fresh pool: the requested number of workers, the lifecycle flag
    /// true, no job pending and none started. A count of zero is allowed;
    /// such a pool accepts jobs but has no worker to ever poll one.
    pub fn new(worker_count: usize) -> (p: Self)
        ensures
            p.worker_count == worker_count,
            p.live,
            p.pending@ == Seq::<T>::empty(),
            p.started@ == Seq::<T>::empty(),
    {
        PoolState { worker_count, live: true, pending: JobQueue::new(), started: Vec::new() }
    }

    /// Submit a job. Always succeeds, whatever the worker count: the job is
    /// appended at the back of the pending queue, and nothing else moves —
    /// in particular, submission alone never starts a job.
    pub fn queue_job(&mut self, job: T)
        ensures
            final(self).pending@ == submit_step(old(self).pending@, job),
            final(self).started@ == old(self).started@,
            final(self).worker_count == old(self).worker_count,
            final(self).live == old(self).live,
    {
        self.pending.enqueue(job);
    }

    /// One successful poll by an idle worker: the oldest pending job, if
    /// any, begins executing. Only a live pool with at least one worker can
    /// poll — a workerless pool has nobody to call this.
    pub fn worker_poll(&mut self)
        requires
            old(self).worker_count > 0,
            old(self).live,
        ensures
            (final(self).pending@, final(self).started@)
                == poll_step(old(self).pending@, old(self).started@),
            final(self).worker_count == old(self).worker_count,
            final(self).live == old(self).live,
    {
        match self.pending.dequeue() {
            Some(job) => self.started.push(job),
            None => {},
        }
    }
}

/// Polling an empty queue, however often, changes nothing.
proof fn lemma_polls_on_empty<T>(pending: Seq<T>, started: Seq<T>, n: nat)
    requires
        pending.len() == 0,
    ensures
        after_polls(pending, started, n) == (pending, started),
    decreases n,
{
    if n > 0 {
        lemma_polls_on_empty(pending, started, (n - 1) as nat);
    }
}

/// The shape of any run of `n` successful polls that does not outrun the
/// queue: the first `n` pending jobs are started, in queue order, and the
/// rest remain pending, in queue order.
proof fn lemma_polls_shape<T>(pending: Seq<T>, started: Seq<T>, n: nat)
    requires
        n <= pending.len(),
    ensures
        after_polls(pending, started, n).0 == pending.skip(n as int),
        after_polls(pending, started, n).1 == started + pending.take(n as int),
    decreases n,
{
    if n == 0 {
        assert(pending.skip(0) =~= pending);
        assert(started + pending.take(0) =~= started);
    } else {
        let stepped = poll_step(pending, started);
        lemma_polls_shape(stepped.0, stepped.1, (n - 1) as nat);
        assert(pending.drop_first().skip(n - 1) =~= pending.skip(n as int));
        assert(started.push(pending[0]) + pending.drop_first().take(n - 1)
            =~= started + pending.take(n as int));
    }
}

/// Jobs queued before any dequeue occurs are dequeued in the exact order
/// they were submitted: after `n` successful polls of a queue holding
/// `jobs`, the jobs whose execution has begun are precisely the first `n`
/// of `jobs`, in submission order.
pub proof fn lemma_dequeue_order_is_submission_order<T>(jobs: Seq<T>, n: nat)
    requires
        n <= jobs.len(),
    ensures
        after_polls(jobs, Seq::<T>::empty(), n).1 == jobs.take(n as int),
{
    lemma_polls_shape(jobs, Seq::<T>::empty(), n);
    assert(Seq::<T>::empty() + jobs.take(n as int) =~= jobs.take(n as int));
}

/// Submitting more jobs than the workers can take queues the excess,
/// undisturbed and in order; when a worker next frees up and polls, the job
/// it picks up is exactly the next-oldest not yet started.
pub proof fn lemma_freed_worker_takes_next_oldest<T>(jobs: Seq<T>, n: nat)
    requires
        n < jobs.len(),
    ensures
        after_polls(jobs, Seq::<T>::empty(), n).0 == jobs.skip(n as int),
        after_polls(jobs, Seq::<T>::empty(), n + 1).1
            == after_polls(jobs, Seq::<T>::empty(), n).1.push(jobs[n as int]),
{
    lemma_polls_shape(jobs, Seq::<T>::empty(), n);
    lemma_polls_shape(jobs, Seq::<T>::empty(), n + 1);
    assert((Seq::<T>::empty() + jobs.take(n + 1 as int))
        =~= (Seq::<T>::empty() + jobs.take(n as int)).push(jobs[n as int]));
}

/// Enough successful polls start every job: once at least as many polls
/// have succeeded as jobs were queued, every queued job has begun
/// executing, in submission order, and none is left pending.
pub proof fn lemma_enough_polls_start_every_job<T>(jobs: Seq<T>, n: nat)
    requires
        n >= jobs.len(),
    ensures
        after_polls(jobs, Seq::<T>::empty(), n).1 == jobs,
        after_polls(jobs, Seq::<T>::empty(), n).0.len() == 0,
    decreases n,
{
    if n == jobs.len() {
        lemma_polls_shape(jobs, Seq::<T>::empty(), n);
        assert(Seq::<T>::empty() + jobs.take(n as int) =~= jobs);
    } else {
        lemma_enough_polls_start_every_job(jobs, (n - 1) as nat);
        let drained = after_polls(jobs, Seq::<T>::empty(), (n - 1) as nat);
        lemma_polls_on_empty(drained.0, drained.1, 1);
        lemma_after_polls_one_more(jobs, Seq::<T>::empty(), (n - 1) as nat);
    }
}

/// Running `n + 1` polls is running `n`, then one more.
proof fn lemma_after_polls_one_more<T>(pending: Seq<T>, started: Seq<T>, n: nat)
    ensures
        after_polls(pending, started, n + 1).0
            == poll_step(after_polls(pending, started, n).0, after_polls(pending, started, n).1).0,
        after_polls(pending, started, n + 1).1
            == poll_step(after_polls(pending, started, n).0, after_polls(pending, started, n).1).1,
    decreases n,
{
    let stepped = poll_step(pending, started);
    assert(after_polls(pending, started, n + 1)
        == after_polls(stepped.0, stepped.1, n));
    if n > 0 {
        lemma_after_polls_one_more(stepped.0, stepped.1, (n - 1) as nat);
    }
}

/// Every submission is accepted and kept: after any sequence of
/// submissions, the pending queue holds what it held before, followed by
/// every submitted job, in submission order — none lost, none reordered,
/// none duplicated.
pub proof fn lemma_submissions_all_kept_in_order<T>(pending: Seq<T>, jobs: Seq<T>)
    ensures
        after_submits(pending, jobs) == pending + jobs,
    decreases jobs.len(),
{
    if jobs.len() == 0 {
        assert(pending + jobs =~= pending);
    } else {
        lemma_submissions_all_kept_in_order(pending.push(jobs[0]), jobs.drop_first());
        assert(pending.push(jobs[0]) + jobs.drop_first() =~= pending + jobs);
    }
}

/// A pool with zero workers accepts any number of submissions without
/// error and never starts any of them: all the jobs sit pending, in
/// submission order, and with no worker there is no poll, so the execution
/// history stays empty.
pub proof fn lemma_workerless_pool_accepts_and_never_executes<T>(jobs: Seq<T>)
    ensures
        after_submits(Seq::<T>::empty(), jobs) == jobs,
        after_polls(after_submits(Seq::<T>::empty(), jobs), Seq::<T>::empty(), 0).1
            == Seq::<T>::empty(),
{
    lemma_submissions_all_kept_in_order(Seq::<T>::empty(), jobs);
    assert(Seq::<T>::empty() + jobs =~= jobs);
}

} // verus!

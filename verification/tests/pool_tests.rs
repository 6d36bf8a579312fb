use std::cell::Cell;
use std::rc::Rc;

use workpool::pool::PoolState;

#[test]
fn zero_worker_pool_accepts_many_jobs_and_starts_none() {
    let mut pool: PoolState<u32> = PoolState::new(0);
    for i in 0..1000 {
        pool.queue_job(i);
    }
    assert_eq!(pool.pending.len(), 1000);
    assert_eq!(pool.started.len(), 0);
}

#[test]
fn excess_jobs_wait_and_freed_worker_takes_next_oldest() {
    let mut pool: PoolState<u32> = PoolState::new(1);
    pool.queue_job(10);
    pool.queue_job(20);
    pool.queue_job(30);
    pool.worker_poll();
    assert_eq!(pool.started, vec![10]);
    assert_eq!(pool.pending.len(), 2);
    pool.worker_poll();
    assert_eq!(pool.started, vec![10, 20]);
    pool.worker_poll();
    assert_eq!(pool.started, vec![10, 20, 30]);
    assert!(pool.pending.is_empty());
}

#[test]
fn all_jobs_start_once_polls_match_jobs() {
    let mut pool: PoolState<u32> = PoolState::new(2);
    pool.queue_job(1);
    pool.queue_job(2);
    pool.worker_poll();
    pool.worker_poll();
    assert_eq!(pool.started, vec![1, 2]);
    assert!(pool.pending.is_empty());
    pool.worker_poll();
    assert_eq!(pool.started, vec![1, 2]);
}

#[test]
fn two_workers_three_jobs_start_order() {
    let mut pool: PoolState<char> = PoolState::new(2);
    pool.queue_job('A');
    pool.queue_job('B');
    pool.queue_job('C');
    pool.worker_poll();
    pool.worker_poll();
    assert_eq!(pool.started, vec!['A', 'B']);
    assert_eq!(pool.pending.len(), 1);
    pool.worker_poll();
    assert_eq!(pool.started, vec!['A', 'B', 'C']);
    let a = pool.started.iter().position(|&j| j == 'A').unwrap();
    let b = pool.started.iter().position(|&j| j == 'B').unwrap();
    let c = pool.started.iter().position(|&j| j == 'C').unwrap();
    assert!(a < c && b < c);
}

#[test]
fn async_job_runs_to_completion_before_its_worker_frees() {
    let progress: Rc<Cell<u32>> = Rc::new(Cell::new(0));
    let inner = progress.clone();
    let adapted = move || {
        let runtime = tokio::runtime::Runtime::new().unwrap();
        let p = inner.clone();
        runtime.block_on(async move {
            p.set(p.get() + 1);
            tokio::task::yield_now().await;
            p.set(p.get() + 1);
            tokio::task::yield_now().await;
            p.set(p.get() + 1);
        });
    };
    adapted();
    assert_eq!(progress.get(), 3);
}

use workpool::queue::JobQueue;
use workpool::worker::{should_exit, POLL_INTERVAL_MS};

#[test]
fn test() {}

#[test]
fn fifo_dequeue_order() {
    let mut q: JobQueue<u32> = JobQueue::new();
    q.enqueue(1);
    q.enqueue(2);
    q.enqueue(3);
    assert_eq!(q.dequeue(), Some(1));
    assert_eq!(q.dequeue(), Some(2));
    assert_eq!(q.dequeue(), Some(3));
    assert_eq!(q.dequeue(), None);
}

#[test]
fn dequeue_on_empty_returns_none() {
    let mut q: JobQueue<u32> = JobQueue::new();
    assert_eq!(q.dequeue(), None);
    assert!(q.is_empty());
}

#[test]
fn len_tracks_enqueues_and_dequeues() {
    let mut q: JobQueue<u32> = JobQueue::new();
    assert_eq!(q.len(), 0);
    assert!(q.is_empty());
    q.enqueue(10);
    q.enqueue(20);
    assert_eq!(q.len(), 2);
    assert!(!q.is_empty());
    q.dequeue();
    assert_eq!(q.len(), 1);
}

#[test]
fn interleaved_enqueue_dequeue_keeps_order() {
    let mut q: JobQueue<u32> = JobQueue::new();
    q.enqueue(1);
    q.enqueue(2);
    assert_eq!(q.dequeue(), Some(1));
    q.enqueue(3);
    assert_eq!(q.dequeue(), Some(2));
    assert_eq!(q.dequeue(), Some(3));
    assert_eq!(q.dequeue(), None);
}

#[test]
fn should_exit_only_on_a_read_false_flag() {
    assert!(should_exit(Some(false)));
    assert!(!should_exit(Some(true)));
    assert!(!should_exit(None));
}

#[test]
fn poll_interval_is_fifty_milliseconds() {
    assert_eq!(POLL_INTERVAL_MS, 50);
}

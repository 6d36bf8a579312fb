//! A fixed-size worker pool, modelled for verification.
//!
//! The pool's observable behaviour is split into the pieces that can be
//! reasoned about as plain data: a strict-FIFO queue of pending jobs
//! ([`queue::JobQueue`]), the decision a worker makes on each poll cycle
//! ([`worker`]), and a single-threaded model of the whole pool
//! ([`pool::PoolState`]) on which the ordering guarantees are stated and
//! proved. The threads, locks and the async driver that carry these
//! decisions out at run time live outside the verified library.

pub mod pool;
pub mod queue;
pub mod worker;

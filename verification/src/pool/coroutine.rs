//! A parallel-task limiter: a shared worker counter with a fixed ceiling.
//! Launching a task first acquires a worker slot; the slot is released
//! when the task ends. The async launch loop around this (retrying with a
//! short sleep until a slot frees up) lives with the runtime, outside this
//! library; here is the state it decides with.

use std::sync::Arc;

use vstd::prelude::*;
use vstd::rwlock::{RwLock, RwLockPredicate};

use crate::common::infra::arc_clone;

verus! {

/// The shared worker count of one limiter.
pub struct PoolWorkers {
    /// Tasks currently holding a slot.
    pub count: usize,
}

impl PoolWorkers {
    /// A fresh limiter state: no task holds a slot.
    pub fn new() -> (w: Self)
        ensures
            w.count == 0,
    {
        PoolWorkers { count: 0 }
    }

    /// One acquire attempt: takes a slot exactly when the count is under
    /// the ceiling.
    pub fn acquire(&mut self, parallel_max: usize) -> (r: bool)
        ensures
            r == (old(self).count < parallel_max),
            final(self).count == (if old(self).count < parallel_max {
                old(self).count + 1
            } else {
                old(self).count as int
            }),
    {
        if self.count < parallel_max {
            self.count = self.count + 1;
            true
        } else {
            false
        }
    }

    /// One release: gives a slot back, never dropping below zero.
    pub fn release(&mut self)
        ensures
            final(self).count == (if old(self).count > 0 {
                old(self).count - 1
            } else {
                0int
            }),
    {
        if self.count > 0 {
            self.count = self.count - 1;
        }
    }
}

/// The worker count never exceeds the ceiling.
pub struct WorkerPred {
    pub parallel_max: nat,
}

impl RwLockPredicate<PoolWorkers> for WorkerPred {
    open spec fn inv(self, v: PoolWorkers) -> bool {
        v.count as nat <= self.parallel_max
    }
}

/// The limiter: how many tasks may run at once, and how many do.
pub struct ParallelPool {
    parallel_max: usize,
    workers: Arc<RwLock<PoolWorkers, WorkerPred>>,
}

impl ParallelPool {
    /// The counter's lock carries exactly this pool's ceiling.
    #[verifier::type_invariant]
    spec fn pool_wf(self) -> bool {
        self.workers.pred() == (WorkerPred { parallel_max: self.parallel_max as nat })
    }

    /// The fixed ceiling.
    pub closed spec fn max_spec(self) -> usize {
        self.parallel_max
    }

    /// A limiter allowing up to `parallel` tasks at once; no slot is held
    /// yet, so the first acquire (with a ceiling of at least one) succeeds.
    pub fn new(parallel: usize) -> (p: Self)
        ensures
            p.max_spec() == parallel,
    {
        let workers = Arc::new(
            RwLock::new(PoolWorkers::new(), Ghost(WorkerPred { parallel_max: parallel as nat })),
        );
        Self { parallel_max: parallel, workers }
    }

    /// Takes one worker slot if the ceiling allows it; the transition on
    /// the locked count is [`PoolWorkers::acquire`]. A `false` means the
    /// pool is at its limit right now; the caller retries later.
    pub fn try_acquire(&self) -> bool {
        proof {
            use_type_invariant(self);
        }
        let (mut state, handle) = self.workers.acquire_write();
        let r = state.acquire(self.parallel_max);
        handle.release_write(state);
        r
    }

    /// Returns a worker slot once its task has ended; the transition on
    /// the locked count is [`PoolWorkers::release`].
    pub fn release(&self) {
        proof {
            use_type_invariant(self);
        }
        let (mut state, handle) = self.workers.acquire_write();
        state.release();
        handle.release_write(state);
    }

    /// How many tasks hold a slot right now.
    pub fn worker_count(&self) -> (n: usize)
        ensures
            n <= self.max_spec(),
    {
        proof {
            use_type_invariant(self);
        }
        let handle = self.workers.acquire_read();
        let n = handle.borrow().count;
        handle.release_read();
        n
    }
}

impl Clone for ParallelPool {
    /// Another handle to the same limiter.
    fn clone(&self) -> (r: Self)
        ensures
            r == *self,
    {
        proof {
            use_type_invariant(self);
        }
        ParallelPool { parallel_max: self.parallel_max, workers: arc_clone(&self.workers) }
    }
}

} // verus!

//! The channel handle: a fixed capacity, and the shared, lock-protected
//! ring state. Handles are cheap to clone and all refer to the same state.
//!
//! The lock's invariant is the state's well-formedness, so every law in
//! [`crate::channel::laws`] holds of every state any caller can observe.

use std::sync::Arc;

use vstd::prelude::*;
use vstd::rwlock::{RwLock, RwLockPredicate};

use crate::channel::error::{ChannelError, ChannelResult, RecvError, SendError};
use crate::common::infra::arc_clone;
use crate::channel::state::{RecvStep, SendStep, WaitDeque};

verus! {

/// The lock invariant of a channel: the state is well-formed and keeps the
/// capacity the channel was created with.
pub struct ChanPred {
    pub cap: nat,
}

impl<T> RwLockPredicate<WaitDeque<T>> for ChanPred {
    open spec fn inv(self, v: WaitDeque<T>) -> bool {
        v.wf() && v.cap as nat == self.cap
    }
}

/// A bounded multi-producer/multi-consumer channel: a ring of `capacity`
/// slots behind one lock, with a wait queue per direction. Every handle
/// (clones, senders, receivers) shares the same state.
pub struct Channel<T> {
    cap: usize,
    inner: Arc<RwLock<WaitDeque<T>, ChanPred>>,
}

impl<T> Channel<T> {
    /// The lock carries exactly this channel's capacity in its invariant.
    #[verifier::type_invariant]
    spec fn chan_wf(self) -> bool {
        &&& self.inner.pred() == (ChanPred { cap: self.cap as nat })
        &&& 1 <= self.cap
    }

    /// The fixed ring capacity.
    pub closed spec fn capacity(self) -> usize {
        self.cap
    }

    /// Creates a channel with the given capacity. A capacity of zero is a
    /// caller mistake; it is normalized to one rather than accepted.
    pub fn with_cap(cap: usize) -> (c: Channel<T>)
        ensures
            c.capacity() == if cap == 0 {
                1usize
            } else {
                cap
            },
    {
        let cap = if cap == 0 {
            1
        } else {
            cap
        };
        let state = WaitDeque::new(cap);
        let lock = RwLock::new(state, Ghost(ChanPred { cap: cap as nat }));
        Channel { cap, inner: Arc::new(lock) }
    }

    /// True while the channel is open; false once any handle closed it.
    pub fn get_status(&self) -> bool {
        proof {
            use_type_invariant(self);
        }
        let handle = self.inner.acquire_read();
        let open = handle.borrow().open;
        handle.release_read();
        open
    }

    /// Whether `close()` has happened; visible to every handle at once.
    pub fn is_closed(&self) -> bool {
        !self.get_status()
    }

    /// Closes the channel: no further writes are accepted, buffered values
    /// remain readable, and every suspended operation is resumed so it can
    /// observe the closure. Idempotent; either side may call it.
    pub fn close(&self) {
        proof {
            use_type_invariant(self);
        }
        let (mut state, handle) = self.inner.acquire_write();
        state.close();
        handle.release_write(state);
    }

    /// Attempts to send without suspending. Fails with `CLOSED` after
    /// `close()` and with `FULL` while the ring holds `capacity` values;
    /// either error returns the value to the caller. On success one waiting
    /// receiver is resumed.
    pub fn try_send(&self, data: T) -> (r: ChannelResult<(), SendError<T>>)
        ensures
            match r {
                Ok(()) => true,
                Err(SendError::CLOSED(v)) => v == data,
                Err(SendError::FULL(v)) => v == data,
                Err(SendError::UNKNOWN(_, _)) => false,
            },
    {
        proof {
            use_type_invariant(self);
        }
        let (mut state, handle) = self.inner.acquire_write();
        let r = state.try_send(data);
        handle.release_write(state);
        r
    }

    /// Attempts to receive without suspending. Delivers the oldest
    /// buffered value if any — also after `close()`, which never discards
    /// the buffer. On an empty channel, fails with `CLOSED` when closed and
    /// `EMPTY` otherwise. On success one waiting sender is resumed.
    pub fn try_recv(&self) -> (r: ChannelResult<T, RecvError>)
        ensures
            !(r matches Err(RecvError::UNKNOWN(_))),
    {
        proof {
            use_type_invariant(self);
        }
        let (mut state, handle) = self.inner.acquire_write();
        let r = state.try_recv();
        handle.release_write(state);
        r
    }

    /// One attempt of a (possibly suspending) send: one step of the send
    /// operation's state machine, run under the lock by
    /// [`WaitDeque::send_step`], whose contract ties every outcome to the
    /// state it observed. At this handle: a refused value always rides
    /// along, `FULL` only in `once` mode, parking only when suspension was
    /// asked for, and the internal failure is impossible.
    pub fn send_poll(&self, data: T, waker: core::task::Waker, once: bool) -> (r: SendStep<T>)
        ensures
            match r {
                SendStep::Done(Ok(())) => true,
                SendStep::Done(Err(SendError::CLOSED(v))) => v == data,
                SendStep::Done(Err(SendError::FULL(v))) => once && v == data,
                SendStep::Done(Err(SendError::UNKNOWN(_, _))) => false,
                SendStep::Parked(v) => !once && v == data,
            },
    {
        proof {
            use_type_invariant(self);
        }
        let (mut state, handle) = self.inner.acquire_write();
        let r = state.send_step(data, waker, once);
        handle.release_write(state);
        r
    }

    /// One attempt of a (possibly suspending) receive: one step of the
    /// receive operation's state machine, run under the lock by
    /// [`WaitDeque::recv_step`], whose contract ties every outcome to the
    /// state it observed. At this handle: `EMPTY` only in `once` mode,
    /// parking only when suspension was asked for, and the internal
    /// failure is impossible.
    pub fn recv_poll(&self, waker: core::task::Waker, once: bool) -> (r: RecvStep<T>)
        ensures
            match r {
                RecvStep::Done(Ok(_)) => true,
                RecvStep::Done(Err(RecvError::CLOSED)) => true,
                RecvStep::Done(Err(RecvError::EMPTY)) => once,
                RecvStep::Done(Err(RecvError::UNKNOWN(_))) => false,
                RecvStep::Parked => !once,
            },
    {
        proof {
            use_type_invariant(self);
        }
        let (mut state, handle) = self.inner.acquire_write();
        let r = state.recv_step(waker, once);
        handle.release_write(state);
        r
    }

    /// One sweeper tick over this channel: resumes queued receivers up to
    /// the current occupancy and queued senders up to the free room — all
    /// of them once the channel is closed — to recover any wakeup missed
    /// between a state change and a suspension. Returns whether the
    /// sweeper may stop: only once the channel is closed and every queued
    /// waiter has been resumed; an open channel keeps its sweeper, since a
    /// waiter may park at any time.
    pub fn sweep_tick(&self) -> bool {
        proof {
            use_type_invariant(self);
        }
        let (mut state, handle) = self.inner.acquire_write();
        let done = state.sweep();
        handle.release_write(state);
        done
    }
}

impl<T> Clone for Channel<T> {
    /// Another handle to the same channel.
    fn clone(&self) -> (r: Self)
        ensures
            r == *self,
    {
        proof {
            use_type_invariant(self);
        }
        Channel { cap: self.cap, inner: arc_clone(&self.inner) }
    }
}

} // verus!

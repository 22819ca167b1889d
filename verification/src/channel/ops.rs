//! The suspend-capable send and receive operations. Each is a small state
//! machine driven by repeated `poll_step` calls: the scheduler (an async
//! runtime around this library) calls `poll_step` with the task's waker,
//! and either gets a final outcome or a request to suspend until resumed.
//!
//! A suspended send keeps its value; dropping the operation before
//! completion releases no channel state and loses at most that value.

use vstd::prelude::*;

use crate::channel::chan::Channel;
use crate::channel::error::{ChannelResult, RecvError, SendError};
pub use crate::channel::state::{RecvStep, SendStep};

verus! {

/// What a `poll_step` asks of the scheduler.
pub enum SendPoll<T> {
    /// The send finished with this result.
    Ready(ChannelResult<(), SendError<T>>),
    /// Suspend; a resume will re-drive the operation.
    Pending,
}

/// What a receive `poll_step` asks of the scheduler.
pub enum RecvPoll<T> {
    /// The receive finished with this result.
    Ready(ChannelResult<T, RecvError>),
    /// Suspend; a resume will re-drive the operation.
    Pending,
}

/// A send in progress: the value to deliver (present until the operation
/// completes) and the channel to deliver it into. With `once` the
/// operation never suspends: a full ring fails it with `FULL`.
pub struct SendFuture<T> {
    /// Non-suspending variant (`try_send` semantics).
    pub once: bool,
    /// Drive count; kept for callers that instrument retries.
    pub try_count: usize,
    /// The value to send; taken exactly once, on completion.
    pub inner: Option<T>,
    /// The channel to send into.
    pub chan: Channel<T>,
}

impl<T> SendFuture<T> {
    pub fn new(t: T, once: bool, chan: Channel<T>) -> (f: SendFuture<T>)
        ensures
            f.once == once,
            f.inner == Some(t),
            f.chan == chan,
            f.try_count == 0,
    {
        SendFuture { once, try_count: 0, inner: Some(t), chan }
    }

    /// Whether the operation still holds its value and may be driven.
    pub fn is_pending(&self) -> (r: bool)
        ensures
            r == (self.inner is Some),
    {
        self.inner.is_some()
    }

    /// Drives the send once. Never called again after it returns `Ready`:
    /// the value has then been committed or handed back in the error.
    pub fn poll_step(&mut self, waker: core::task::Waker) -> (r: SendPoll<T>)
        requires
            old(self).inner is Some,
        ensures
            final(self).once == old(self).once,
            final(self).chan == old(self).chan,
            match r {
                SendPoll::Ready(Ok(())) => final(self).inner is None,
                SendPoll::Ready(Err(SendError::CLOSED(v))) => v == old(self).inner->0 && final(self).inner is None,
                SendPoll::Ready(Err(SendError::FULL(v))) => old(self).once && v == old(self).inner->0 && final(self).inner is None,
                SendPoll::Ready(Err(SendError::UNKNOWN(_, _))) => false,
                SendPoll::Pending => !old(self).once && final(self).inner == old(self).inner,
            },
    {
        let data = self.inner.take().unwrap();
        match self.chan.send_poll(data, waker, self.once) {
            SendStep::Done(r) => SendPoll::Ready(r),
            SendStep::Parked(v) => {
                self.inner = Some(v);
                SendPoll::Pending
            },
        }
    }
}

/// A receive in progress. With `once` the operation never suspends: an
/// empty buffer fails it with `EMPTY`.
pub struct RecvFuture<T> {
    /// Non-suspending variant (`try_recv` semantics).
    pub once: bool,
    /// Drive count; kept for callers that instrument retries.
    pub try_count: usize,
    /// The channel to receive from.
    pub chan: Channel<T>,
}

impl<T> RecvFuture<T> {
    pub fn new(once: bool, chan: Channel<T>) -> (f: RecvFuture<T>)
        ensures
            f.once == once,
            f.chan == chan,
            f.try_count == 0,
    {
        RecvFuture { once, try_count: 0, chan }
    }

    /// Drives the receive once.
    pub fn poll_step(&mut self, waker: core::task::Waker) -> (r: RecvPoll<T>)
        ensures
            final(self).once == old(self).once,
            final(self).chan == old(self).chan,
            match r {
                RecvPoll::Ready(Ok(_)) => true,
                RecvPoll::Ready(Err(RecvError::CLOSED)) => true,
                RecvPoll::Ready(Err(RecvError::EMPTY)) => old(self).once,
                RecvPoll::Ready(Err(RecvError::UNKNOWN(_))) => false,
                RecvPoll::Pending => !old(self).once,
            },
    {
        match self.chan.recv_poll(waker, self.once) {
            RecvStep::Done(r) => RecvPoll::Ready(r),
            RecvStep::Parked => RecvPoll::Pending,
        }
    }
}

} // verus!

//! The two ends of a channel. `Channel::new` makes a connected pair; both
//! ends are cloneable, and cloning shares the channel, never its state.

use vstd::prelude::*;

use crate::channel::chan::Channel;
use crate::channel::error::{ChannelResult, RecvError, SendError};
use crate::channel::ops::{RecvFuture, SendFuture};

verus! {

/// The producing end of a channel.
pub struct Sender<T> {
    chan: Channel<T>,
}

impl<T> Sender<T> {
    /// The channel this end belongs to.
    pub closed spec fn channel_spec(self) -> Channel<T> {
        self.chan
    }

    /// A handle to this end's channel.
    pub fn channel(&self) -> (c: Channel<T>)
        ensures
            c == self.channel_spec(),
    {
        self.chan.clone()
    }

    /// Attempts to send without suspending; see [`Channel::try_send`].
    pub fn try_send(&self, data: T) -> (r: ChannelResult<(), SendError<T>>)
        ensures
            match r {
                Ok(()) => true,
                Err(SendError::CLOSED(v)) => v == data,
                Err(SendError::FULL(v)) => v == data,
                Err(SendError::UNKNOWN(_, _)) => false,
            },
    {
        self.chan.try_send(data)
    }

    /// Starts a suspending send of `value` into this end's channel.
    pub fn send(&self, value: T) -> (f: SendFuture<T>)
        ensures
            !f.once,
            f.inner == Some(value),
            f.chan == self.channel_spec(),
    {
        self.chan.send(value)
    }

    /// Closes the channel for every handle.
    pub fn close(&self) {
        self.chan.close()
    }

    /// Whether the channel has been closed.
    pub fn is_closed(&self) -> bool {
        self.chan.is_closed()
    }
}

impl<T> Clone for Sender<T> {
    /// Another handle to the same sending end.
    fn clone(&self) -> (r: Self)
        ensures
            r == *self,
    {
        Sender { chan: self.chan.clone() }
    }
}

/// The consuming end of a channel.
pub struct Receiver<T> {
    chan: Channel<T>,
}

impl<T> Receiver<T> {
    /// The channel this end belongs to.
    pub closed spec fn channel_spec(self) -> Channel<T> {
        self.chan
    }

    /// A handle to this end's channel.
    pub fn channel(&self) -> (c: Channel<T>)
        ensures
            c == self.channel_spec(),
    {
        self.chan.clone()
    }

    /// Attempts to receive without suspending; see [`Channel::try_recv`].
    pub fn try_recv(&self) -> (r: ChannelResult<T, RecvError>)
        ensures
            !(r matches Err(RecvError::UNKNOWN(_))),
    {
        self.chan.try_recv()
    }

    /// Starts a suspending receive from this end's channel.
    pub fn recv(&self) -> (f: RecvFuture<T>)
        ensures
            !f.once,
            f.chan == self.channel_spec(),
    {
        self.chan.recv()
    }

    /// Closes the channel for every handle.
    pub fn close(&self) {
        self.chan.close()
    }

    /// Whether the channel has been closed.
    pub fn is_closed(&self) -> bool {
        self.chan.is_closed()
    }
}

impl<T> Clone for Receiver<T> {
    /// Another handle to the same receiving end.
    fn clone(&self) -> (r: Self)
        ensures
            r == *self,
    {
        Receiver { chan: self.chan.clone() }
    }
}

impl<T> Channel<T> {
    /// Creates a connected sender/receiver pair: both ends refer to one
    /// fresh channel of the given capacity (a capacity of zero is
    /// normalized to one), so what one end sends the other receives.
    pub fn new(cap: usize) -> (pair: (Sender<T>, Receiver<T>))
        ensures
            pair.0.channel_spec() == pair.1.channel_spec(),
            pair.0.channel_spec().capacity() == (if cap == 0 {
                1usize
            } else {
                cap
            }),
    {
        let chan = Channel::with_cap(cap);
        let sender = Sender { chan: chan.clone() };
        (sender, Receiver { chan })
    }

    /// Starts a suspending send of `value` into this channel.
    pub fn send(&self, value: T) -> (f: SendFuture<T>)
        ensures
            !f.once,
            f.inner == Some(value),
            f.chan == *self,
    {
        SendFuture::new(value, false, self.clone())
    }

    /// Starts a suspending receive from this channel.
    pub fn recv(&self) -> (f: RecvFuture<T>)
        ensures
            !f.once,
            f.chan == *self,
    {
        RecvFuture::new(false, self.clone())
    }
}

} // verus!

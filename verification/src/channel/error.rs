//! Error values returned by the channel operations.
//!
//! A failed send always hands the value back to the caller: `CLOSED` and
//! `FULL` carry the rejected value. `UNKNOWN` is reserved for an internal
//! lock-acquisition failure that a correct implementation never produces,
//! but which must stay representable so that no path has to panic.

use vstd::prelude::*;

verus! {

/// Outcome of a channel operation: the usual `Result`, under the name the
/// channel's callers use.
pub type ChannelResult<T, E> = Result<T, E>;

/// Shared behaviour of the two error enums: lifting an error value into the
/// `Err` case of a [`ChannelResult`].
pub trait ChannelError: Sized {
    fn into_err<T>(self) -> (r: ChannelResult<T, Self>)
        ensures
            r == ChannelResult::<T, Self>::Err(self),
    {
        ChannelResult::Err(self)
    }
}

/// Why a send was refused. The rejected value rides along so the caller
/// keeps ownership of it.
#[derive(Debug, PartialEq)]
#[allow(non_camel_case_types)]
pub enum SendError<T> {
    /// The channel was closed; no further writes are accepted.
    CLOSED(T),
    /// Capacity is currently exhausted (only `try_send` reports this).
    FULL(T),
    /// Unexpected internal failure; unreachable in this implementation.
    UNKNOWN(T, String),
}

impl<T> ChannelError for SendError<T> {

}

/// Why a receive came back empty-handed.
#[derive(Debug, PartialEq)]
#[allow(non_camel_case_types)]
pub enum RecvError {
    /// The channel is closed and its buffer is drained.
    CLOSED,
    /// No value is buffered right now (only `try_recv` reports this).
    EMPTY,
    /// Unexpected internal failure; unreachable in this implementation.
    UNKNOWN(String),
}

impl ChannelError for RecvError {

}

} // verus!

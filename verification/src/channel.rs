pub mod chan;
pub mod error;
pub mod laws;
pub mod ops;
pub mod split;
pub mod state;
pub mod waitq;

pub use chan::Channel;
pub use error::{ChannelError, ChannelResult, RecvError, SendError};
pub use ops::{RecvFuture, RecvPoll, SendFuture, SendPoll};
pub use split::{Receiver, Sender};
pub use state::{RecvStep, SendStep, Slot, WaitDeque};

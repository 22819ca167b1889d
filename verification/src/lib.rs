pub mod channel;
pub mod coll;
pub mod common;
pub mod fs;
pub mod id_generator;
pub mod pool;
pub mod sync;

pub use channel::error::{ChannelError, ChannelResult, RecvError, SendError};
pub use channel::split::{Receiver, Sender};
pub use channel::Channel;
pub use sync::copy_lock::{Acl, CopyLock};
pub use coll::byte_map::{ByteMap, Node};
pub use common::base64::{
    Base64Error, Base64StdDecode, Base64StdEncode, Base64URLDecode, Base64URLEncode,
};
pub use common::hash::{Sha1, MD5};
pub use common::hex::EncodeHex;
pub use common::infra::{bytes_to_usize, AsBytes};
pub use common::pf::{PFArc, PFBox, PFErr, PFOk, PFSome};
pub use common::regex::{RegexError, SimpleRegexMatch};
pub use fs::FileType;
pub use id_generator::snowflake::{snowflake_get_id, snowflake_new_default};
pub use id_generator::rand_gen::{random, random_in_between};
pub use id_generator::uuid_gen;

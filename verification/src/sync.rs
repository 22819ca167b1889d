pub mod async_lru;
pub mod copy_lock;
pub mod lru;

pub use async_lru::AsyncLru;
pub use copy_lock::{Acl, CopyLock};
pub use lru::{LruCache, LruDoubleLink, LruNode};

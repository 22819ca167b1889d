pub mod coroutine;
pub mod object_pool;

pub use coroutine::ParallelPool;
pub use object_pool::{ObjFactor, ObjPool, Object};

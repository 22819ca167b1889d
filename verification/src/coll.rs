pub mod byte_map;

pub use byte_map::{ByteMap, Node};

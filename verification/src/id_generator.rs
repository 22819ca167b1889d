pub mod rand_gen;
pub mod snowflake;
pub mod uuid_gen;

pub use snowflake::{snowflake_get_id, snowflake_new_default};
pub use wd_sonyflake::SonyFlakeEntity as Snowflake;

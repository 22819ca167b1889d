//! Snowflake-style identifiers: time-ordered 63-bit ids drawn from a
//! node-local generator. One generator must serve all calls that need
//! mutually distinct ids — its timestamp/counter state is what keeps two
//! draws in the same millisecond apart — so callers hold one entity and
//! draw from it. The process-wide shared entity lives with the runtime,
//! outside this library, which holds no statics.

use vstd::prelude::*;

verus! {

/// Declares the generator type so wrappers can hand it around.
#[verifier::external_type_specification]
#[verifier::external_body]
pub struct ExSonyFlakeEntity(wd_sonyflake::SonyFlakeEntity);

/// Relies on `wd_sonyflake::SonyFlakeEntity::new_default`: a generator
/// whose node id is probed from the machine's address, 1 when that fails.
#[verifier::external_body]
pub fn snowflake_new_default() -> wd_sonyflake::SonyFlakeEntity {
    wd_sonyflake::SonyFlakeEntity::new_default()
}

/// Relies on `wd_sonyflake::SonyFlakeEntity::get_id`: an id built from the
/// time, the node and a counter; its top (idle) bit is masked off, so it
/// is never negative.
#[verifier::external_body]
pub fn snowflake_get_id(e: &wd_sonyflake::SonyFlakeEntity) -> (r: i64)
    ensures
        r >= 0,
{
    e.get_id()
}

} // verus!

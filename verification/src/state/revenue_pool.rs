//! The pool into which a track's revenue is deposited.
use vstd::prelude::*;

use crate::address::Address;

verus! {

/// Revenue deposited for a track, and the rewards it has accrued per token,
/// scaled by the revenue precision.
pub struct RevenuePool {
    pub track: Address,
    pub total_deposited: u64,
    pub accumulated_rewards_per_token: u128,
    pub bump: u8,
}

/// Bytes a revenue pool account takes: tag, track, total, accumulator, bump.
pub const REVENUE_POOL_SPACE: usize = 8 + 32 + 8 + 16 + 1;

} // verus!

//! Opening a holder's position in a track's revenue.
use vstd::prelude::*;

use crate::address::Address;
use crate::errors::AssetraError;
use crate::state::holder_position::HolderPosition;
use crate::state::revenue_pool::RevenuePool;
use crate::state::track::Track;

verus! {

/// Opens the position of `holder` in the track at `track_key`, checkpointed
/// at the pool's current accumulator, so that revenue deposited before the
/// position existed is never claimable through it. Refuses a token account
/// whose mint is not the track's.
pub fn handler(
    track: &Track,
    track_key: Address,
    holder: Address,
    holder_token_mint: Address,
    revenue_pool: &RevenuePool,
    bump: u8,
) -> (r: Result<HolderPosition, AssetraError>)
    ensures
        if !track.mint_is(holder_token_mint) {
            r == Err::<HolderPosition, AssetraError>(AssetraError::InvalidTrackStatus)
        } else {
            r == Ok::<HolderPosition, AssetraError>(
                (HolderPosition {
                    track: track_key,
                    holder,
                    reward_debt: 0,
                    unclaimed_rewards: 0,
                    total_claimed: 0,
                    last_accumulated_rewards_per_token: revenue_pool.accumulated_rewards_per_token,
                    bump,
                }),
            )
        },
{
    if !track.has_mint(&holder_token_mint) {
        return Err(AssetraError::InvalidTrackStatus);
    }
    Ok(
        HolderPosition {
            track: track_key,
            holder,
            reward_debt: 0,
            unclaimed_rewards: 0,
            total_claimed: 0,
            last_accumulated_rewards_per_token: revenue_pool.accumulated_rewards_per_token,
            bump,
        },
    )
}

} // verus!

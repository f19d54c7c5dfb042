//! Opening the revenue pool of a minted track.
use vstd::prelude::*;

use crate::address::Address;
use crate::errors::AssetraError;
use crate::state::revenue_pool::RevenuePool;
use crate::state::track::{Track, TrackStatus};

verus! {

/// Creates the empty revenue pool of the track at `track_key`. Only the
/// creator may open it, and only once the track is minted.
pub fn handler(track: &Track, track_key: Address, authority: Address, bump: u8) -> (r: Result<RevenuePool, AssetraError>)
    ensures
        match track.creator_status_error(authority, TrackStatus::Minted) {
            Some(e) => r == Err::<RevenuePool, AssetraError>(e),
            None => r == Ok::<RevenuePool, AssetraError>(
                (RevenuePool {
                    track: track_key,
                    total_deposited: 0,
                    accumulated_rewards_per_token: 0,
                    bump,
                }),
            ),
        },
{
    track.check_creator_and_status(&authority, TrackStatus::Minted)?;
    Ok(RevenuePool { track: track_key, total_deposited: 0, accumulated_rewards_per_token: 0, bump })
}

} // verus!

//! Depositing revenue into a track's pool.
use vstd::prelude::*;

use crate::address::Address;
use crate::constants::REVENUE_PRECISION;
use crate::errors::AssetraError;
use crate::state::revenue_pool::RevenuePool;
use crate::state::track::{Track, TrackStatus};

verus! {

/// What a deposit adds to the per-token accumulator: the amount, scaled by
/// the precision, divided by the supply (rounded down).
pub open spec fn deposit_increment(amount: u64, token_supply: u64) -> int {
    (amount * (REVENUE_PRECISION as int)) / (token_supply as int)
}

/// The first check that a deposit fails on, if any.
pub open spec fn deposit_revenue_error(track: &Track, authority: Address, amount: u64) -> Option<AssetraError> {
    match track.creator_status_error(authority, TrackStatus::Minted) {
        Some(e) => Some(e),
        None => if amount == 0 {
            Some(AssetraError::InvalidDepositAmount)
        } else {
            None
        },
    }
}

/// Whether the pool can take a deposit of `amount` for a track of this supply
/// without either total overflowing.
pub open spec fn deposit_fits(pool: &RevenuePool, amount: u64, token_supply: u64) -> bool {
    &&& token_supply > 0
    &&& pool.accumulated_rewards_per_token + deposit_increment(amount, token_supply) <= u128::MAX
    &&& pool.total_deposited + amount <= u64::MAX
}

/// Checks the signer, the track's status and the amount, in that order.
pub fn check(track: &Track, authority: &Address, amount: u64) -> (r: Result<(), AssetraError>)
    ensures
        match deposit_revenue_error(track, *authority, amount) {
            Some(e) => r == Err::<(), AssetraError>(e),
            None => r == Ok::<(), AssetraError>(()),
        },
{
    track.check_creator_and_status(authority, TrackStatus::Minted)?;
    if amount == 0 {
        return Err(AssetraError::InvalidDepositAmount);
    }
    Ok(())
}

/// Whether the pool can take the deposit without overflowing.
pub fn fits(revenue_pool: &RevenuePool, amount: u64, token_supply: u64) -> (r: bool)
    ensures
        r == deposit_fits(revenue_pool, amount, token_supply),
{
    if token_supply == 0 {
        return false;
    }
    let increment: u128 = ((amount as u128) * REVENUE_PRECISION) / (token_supply as u128);
    match revenue_pool.accumulated_rewards_per_token.checked_add(increment) {
        None => false,
        Some(_) => revenue_pool.total_deposited.checked_add(amount).is_some(),
    }
}

/// Records a deposit of `amount` lamports by the creator: the total deposited
/// grows by the amount and the accumulator by the amount's share per token.
/// The caller transfers the amount from the creator to the pool. Only the
/// creator may deposit, only into a minted track, and only a positive amount;
/// a refused call leaves the pool as it was.
pub fn handler(track: &Track, revenue_pool: &mut RevenuePool, authority: Address, amount: u64) -> (r: Result<(), AssetraError>)
    requires
        deposit_revenue_error(track, authority, amount) is None ==> deposit_fits(
            &*old(revenue_pool),
            amount,
            track.token_supply,
        ),
    ensures
        match deposit_revenue_error(track, authority, amount) {
            Some(e) => {
                &&& r == Err::<(), AssetraError>(e)
                &&& *final(revenue_pool) == *old(revenue_pool)
            },
            None => {
                &&& r == Ok::<(), AssetraError>(())
                &&& final(revenue_pool).accumulated_rewards_per_token
                    == old(revenue_pool).accumulated_rewards_per_token + deposit_increment(amount, track.token_supply)
                &&& final(revenue_pool).total_deposited == old(revenue_pool).total_deposited + amount
                &&& final(revenue_pool).track == old(revenue_pool).track
                &&& final(revenue_pool).bump == old(revenue_pool).bump
            },
        },
{
    check(track, &authority, amount)?;
    let scaled: u128 = (amount as u128) * REVENUE_PRECISION;
    let increment: u128 = scaled / (track.token_supply as u128);
    revenue_pool.accumulated_rewards_per_token = revenue_pool.accumulated_rewards_per_token + increment;
    revenue_pool.total_deposited = revenue_pool.total_deposited + amount;
    Ok(())
}

} // verus!

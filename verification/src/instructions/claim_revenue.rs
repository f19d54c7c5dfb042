//! Claiming revenue: the holder's balance times the growth of the pool's accumulator since the position's checkpoint.
use vstd::prelude::*;

use crate::address::Address;
use crate::errors::AssetraError;
use crate::state::holder_position::HolderPosition;
use crate::state::revenue_pool::RevenuePool;
use crate::state::track::Track;

verus! {

/// `a + b`, or the largest `u64` where the sum does not fit.
pub open spec fn saturating_sum(a: u64, b: int) -> int {
    if a + b > u64::MAX {
        u64::MAX as int
    } else {
        a + b
    }
}

/// Whether the token account and the position belong to the claimant: the
/// mint is checked first, then the holder.
pub open spec fn claim_account_error(track: &Track, position: &HolderPosition, holder: Address, holder_token_mint: Address) -> Option<AssetraError> {
    if !track.mint_is(holder_token_mint) {
        Some(AssetraError::InvalidTrackStatus)
    } else if position.holder@ != holder@ {
        Some(AssetraError::Unauthorized)
    } else {
        None
    }
}

/// The first check that a claim fails on, if any.
pub open spec fn claim_revenue_error(
    track: &Track,
    revenue_pool: &RevenuePool,
    position: &HolderPosition,
    holder: Address,
    holder_token_mint: Address,
    holder_balance: u64,
    pool_lamports: u64,
    pool_min_rent: u64,
) -> Option<AssetraError> {
    let pending = position.pending(holder_balance, revenue_pool.accumulated_rewards_per_token);
    match claim_account_error(track, position, holder, holder_token_mint) {
        Some(e) => Some(e),
        None => if pending == 0 {
            Some(AssetraError::NothingToClaim)
        } else if pool_lamports < saturating_sum(pool_min_rent, pending) {
            Some(AssetraError::InsufficientRevenuePoolBalance)
        } else {
            None
        },
    }
}

/// Whether computing a claim stays in range: the checkpoint is not ahead of
/// the pool, the scaled growth fits, and so does the pending amount.
pub open spec fn claim_fits(revenue_pool: &RevenuePool, position: &HolderPosition, holder_balance: u64) -> bool {
    position.can_claim(holder_balance, revenue_pool.accumulated_rewards_per_token)
}

/// Checks that the token account holds the track's tokens and that the
/// position is the claimant's, in that order.
pub fn check_accounts(track: &Track, position: &HolderPosition, holder: &Address, holder_token_mint: &Address) -> (r: Result<(), AssetraError>)
    ensures
        match claim_account_error(track, position, *holder, *holder_token_mint) {
            Some(e) => r == Err::<(), AssetraError>(e),
            None => r == Ok::<(), AssetraError>(()),
        },
{
    if !track.has_mint(holder_token_mint) {
        return Err(AssetraError::InvalidTrackStatus);
    }
    if !position.holder.same_as(holder) {
        return Err(AssetraError::Unauthorized);
    }
    Ok(())
}

/// Pays a holder of `holder_balance` tokens the pending amount: the balance
/// times the growth of the pool's accumulator since the position's
/// checkpoint, divided by the precision. Returns the lamports the caller moves
/// from the pool to the holder; the total claimed grows by the payment, the
/// checkpoint moves to the pool's accumulator, and the debt and the unclaimed
/// rewards are left as they were. Refuses, in this order, a
/// token account of another mint, a position of another holder, a claim of
/// nothing, and a claim that would leave the pool's lamports under its
/// rent-exempt minimum; a refused claim leaves the position as it was.
pub fn handler(
    track: &Track,
    revenue_pool: &RevenuePool,
    holder_position: &mut HolderPosition,
    holder: Address,
    holder_token_mint: Address,
    holder_balance: u64,
    pool_lamports: u64,
    pool_min_rent: u64,
) -> (r: Result<u64, AssetraError>)
    requires
        claim_account_error(track, &*old(holder_position), holder, holder_token_mint) is None ==> claim_fits(
            revenue_pool,
            &*old(holder_position),
            holder_balance,
        ),
        claim_revenue_error(
            track,
            revenue_pool,
            &*old(holder_position),
            holder,
            holder_token_mint,
            holder_balance,
            pool_lamports,
            pool_min_rent,
        ) is None ==> old(holder_position).total_claimed + old(holder_position).pending(
            holder_balance,
            revenue_pool.accumulated_rewards_per_token,
        ) <= u64::MAX,
    ensures
        match claim_revenue_error(
            track,
            revenue_pool,
            &*old(holder_position),
            holder,
            holder_token_mint,
            holder_balance,
            pool_lamports,
            pool_min_rent,
        ) {
            Some(e) => {
                &&& r == Err::<u64, AssetraError>(e)
                &&& *final(holder_position) == *old(holder_position)
            },
            None => {
                &&& r matches Ok(paid) && paid == old(holder_position).pending(
                    holder_balance,
                    revenue_pool.accumulated_rewards_per_token,
                )
                &&& *final(holder_position) == old(holder_position).after_claim(
                    holder_balance,
                    revenue_pool.accumulated_rewards_per_token,
                )
            },
        },
{
    check_accounts(track, holder_position, &holder, &holder_token_mint)?;
    let acc = revenue_pool.accumulated_rewards_per_token;
    let pending: u64 = match holder_position.pending_amount(holder_balance, acc) {
        Some(p) => p,
        None => 0,
    };
    if pending == 0 {
        return Err(AssetraError::NothingToClaim);
    }
    if pool_lamports < pool_min_rent.saturating_add(pending) {
        return Err(AssetraError::InsufficientRevenuePoolBalance);
    }
    holder_position.last_accumulated_rewards_per_token = acc;
    holder_position.total_claimed = holder_position.total_claimed + pending;
    Ok(pending)
}

} // verus!

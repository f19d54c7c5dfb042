//! Buying a track's tokens from its vault at the track's valuation.
use vstd::prelude::*;

use crate::address::Address;
use crate::errors::AssetraError;
use crate::state::holder_position::HolderPosition;
use crate::state::revenue_pool::RevenuePool;
use crate::state::track::{Track, TrackStatus};

verus! {

/// Scale of a price's denominator: 100 for the valuation multiple's two
/// decimals, times the basis points in one whole.
pub const PRICE_SCALE: u128 = 1_000_000;

/// The price's numerator: declared revenue times valuation multiple times
/// tokenized basis points times the number of tokens bought.
pub open spec fn price_numerator(track: &Track, amount: u64) -> int {
    track.declared_annual_revenue * track.valuation_multiple_bps * track.tokenized_bps * amount
}

/// The price's denominator: the scale times the supply.
pub open spec fn price_denominator(track: &Track) -> int {
    PRICE_SCALE * track.token_supply
}

/// Lamports that `amount` tokens cost: the tokenized share of the track's
/// valuation (revenue times multiple), pro rata over the supply, rounded down.
pub open spec fn purchase_price(track: &Track, amount: u64) -> int {
    price_numerator(track, amount) / price_denominator(track)
}

/// The checks made before the price is computed, in their order.
pub open spec fn buy_tokens_precheck_error(track: &Track, vault_amount: u64, amount: u64) -> Option<AssetraError> {
    if track.status != TrackStatus::Minted {
        Some(AssetraError::InvalidTrackStatus)
    } else if amount == 0 {
        Some(AssetraError::InvalidPurchaseAmount)
    } else if vault_amount < amount {
        Some(AssetraError::InsufficientVaultSupply)
    } else {
        None
    }
}

/// The first check that a purchase fails on, if any.
pub open spec fn buy_tokens_error(track: &Track, vault_amount: u64, amount: u64) -> Option<AssetraError> {
    match buy_tokens_precheck_error(track, vault_amount, amount) {
        Some(e) => Some(e),
        None => if purchase_price(track, amount) == 0 {
            Some(AssetraError::InvalidPurchaseAmount)
        } else {
            None
        },
    }
}

/// Whether the price of `amount` tokens can be computed: the numerator fits
/// and so does the price in lamports.
pub open spec fn price_fits(track: &Track, amount: u64) -> bool {
    &&& price_numerator(track, amount) <= u128::MAX
    &&& purchase_price(track, amount) <= u64::MAX
}

/// Checks the track's status, the amount and the vault, in that order.
pub fn precheck(track: &Track, vault_amount: u64, amount: u64) -> (r: Result<(), AssetraError>)
    ensures
        match buy_tokens_precheck_error(track, vault_amount, amount) {
            Some(e) => r == Err::<(), AssetraError>(e),
            None => r == Ok::<(), AssetraError>(()),
        },
{
    if track.status != TrackStatus::Minted {
        return Err(AssetraError::InvalidTrackStatus);
    }
    if amount == 0 {
        return Err(AssetraError::InvalidPurchaseAmount);
    }
    if vault_amount < amount {
        return Err(AssetraError::InsufficientVaultSupply);
    }
    Ok(())
}

/// The price of `amount` tokens, or none where the supply is zero or the
/// price does not fit.
pub fn quote(track: &Track, amount: u64) -> (r: Option<u64>)
    ensures
        r is Some <==> (track.token_supply > 0 && price_fits(track, amount)),
        r matches Some(price) ==> price == purchase_price(track, amount),
{
    if track.token_supply == 0 {
        return None;
    }
    let revenue = track.declared_annual_revenue as u128;
    let multiple = track.valuation_multiple_bps as u128;
    let bps = track.tokenized_bps as u128;
    proof {
        assert(revenue * multiple <= 0xffff_ffff_ffff_ffff * 0xffff_ffffint) by (nonlinear_arith)
            requires
                revenue <= 0xffff_ffff_ffff_ffff,
                multiple <= 0xffff_ffff,
        ;
        assert(revenue * multiple * bps <= 0xffff_ffff_ffff_ffff * 0xffff_ffffint * 0xffff) by (nonlinear_arith)
            requires
                revenue * multiple <= 0xffff_ffff_ffff_ffff * 0xffff_ffffint,
                bps <= 0xffff,
                revenue * multiple >= 0,
        ;
    }
    match (revenue * multiple * bps).checked_mul(amount as u128) {
        None => None,
        Some(numerator) => {
            let price: u128 = numerator / (PRICE_SCALE * (track.token_supply as u128));
            if price > u64::MAX as u128 {
                None
            } else {
                Some(price as u64)
            }
        },
    }
}

/// Sells `amount` tokens from the vault to `investor`, whose token account held
/// `investor_balance` before, and returns the price in lamports that the
/// caller moves from the investor to the creator (the caller also moves the
/// tokens from the vault). A fresh position is opened at the pool's
/// accumulator, so revenue deposited earlier is not claimable through it; an
/// existing one is settled on the old balance (what it accrued since its debt
/// is added to its unclaimed rewards) and keeps its checkpoint. The debt is set to the new balance at the
/// accumulator. Refuses, in this order, a track that is not minted, no tokens,
/// more tokens than the vault holds, and a price of zero; a refused purchase
/// leaves the position as it was.
pub fn handler(
    track: &Track,
    track_key: Address,
    investor: Address,
    vault_amount: u64,
    investor_balance: u64,
    revenue_pool: &RevenuePool,
    holder_position: &mut HolderPosition,
    position_bump: u8,
    amount: u64,
) -> (r: Result<u64, AssetraError>)
    requires
        buy_tokens_precheck_error(track, vault_amount, amount) is None ==> track.token_supply > 0 && price_fits(
            track,
            amount,
        ),
        buy_tokens_error(track, vault_amount, amount) is None ==> old(holder_position).can_acquire(
            investor_balance,
            amount,
            revenue_pool.accumulated_rewards_per_token,
        ),
    ensures
        match buy_tokens_error(track, vault_amount, amount) {
            Some(e) => {
                &&& r == Err::<u64, AssetraError>(e)
                &&& *final(holder_position) == *old(holder_position)
            },
            None => {
                &&& r matches Ok(price) && price == purchase_price(track, amount)
                &&& *final(holder_position) == old(holder_position).after_acquire(
                    track_key,
                    investor,
                    position_bump,
                    investor_balance,
                    amount,
                    revenue_pool.accumulated_rewards_per_token,
                )
            },
        },
{
    precheck(track, vault_amount, amount)?;
    let total_price: u64 = match quote(track, amount) {
        Some(p) => p,
        None => 0,
    };
    if total_price == 0 {
        return Err(AssetraError::InvalidPurchaseAmount);
    }
    holder_position.acquire(
        track_key,
        investor,
        position_bump,
        investor_balance,
        amount,
        revenue_pool.accumulated_rewards_per_token,
    );
    Ok(total_price)
}

} // verus!

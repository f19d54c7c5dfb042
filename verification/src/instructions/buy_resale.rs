//! Buying the tokens of a resale listing.
use vstd::prelude::*;

use crate::address::Address;
use crate::errors::AssetraError;
use crate::state::holder_position::HolderPosition;
use crate::state::listing::Listing;
use crate::state::revenue_pool::RevenuePool;

verus! {

/// Lamports a listing costs: its price per token times its amount.
pub open spec fn resale_price(listing: &Listing) -> int {
    listing.price_per_token * listing.amount
}

/// The price of the listing, or none where it does not fit in a `u64`.
pub fn quote(listing: &Listing) -> (r: Option<u64>)
    ensures
        r is Some <==> resale_price(listing) <= u64::MAX,
        r matches Some(price) ==> price == resale_price(listing),
{
    let price = listing.price_per_token as u128;
    let amount = listing.amount as u128;
    proof {
        assert(price * amount <= 0xffff_ffff_ffff_ffff * 0xffff_ffff_ffff_ffffint) by (nonlinear_arith)
            requires
                price <= 0xffff_ffff_ffff_ffff,
                amount <= 0xffff_ffff_ffff_ffff,
        ;
    }
    let total: u128 = price * amount;
    if total > u64::MAX as u128 {
        None
    } else {
        Some(total as u64)
    }
}

/// The first check that a resale fails on, if any: the buyer's token account
/// must not be the seller's, and the seller must still hold the listed tokens.
pub open spec fn buy_resale_error(listing: &Listing, buyer_token_account: Address, seller_token_account: Address, seller_balance: u64) -> Option<AssetraError> {
    if buyer_token_account@ == seller_token_account@ {
        Some(AssetraError::Unauthorized)
    } else if seller_balance < listing.amount {
        Some(AssetraError::InsufficientListedBalance)
    } else {
        None
    }
}

/// Buys all the tokens of `listing` for `buyer` and returns the price that the
/// caller moves from the buyer to the seller (the caller also moves the tokens
/// from the seller's account to the buyer's, signing as the listing, and
/// closes the listing). The seller's position, and an existing buyer's, is
/// settled on its balance before the trade and keeps its checkpoint; a fresh
/// buyer position is opened at the accumulator. Each debt becomes the new
/// balance at the accumulator. Refuses, in this order, a buyer
/// token account that is the seller's own and a seller who no longer holds the
/// listed tokens; a refused purchase leaves both positions as they were.
pub fn handler(
    listing: &Listing,
    track_key: Address,
    buyer: Address,
    buyer_token_account: Address,
    seller_token_account: Address,
    seller_balance: u64,
    buyer_balance: u64,
    revenue_pool: &RevenuePool,
    seller_position: &mut HolderPosition,
    buyer_position: &mut HolderPosition,
    buyer_position_bump: u8,
) -> (r: Result<u64, AssetraError>)
    requires
        buyer_token_account@ != seller_token_account@ ==> resale_price(listing) <= u64::MAX,
        buy_resale_error(listing, buyer_token_account, seller_token_account, seller_balance) is None ==> {
            let acc = revenue_pool.accumulated_rewards_per_token;
            &&& old(seller_position).can_dispose(seller_balance, listing.amount, acc)
            &&& old(buyer_position).can_acquire(buyer_balance, listing.amount, acc)
        },
    ensures
        match buy_resale_error(listing, buyer_token_account, seller_token_account, seller_balance) {
            Some(e) => {
                &&& r == Err::<u64, AssetraError>(e)
                &&& *final(seller_position) == *old(seller_position)
                &&& *final(buyer_position) == *old(buyer_position)
            },
            None => {
                let acc = revenue_pool.accumulated_rewards_per_token;
                &&& r matches Ok(price) && price == resale_price(listing)
                &&& *final(seller_position) == old(seller_position).after_dispose(seller_balance, listing.amount, acc)
                &&& *final(buyer_position) == old(buyer_position).after_acquire(
                    track_key,
                    buyer,
                    buyer_position_bump,
                    buyer_balance,
                    listing.amount,
                    acc,
                )
            },
        },
{
    if buyer_token_account.same_as(&seller_token_account) {
        return Err(AssetraError::Unauthorized);
    }
    let total_price: u64 = match quote(listing) {
        Some(p) => p,
        None => 0,
    };
    let amount = listing.amount;
    if seller_balance < amount {
        return Err(AssetraError::InsufficientListedBalance);
    }
    let acc_now = revenue_pool.accumulated_rewards_per_token;
    seller_position.dispose(seller_balance, amount, acc_now);
    buyer_position.acquire(track_key, buyer, buyer_position_bump, buyer_balance, amount, acc_now);
    Ok(total_price)
}

} // verus!

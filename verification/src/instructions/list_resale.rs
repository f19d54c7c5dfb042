//! Offering tokens for resale.
use vstd::prelude::*;

use crate::address::Address;
use crate::errors::AssetraError;
use crate::state::listing::Listing;

verus! {

/// The first check that a listing fails on, if any.
pub open spec fn list_resale_error(seller_balance: u64, amount: u64, price_per_token: u64) -> Option<AssetraError> {
    if amount == 0 {
        Some(AssetraError::InvalidListingAmount)
    } else if price_per_token == 0 {
        Some(AssetraError::InvalidListingPrice)
    } else if seller_balance < amount {
        Some(AssetraError::InsufficientListedBalance)
    } else {
        None
    }
}

/// Creates the listing of `amount` of the seller's tokens of `mint` at
/// `price_per_token`; the caller approves the listing as delegate over that
/// many tokens of the seller's account, which holds `seller_balance`. Refuses,
/// in this order, no tokens, a zero price, and more tokens than the seller holds.
pub fn handler(
    track_key: Address,
    seller: Address,
    mint: Address,
    seller_balance: u64,
    amount: u64,
    price_per_token: u64,
    nonce: u64,
    bump: u8,
) -> (r: Result<Listing, AssetraError>)
    ensures
        match list_resale_error(seller_balance, amount, price_per_token) {
            Some(e) => r == Err::<Listing, AssetraError>(e),
            None => r == Ok::<Listing, AssetraError>(
                (Listing { track: track_key, seller, mint, price_per_token, amount, nonce, bump }),
            ),
        },
{
    if amount == 0 {
        return Err(AssetraError::InvalidListingAmount);
    }
    if price_per_token == 0 {
        return Err(AssetraError::InvalidListingPrice);
    }
    if seller_balance < amount {
        return Err(AssetraError::InsufficientListedBalance);
    }
    Ok(Listing { track: track_key, seller, mint, price_per_token, amount, nonce, bump })
}

} // verus!

//! Withdrawing a resale listing.
use vstd::prelude::*;

use crate::address::Address;
use crate::errors::AssetraError;
use crate::state::listing::Listing;

verus! {

/// Lets the listing's seller, and nobody else, withdraw it; the caller revokes
/// the listing's delegation and closes it, returning its rent to the seller.
/// The tokens never left the seller's account, so nothing moves back.
pub fn handler(listing: &Listing, seller: Address) -> (r: Result<(), AssetraError>)
    ensures
        if listing.seller@ != seller@ {
            r == Err::<(), AssetraError>(AssetraError::Unauthorized)
        } else {
            r == Ok::<(), AssetraError>(())
        },
{
    if !listing.seller.same_as(&seller) {
        return Err(AssetraError::Unauthorized);
    }
    Ok(())
}

} // verus!

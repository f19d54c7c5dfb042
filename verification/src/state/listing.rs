//! An offer to resell tokens of a track.
use vstd::prelude::*;

use crate::address::Address;

verus! {

/// Tokens a seller offers at a price per token; the nonce tells apart the
/// listings of one seller for one track.
pub struct Listing {
    pub track: Address,
    pub seller: Address,
    pub mint: Address,
    pub price_per_token: u64,
    pub amount: u64,
    pub nonce: u64,
    pub bump: u8,
}

/// Bytes a listing account takes: tag, three addresses, price, amount, nonce, bump.
pub const LISTING_SPACE: usize = 8 + 32 + 32 + 32 + 8 + 8 + 8 + 1;

} // verus!

//! A creator's on-chain identity.
use vstd::prelude::*;

use crate::address::Address;
use crate::constants::{MAX_ATTESTATION_LEN, MAX_DISPLAY_NAME_LEN};

verus! {

/// A registered creator and the number of tracks they have created.
pub struct CreatorProfile {
    pub authority: Address,
    pub display_name: String,
    pub rights_attestation: String,
    pub self_attested: bool,
    pub admin_verified: bool,
    pub track_count: u64,
    pub created_at: i64,
    pub bump: u8,
}

/// Bytes a creator profile account takes: tag, authority, both texts at their
/// limits with their length prefixes, two flags, the track count, the
/// creation time and the bump.
pub const CREATOR_PROFILE_SPACE: usize = 8 + 32 + (4 + MAX_DISPLAY_NAME_LEN) + (4 + MAX_ATTESTATION_LEN) + 1 + 1 + 8 + 8 + 1;

} // verus!

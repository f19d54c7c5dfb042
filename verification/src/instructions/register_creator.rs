//! Registering a creator profile.
use vstd::prelude::*;

use crate::address::Address;
use crate::constants::{MAX_ATTESTATION_LEN, MAX_DISPLAY_NAME_LEN};
use crate::errors::AssetraError;
use crate::state::creator_profile::CreatorProfile;
use crate::state::{byte_len, text_len};

verus! {

/// The first check that registration fails on, if any.
pub open spec fn register_creator_error(display_name: Seq<char>, rights_attestation: Seq<char>) -> Option<AssetraError> {
    if byte_len(display_name) > MAX_DISPLAY_NAME_LEN {
        Some(AssetraError::DisplayNameTooLong)
    } else if byte_len(rights_attestation) > MAX_ATTESTATION_LEN {
        Some(AssetraError::AttestationTooLong)
    } else {
        None
    }
}

/// Creates the profile of `authority`: self-attested, not yet verified by an
/// administrator, with no tracks. Refuses a display name or an attestation
/// over its length limit.
pub fn handler(
    authority: Address,
    display_name: String,
    rights_attestation: String,
    created_at: i64,
    bump: u8,
) -> (r: Result<CreatorProfile, AssetraError>)
    ensures
        match register_creator_error(display_name@, rights_attestation@) {
            Some(e) => r == Err::<CreatorProfile, AssetraError>(e),
            None => r == Ok::<CreatorProfile, AssetraError>(
                (CreatorProfile {
                    authority,
                    display_name,
                    rights_attestation,
                    self_attested: true,
                    admin_verified: false,
                    track_count: 0,
                    created_at,
                    bump,
                }),
            ),
        },
{
    if text_len(&display_name) > MAX_DISPLAY_NAME_LEN {
        return Err(AssetraError::DisplayNameTooLong);
    }
    if text_len(&rights_attestation) > MAX_ATTESTATION_LEN {
        return Err(AssetraError::AttestationTooLong);
    }
    Ok(
        CreatorProfile {
            authority,
            display_name,
            rights_attestation,
            self_attested: true,
            admin_verified: false,
            track_count: 0,
            created_at,
            bump,
        },
    )
}

} // verus!

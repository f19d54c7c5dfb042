//! Seeds, field limits and fixed-point scale shared by the instructions.
use vstd::prelude::*;

verus! {

/// Seed prefix of a creator's profile account: the ASCII bytes of `creator_profile`.
pub const SEED_CREATOR_PROFILE: [u8; 15] = [99, 114, 101, 97, 116, 111, 114, 95, 112, 114, 111, 102, 105, 108, 101];
/// Seed prefix of a track account: `track`.
pub const SEED_TRACK: [u8; 5] = [116, 114, 97, 99, 107];
/// Seed prefix of a track's token mint: `mint`.
pub const SEED_MINT: [u8; 4] = [109, 105, 110, 116];
/// Seed prefix of the vault that holds a track's unsold tokens: `vault`.
pub const SEED_VAULT: [u8; 5] = [118, 97, 117, 108, 116];
/// Seed prefix of a track's revenue pool: `revenue_pool`.
pub const SEED_REVENUE_POOL: [u8; 12] = [114, 101, 118, 101, 110, 117, 101, 95, 112, 111, 111, 108];
/// Seed prefix of a holder's position in a track: `holder_position`.
pub const SEED_HOLDER_POSITION: [u8; 15] = [104, 111, 108, 100, 101, 114, 95, 112, 111, 115, 105, 116, 105, 111, 110];
/// Seed prefix of a resale listing: `listing`.
pub const SEED_LISTING: [u8; 7] = [108, 105, 115, 116, 105, 110, 103];

/// Longest display name a creator may register, in bytes.
pub const MAX_DISPLAY_NAME_LEN: usize = 64;
/// Longest rights attestation a creator may register, in bytes.
pub const MAX_ATTESTATION_LEN: usize = 256;
/// Longest track title, in bytes.
pub const MAX_TITLE_LEN: usize = 128;
/// Longest ISRC code, in bytes.
pub const MAX_ISRC_LEN: usize = 12;
/// Longest cover-art or audio-preview URI, in bytes.
pub const MAX_URI_LEN: usize = 200;

/// Fixed-point scale of the per-token reward accumulator.
pub const REVENUE_PRECISION: u128 = 1_000_000_000_000;

/// Basis points in one whole (100%).
pub const BPS_DENOMINATOR: u16 = 10_000;

} // verus!

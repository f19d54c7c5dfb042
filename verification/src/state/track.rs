//! A track, its tokenization terms and its place in the minting lifecycle.
use vstd::prelude::*;

use crate::address::Address;
use crate::constants::{BPS_DENOMINATOR, MAX_ISRC_LEN, MAX_TITLE_LEN, MAX_URI_LEN};
use crate::errors::AssetraError;

verus! {

/// Where a track stands: configured but not yet minted, or minted.
#[derive(Clone, Copy, Debug, PartialEq, Eq, Structural)]
pub enum TrackStatus {
    Configured,
    Minted,
}

/// A track registered by a creator, with the terms on which its revenue is tokenized.
pub struct Track {
    pub creator: Address,
    pub track_id: u64,
    pub title: String,
    pub isrc: String,
    pub cover_art_uri: String,
    pub audio_preview_uri: String,
    pub declared_annual_revenue: u64,
    pub tokenized_bps: u16,
    pub valuation_multiple_bps: u32,
    pub token_supply: u64,
    pub mint: Option<Address>,
    pub vault: Option<Address>,
    pub status: TrackStatus,
    pub created_at: i64,
    pub bump: u8,
}

/// Bytes a track account takes: tag, creator, id, the four texts at their
/// limits with length prefixes, the terms, the optional mint and vault, the
/// status, the creation time and the bump.
pub const TRACK_SPACE: usize = 8 + 32 + 8 + (4 + MAX_TITLE_LEN) + (4 + MAX_ISRC_LEN) + (4 + MAX_URI_LEN) + (4 + MAX_URI_LEN) + 8 + 2 + 4 + 8 + (1 + 32) + (1 + 32) + 1 + 8 + 1;

impl Track {
    /// The terms that track creation checks, and the link between the status
    /// and the presence of a mint and a vault.
    pub open spec fn wf(&self) -> bool {
        &&& self.declared_annual_revenue > 0
        &&& 0 < self.tokenized_bps <= BPS_DENOMINATOR
        &&& self.valuation_multiple_bps > 0
        &&& self.token_supply > 0
        &&& (self.status == TrackStatus::Minted <==> (self.mint is Some && self.vault is Some))
    }

    /// Whether two states of a track agree on everything that minting does not change.
    pub open spec fn same_terms(&self, other: &Track) -> bool {
        &&& self.creator == other.creator
        &&& self.track_id == other.track_id
        &&& self.title == other.title
        &&& self.isrc == other.isrc
        &&& self.cover_art_uri == other.cover_art_uri
        &&& self.audio_preview_uri == other.audio_preview_uri
        &&& self.declared_annual_revenue == other.declared_annual_revenue
        &&& self.tokenized_bps == other.tokenized_bps
        &&& self.valuation_multiple_bps == other.valuation_multiple_bps
        &&& self.token_supply == other.token_supply
        &&& self.created_at == other.created_at
        &&& self.bump == other.bump
    }

    /// Whether a token account of the given mint holds this track's tokens.
    pub open spec fn mint_is(&self, mint: Address) -> bool {
        self.mint matches Some(m) && m@ == mint@
    }

    /// The check of instructions that only the track's creator may run, and
    /// only in one status: first the signer, then the status.
    pub open spec fn creator_status_error(&self, authority: Address, expected: TrackStatus) -> Option<AssetraError> {
        if self.creator@ != authority@ {
            Some(AssetraError::Unauthorized)
        } else if self.status != expected {
            Some(AssetraError::InvalidTrackStatus)
        } else {
            None
        }
    }

    /// Refuses a signer other than the creator, then a status other than `expected`.
    pub fn check_creator_and_status(&self, authority: &Address, expected: TrackStatus) -> (r: Result<(), AssetraError>)
        ensures
            match self.creator_status_error(*authority, expected) {
                Some(e) => r == Err::<(), AssetraError>(e),
                None => r == Ok::<(), AssetraError>(()),
            },
    {
        if !self.creator.same_as(authority) {
            return Err(AssetraError::Unauthorized);
        }
        if self.status != expected {
            return Err(AssetraError::InvalidTrackStatus);
        }
        Ok(())
    }

    /// Whether a token account of mint `mint` holds this track's tokens.
    pub fn has_mint(&self, mint: &Address) -> (r: bool)
        ensures
            r == self.mint_is(*mint),
    {
        match &self.mint {
            Some(m) => m.same_as(mint),
            None => false,
        }
    }
}

} // verus!

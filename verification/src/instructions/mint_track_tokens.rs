//! Minting a configured track's whole supply into its vault.
use vstd::prelude::*;

use crate::address::Address;
use crate::errors::AssetraError;
use crate::laws::track_step;
use crate::state::track::{Track, TrackStatus};

verus! {

/// Marks the track minted with the given mint and vault and returns the
/// number of tokens to mint into the vault: the whole supply. Only the
/// creator may mint, and only a configured track; a refused call leaves the
/// track as it was.
pub fn handler(track: &mut Track, authority: Address, mint: Address, vault: Address) -> (r: Result<u64, AssetraError>)
    ensures
        match old(track).creator_status_error(authority, TrackStatus::Configured) {
            Some(e) => {
                &&& r == Err::<u64, AssetraError>(e)
                &&& *final(track) == *old(track)
            },
            None => {
                &&& r == Ok::<u64, AssetraError>(old(track).token_supply)
                &&& final(track).mint == Some(mint)
                &&& final(track).vault == Some(vault)
                &&& final(track).status == TrackStatus::Minted
                &&& final(track).same_terms(&*old(track))
            },
        },
        old(track).wf() ==> final(track).wf(),
        track_step(*old(track), *final(track)),
{
    match track.check_creator_and_status(&authority, TrackStatus::Configured) {
        Err(e) => Err(e),
        Ok(()) => {
            track.mint = Some(mint);
            track.vault = Some(vault);
            track.status = TrackStatus::Minted;
            Ok(track.token_supply)
        },
    }
}

} // verus!

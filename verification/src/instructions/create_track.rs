//! Creating a track with its metadata and tokenization terms in one step.
use vstd::prelude::*;

use crate::constants::{BPS_DENOMINATOR, MAX_ISRC_LEN, MAX_TITLE_LEN, MAX_URI_LEN};
use crate::errors::AssetraError;
use crate::state::creator_profile::CreatorProfile;
use crate::state::track::{Track, TrackStatus};
use crate::state::{byte_len, text_len};

verus! {

/// What one creation attempt does to a profile, as the handler states it: a
/// refused attempt leaves the profile as it was; an accepted one returns a
/// track of the profile's authority numbered with the profile's count, and
/// raises the count by one without changing the authority.
pub open spec fn creation_step(before: CreatorProfile, after: CreatorProfile, r: Result<Track, AssetraError>) -> bool {
    match r {
        Err(_) => after == before,
        Ok(t) => {
            &&& t.track_id == before.track_count
            &&& t.creator == before.authority
            &&& after.track_count == before.track_count + 1
            &&& after.authority == before.authority
        },
    }
}

/// The first check that track creation fails on, if any.
pub open spec fn create_track_error(
    title: Seq<char>,
    isrc: Seq<char>,
    cover_art_uri: Seq<char>,
    audio_preview_uri: Seq<char>,
    declared_annual_revenue: u64,
    tokenized_bps: u16,
    valuation_multiple_bps: u32,
    token_supply: u64,
) -> Option<AssetraError> {
    if byte_len(title) > MAX_TITLE_LEN {
        Some(AssetraError::TitleTooLong)
    } else if byte_len(isrc) > MAX_ISRC_LEN {
        Some(AssetraError::IsrcTooLong)
    } else if byte_len(cover_art_uri) > MAX_URI_LEN {
        Some(AssetraError::UriTooLong)
    } else if byte_len(audio_preview_uri) > MAX_URI_LEN {
        Some(AssetraError::UriTooLong)
    } else if declared_annual_revenue == 0 {
        Some(AssetraError::InvalidDeclaredRevenue)
    } else if !(0 < tokenized_bps <= BPS_DENOMINATOR) {
        Some(AssetraError::InvalidTokenizedBps)
    } else if valuation_multiple_bps == 0 {
        Some(AssetraError::InvalidValuationMultiple)
    } else if token_supply == 0 {
        Some(AssetraError::InvalidTokenSupply)
    } else {
        None
    }
}

/// Checks the texts and terms of a new track, in the order track creation does.
pub fn check_terms(
    title: &String,
    isrc: &String,
    cover_art_uri: &String,
    audio_preview_uri: &String,
    declared_annual_revenue: u64,
    tokenized_bps: u16,
    valuation_multiple_bps: u32,
    token_supply: u64,
) -> (r: Result<(), AssetraError>)
    ensures
        match create_track_error(
            title@,
            isrc@,
            cover_art_uri@,
            audio_preview_uri@,
            declared_annual_revenue,
            tokenized_bps,
            valuation_multiple_bps,
            token_supply,
        ) {
            Some(e) => r == Err::<(), AssetraError>(e),
            None => r == Ok::<(), AssetraError>(()),
        },
{
    if text_len(title) > MAX_TITLE_LEN {
        return Err(AssetraError::TitleTooLong);
    }
    if text_len(isrc) > MAX_ISRC_LEN {
        return Err(AssetraError::IsrcTooLong);
    }
    if text_len(cover_art_uri) > MAX_URI_LEN {
        return Err(AssetraError::UriTooLong);
    }
    if text_len(audio_preview_uri) > MAX_URI_LEN {
        return Err(AssetraError::UriTooLong);
    }
    if declared_annual_revenue == 0 {
        return Err(AssetraError::InvalidDeclaredRevenue);
    }
    if !(tokenized_bps > 0 && tokenized_bps <= BPS_DENOMINATOR) {
        return Err(AssetraError::InvalidTokenizedBps);
    }
    if valuation_multiple_bps == 0 {
        return Err(AssetraError::InvalidValuationMultiple);
    }
    if token_supply == 0 {
        return Err(AssetraError::InvalidTokenSupply);
    }
    Ok(())
}

/// Creates the next track of the creator whose profile is given: the track
/// takes the profile's track count as its id, starts configured with no mint
/// and no vault, and the count goes up by one. Refuses, in this order, texts
/// over their limits, a zero revenue, tokenized basis points outside 1..=10000,
/// a zero valuation multiple and a zero supply; a refused call leaves the
/// profile as it was.
pub fn handler(
    creator_profile: &mut CreatorProfile,
    title: String,
    isrc: String,
    cover_art_uri: String,
    audio_preview_uri: String,
    declared_annual_revenue: u64,
    tokenized_bps: u16,
    valuation_multiple_bps: u32,
    token_supply: u64,
    created_at: i64,
    bump: u8,
) -> (r: Result<Track, AssetraError>)
    requires
        create_track_error(
            title@,
            isrc@,
            cover_art_uri@,
            audio_preview_uri@,
            declared_annual_revenue,
            tokenized_bps,
            valuation_multiple_bps,
            token_supply,
        ) is None ==> old(creator_profile).track_count < u64::MAX,
    ensures
        match create_track_error(
            title@,
            isrc@,
            cover_art_uri@,
            audio_preview_uri@,
            declared_annual_revenue,
            tokenized_bps,
            valuation_multiple_bps,
            token_supply,
        ) {
            Some(e) => {
                &&& r == Err::<Track, AssetraError>(e)
                &&& *final(creator_profile) == *old(creator_profile)
            },
            None => {
                &&& r == Ok::<Track, AssetraError>(
                    (Track {
                        creator: old(creator_profile).authority,
                        track_id: old(creator_profile).track_count,
                        title,
                        isrc,
                        cover_art_uri,
                        audio_preview_uri,
                        declared_annual_revenue,
                        tokenized_bps,
                        valuation_multiple_bps,
                        token_supply,
                        mint: None,
                        vault: None,
                        status: TrackStatus::Configured,
                        created_at,
                        bump,
                    }),
                )
                &&& final(creator_profile).track_count == old(creator_profile).track_count + 1
                &&& final(creator_profile).authority == old(creator_profile).authority
                &&& final(creator_profile).display_name == old(creator_profile).display_name
                &&& final(creator_profile).rights_attestation == old(creator_profile).rights_attestation
                &&& final(creator_profile).self_attested == old(creator_profile).self_attested
                &&& final(creator_profile).admin_verified == old(creator_profile).admin_verified
                &&& final(creator_profile).created_at == old(creator_profile).created_at
                &&& final(creator_profile).bump == old(creator_profile).bump
            },
        },
        r matches Ok(t) ==> t.wf() && t.status == TrackStatus::Configured,
        creation_step(*old(creator_profile), *final(creator_profile), r),
{
    check_terms(
        &title,
        &isrc,
        &cover_art_uri,
        &audio_preview_uri,
        declared_annual_revenue,
        tokenized_bps,
        valuation_multiple_bps,
        token_supply,
    )?;
    let track_id = creator_profile.track_count;
    let track = Track {
        creator: creator_profile.authority,
        track_id,
        title,
        isrc,
        cover_art_uri,
        audio_preview_uri,
        declared_annual_revenue,
        tokenized_bps,
        valuation_multiple_bps,
        token_supply,
        mint: None,
        vault: None,
        status: TrackStatus::Configured,
        created_at,
        bump,
    };
    creator_profile.track_count = track_id + 1;
    Ok(track)
}

} // verus!

use std::str::FromStr;

use anchor_lang::prelude::Pubkey;
use assetra::address::Address;
use assetra::constants::MAX_DISPLAY_NAME_LEN;
use assetra::errors::AssetraError;
use assetra::instructions::{create_track, register_creator};
use assetra::pda::track_pda;
use assetra::state::creator_profile::CreatorProfile;
use assetra::state::track::{Track, TrackStatus};

const PROGRAM_ID: &str = "4d12U8m27YFKwReRAsRQKrF7aoJ5W8mz3FsVYGUXJLAG";

fn creator_key() -> Address {
    Address::new([7u8; 32])
}

fn program_key() -> Address {
    Address::new(Pubkey::from_str(PROGRAM_ID).unwrap().to_bytes())
}

fn registered(attestation: &str) -> CreatorProfile {
    register_creator::handler(creator_key(), "Test Artist".to_string(), attestation.to_string(), 1_700_000_000, 254)
        .unwrap()
}

fn make_track(
    profile: &mut CreatorProfile,
    title: &str,
    isrc: &str,
    cover: &str,
    preview: &str,
    revenue: u64,
    bps: u16,
    multiple: u32,
    supply: u64,
) -> Result<Track, AssetraError> {
    create_track::handler(
        profile,
        title.to_string(),
        isrc.to_string(),
        cover.to_string(),
        preview.to_string(),
        revenue,
        bps,
        multiple,
        supply,
        1_700_000_100,
        253,
    )
}

fn check_registered_profile(profile: &CreatorProfile) {
    assert!(profile.authority.bytes == creator_key().bytes);
    assert_eq!(profile.display_name, "Test Artist");
    assert_eq!(profile.rights_attestation, "I own the master and publishing for my catalog.");
    assert!(profile.self_attested);
    assert!(!profile.admin_verified);
    assert_eq!(profile.track_count, 0);
}

fn check_created_track(profile: &mut CreatorProfile) {
    let track = make_track(
        profile,
        "Midnight Drive",
        "USRC17600001",
        "https://example.com/cover.png",
        "https://example.com/preview.mp3",
        500_000,
        2000,
        500,
        100_000,
    )
    .unwrap();
    assert_eq!(track.track_id, 0);
    assert_eq!(track.title, "Midnight Drive");
    assert_eq!(track.tokenized_bps, 2000);
    assert_eq!(track.valuation_multiple_bps, 500);
    assert_eq!(track.token_supply, 100_000);
    assert!(track.mint.is_none());
    assert_eq!(track.status, TrackStatus::Configured);
    assert_eq!(profile.track_count, 1);
}

fn check_zero_bps_rejected(profile: &mut CreatorProfile) {
    let err = make_track(profile, "Midnight Drive", "USRC17600001", "uri", "uri", 500_000, 0, 500, 100_000)
        .err()
        .expect("expected zero tokenized_bps to be rejected");
    assert_eq!(err, AssetraError::InvalidTokenizedBps);
    assert_eq!(profile.track_count, 0);
}

#[test]
fn identity_register_creator_succeeds_and_sets_expected_fields() {
    let profile = registered("I own the master and publishing for my catalog.");
    check_registered_profile(&profile);
}

#[test]
fn identity_register_creator_rejects_oversized_display_name() {
    let too_long = "x".repeat(MAX_DISPLAY_NAME_LEN + 1);
    let err = register_creator::handler(creator_key(), too_long, "ok".to_string(), 0, 255)
        .err()
        .expect("expected oversized display_name to be rejected");
    assert_eq!(err, AssetraError::DisplayNameTooLong);
    assert_eq!(err.code(), 6000);
}

#[test]
fn identity_create_track_sets_metadata_and_tokenization_in_one_call() {
    let mut profile = registered("self-attested");
    check_created_track(&mut profile);
}

#[test]
fn identity_create_track_rejects_zero_tokenized_bps() {
    let mut profile = registered("self-attested");
    check_zero_bps_rejected(&mut profile);
}

#[test]
fn step1_identity_register_creator_succeeds_and_sets_expected_fields() {
    let profile = registered("I own the master and publishing for my catalog.");
    check_registered_profile(&profile);
}

#[test]
fn step1_identity_register_creator_rejects_oversized_display_name() {
    let too_long = "x".repeat(MAX_DISPLAY_NAME_LEN + 1);
    let result = register_creator::handler(creator_key(), too_long, "ok".to_string(), 0, 255);
    assert!(result.is_err(), "expected oversized display_name to be rejected");
}

#[test]
fn step1_identity_create_track_sets_metadata_and_tokenization_in_one_call() {
    let mut profile = registered("self-attested");
    check_created_track(&mut profile);
}

#[test]
fn step1_identity_create_track_rejects_zero_tokenized_bps() {
    let mut profile = registered("self-attested");
    let result = make_track(&mut profile, "Midnight Drive", "USRC17600001", "uri", "uri", 500_000, 0, 500, 100_000);
    assert!(result.is_err(), "expected zero tokenized_bps to be rejected");
}

#[test]
fn second_track_from_same_creator_gets_distinct_pda() {
    let mut profile = registered("self-attested");
    let first = make_track(&mut profile, "Track One", "USRC17600001", "uri", "uri", 100_000, 2000, 500, 50_000).unwrap();
    let (track_0, _) = track_pda(&program_key(), &creator_key(), first.track_id).unwrap();
    let (track_1, _) = track_pda(&program_key(), &creator_key(), profile.track_count).unwrap();
    assert_ne!(track_0.bytes, track_1.bytes, "sequential track_ids must derive distinct PDAs");
    let second = make_track(&mut profile, "Track Two", "USRC17600002", "uri", "uri", 200_000, 1500, 600, 75_000).unwrap();
    assert_eq!(second.track_id, 1);
    assert_eq!(profile.track_count, 2);
}

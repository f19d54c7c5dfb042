use assetra::address::Address;
use assetra::constants::{MAX_ATTESTATION_LEN, MAX_DISPLAY_NAME_LEN, MAX_ISRC_LEN, MAX_TITLE_LEN, MAX_URI_LEN};
use assetra::errors::AssetraError;
use assetra::instructions::{
    cancel_resale, create_track, deposit_revenue, initialize_revenue_pool, list_resale, mint_track_tokens,
    register_creator,
};
use assetra::state::creator_profile::CreatorProfile;
use assetra::state::track::{Track, TrackStatus};
use assetra::state::text_len;

fn owner() -> Address {
    Address::new([11u8; 32])
}

fn stranger() -> Address {
    Address::new([12u8; 32])
}

fn profile() -> CreatorProfile {
    register_creator::handler(owner(), "Artist".to_string(), "mine".to_string(), 5, 200).unwrap()
}

fn try_track(
    p: &mut CreatorProfile,
    title: String,
    isrc: String,
    cover: String,
    preview: String,
    revenue: u64,
    bps: u16,
    multiple: u32,
    supply: u64,
) -> Result<Track, AssetraError> {
    create_track::handler(p, title, isrc, cover, preview, revenue, bps, multiple, supply, 9, 201)
}

fn valid_track(p: &mut CreatorProfile) -> Track {
    try_track(p, "T".to_string(), "USRC17600001".to_string(), "c".to_string(), "a".to_string(), 500_000, 2000, 500, 100_000)
        .unwrap()
}

#[test]
fn error_codes_follow_declaration_order() {
    assert_eq!(AssetraError::DisplayNameTooLong.code(), 6000);
    assert_eq!(AssetraError::NothingToClaim.code(), 6012);
    assert_eq!(AssetraError::InsufficientRevenuePoolBalance.code(), 6013);
    assert_eq!(AssetraError::InsufficientListedBalance.code(), 6018);
}

#[test]
fn text_length_counts_utf8_bytes() {
    assert_eq!(text_len(&"abc".to_string()), 3);
    assert_eq!(text_len(&"é".to_string()), 2);
    assert_eq!(text_len(&"♫".to_string()), 3);
}

#[test]
fn register_creator_limits_are_in_bytes() {
    let at_limit = "é".repeat(MAX_DISPLAY_NAME_LEN / 2);
    let ok = register_creator::handler(owner(), at_limit, "x".to_string(), 0, 1).unwrap();
    assert_eq!(ok.track_count, 0);
    assert_eq!(ok.created_at, 0);
    assert_eq!(ok.bump, 1);
    let over = "é".repeat(MAX_DISPLAY_NAME_LEN / 2 + 1);
    let err = register_creator::handler(owner(), over, "x".to_string(), 0, 1).err().unwrap();
    assert_eq!(err, AssetraError::DisplayNameTooLong);
}

#[test]
fn register_creator_rejects_long_attestation_after_name() {
    let long = "a".repeat(MAX_ATTESTATION_LEN + 1);
    let err = register_creator::handler(owner(), "ok".to_string(), long.clone(), 0, 1).err().unwrap();
    assert_eq!(err, AssetraError::AttestationTooLong);
    let both = register_creator::handler(owner(), "n".repeat(MAX_DISPLAY_NAME_LEN + 1), long, 0, 1).err().unwrap();
    assert_eq!(both, AssetraError::DisplayNameTooLong);
    let exact = register_creator::handler(owner(), "ok".to_string(), "a".repeat(MAX_ATTESTATION_LEN), 0, 1);
    assert!(exact.is_ok());
}

#[test]
fn create_track_rejects_each_bad_term_in_order() {
    let mut p = profile();
    let s = |x: &str| x.to_string();
    let cases: Vec<(Result<Track, AssetraError>, AssetraError)> = vec![
        (try_track(&mut p, "t".repeat(MAX_TITLE_LEN + 1), s("i"), s("c"), s("a"), 1, 1, 1, 1), AssetraError::TitleTooLong),
        (try_track(&mut p, s("t"), "i".repeat(MAX_ISRC_LEN + 1), s("c"), s("a"), 1, 1, 1, 1), AssetraError::IsrcTooLong),
        (try_track(&mut p, s("t"), s("i"), "c".repeat(MAX_URI_LEN + 1), s("a"), 1, 1, 1, 1), AssetraError::UriTooLong),
        (try_track(&mut p, s("t"), s("i"), s("c"), "a".repeat(MAX_URI_LEN + 1), 1, 1, 1, 1), AssetraError::UriTooLong),
        (try_track(&mut p, s("t"), s("i"), s("c"), s("a"), 0, 0, 0, 0), AssetraError::InvalidDeclaredRevenue),
        (try_track(&mut p, s("t"), s("i"), s("c"), s("a"), 1, 10_001, 1, 1), AssetraError::InvalidTokenizedBps),
        (try_track(&mut p, s("t"), s("i"), s("c"), s("a"), 1, 1, 0, 1), AssetraError::InvalidValuationMultiple),
        (try_track(&mut p, s("t"), s("i"), s("c"), s("a"), 1, 1, 1, 0), AssetraError::InvalidTokenSupply),
    ];
    for (result, expected) in cases {
        assert_eq!(result.err().unwrap(), expected);
    }
    assert_eq!(p.track_count, 0);
    let full = try_track(&mut p, s("t"), s("i"), s("c"), s("a"), 1, 10_000, 1, 1).unwrap();
    assert_eq!(full.tokenized_bps, 10_000);
    assert_eq!(full.created_at, 9);
    assert_eq!(full.bump, 201);
    assert!(full.creator.same_as(&owner()));
    assert_eq!(p.track_count, 1);
}

#[test]
fn only_the_creator_mints_and_only_once() {
    let mut p = profile();
    let mut track = valid_track(&mut p);
    let m = Address::new([20u8; 32]);
    let v = Address::new([21u8; 32]);
    assert_eq!(mint_track_tokens::handler(&mut track, stranger(), m, v).err().unwrap(), AssetraError::Unauthorized);
    assert_eq!(track.status, TrackStatus::Configured);
    assert!(track.mint.is_none());
    assert_eq!(mint_track_tokens::handler(&mut track, owner(), m, v).unwrap(), 100_000);
    assert_eq!(mint_track_tokens::handler(&mut track, stranger(), m, v).err().unwrap(), AssetraError::Unauthorized);
}

#[test]
fn revenue_pool_needs_the_creator_and_a_minted_track() {
    let mut p = profile();
    let mut track = valid_track(&mut p);
    let key = Address::new([30u8; 32]);
    let err = initialize_revenue_pool::handler(&track, key, owner(), 7).err().unwrap();
    assert_eq!(err, AssetraError::InvalidTrackStatus);
    mint_track_tokens::handler(&mut track, owner(), Address::new([20u8; 32]), Address::new([21u8; 32])).unwrap();
    let err = initialize_revenue_pool::handler(&track, key, stranger(), 7).err().unwrap();
    assert_eq!(err, AssetraError::Unauthorized);
    let pool = initialize_revenue_pool::handler(&track, key, owner(), 7).unwrap();
    assert!(pool.track.same_as(&key));
    assert_eq!(pool.total_deposited, 0);
    assert_eq!(pool.accumulated_rewards_per_token, 0);
    assert_eq!(pool.bump, 7);
}

#[test]
fn deposit_checks_and_rounding() {
    let mut p = profile();
    let mut track = try_track(&mut p, "t".to_string(), "i".to_string(), "c".to_string(), "a".to_string(), 1, 1, 1, 3).unwrap();
    mint_track_tokens::handler(&mut track, owner(), Address::new([20u8; 32]), Address::new([21u8; 32])).unwrap();
    let mut pool = initialize_revenue_pool::handler(&track, Address::new([30u8; 32]), owner(), 7).unwrap();
    assert_eq!(deposit_revenue::handler(&track, &mut pool, owner(), 0).err().unwrap(), AssetraError::InvalidDepositAmount);
    assert_eq!(deposit_revenue::handler(&track, &mut pool, stranger(), 5).err().unwrap(), AssetraError::Unauthorized);
    assert_eq!(pool.total_deposited, 0);
    deposit_revenue::handler(&track, &mut pool, owner(), 7).unwrap();
    assert_eq!(pool.accumulated_rewards_per_token, 2_333_333_333_333);
    deposit_revenue::handler(&track, &mut pool, owner(), 2).unwrap();
    assert_eq!(pool.accumulated_rewards_per_token, 2_333_333_333_333 + 666_666_666_666);
    assert_eq!(pool.total_deposited, 9);
    // backed: acc * supply <= deposited * precision
    assert!(pool.accumulated_rewards_per_token * 3 <= 9 * 1_000_000_000_000);
}

#[test]
fn deposit_refused_before_minting() {
    let mut p = profile();
    let track = valid_track(&mut p);
    let mut pool = assetra::state::revenue_pool::RevenuePool {
        track: Address::new([30u8; 32]),
        total_deposited: 0,
        accumulated_rewards_per_token: 0,
        bump: 1,
    };
    let err = deposit_revenue::handler(&track, &mut pool, owner(), 100).err().unwrap();
    assert_eq!(err, AssetraError::InvalidTrackStatus);
}

#[test]
fn listing_checks_in_order() {
    let t = Address::new([40u8; 32]);
    let m = Address::new([41u8; 32]);
    assert_eq!(list_resale::handler(t, owner(), m, 10, 0, 0, 1, 2).err().unwrap(), AssetraError::InvalidListingAmount);
    assert_eq!(list_resale::handler(t, owner(), m, 0, 5, 0, 1, 2).err().unwrap(), AssetraError::InvalidListingPrice);
    assert_eq!(list_resale::handler(t, owner(), m, 4, 5, 3, 1, 2).err().unwrap(), AssetraError::InsufficientListedBalance);
    let listing = list_resale::handler(t, owner(), m, 5, 5, 3, 9, 2).unwrap();
    assert_eq!(listing.amount, 5);
    assert_eq!(listing.price_per_token, 3);
    assert_eq!(listing.nonce, 9);
    assert_eq!(listing.bump, 2);
    assert!(listing.seller.same_as(&owner()));
    assert!(listing.mint.same_as(&m));
    assert!(listing.track.same_as(&t));
    assert_eq!(cancel_resale::handler(&listing, stranger()).err().unwrap(), AssetraError::Unauthorized);
    assert!(cancel_resale::handler(&listing, owner()).is_ok());
}

#[test]
fn addresses_compare_by_bytes() {
    let mut bytes = [0u8; 32];
    assert!(Address::new(bytes).is_zero());
    assert!(Address::zero().same_as(&Address::new(bytes)));
    bytes[31] = 1;
    assert!(!Address::new(bytes).is_zero());
    assert!(!Address::new(bytes).same_as(&Address::zero()));
}

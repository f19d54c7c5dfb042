use assetra::address::Address;
use assetra::errors::AssetraError;
use assetra::instructions::{
    claim_revenue, create_track, deposit_revenue, initialize_revenue_pool, mint_track_tokens, open_holder_position,
    register_creator,
};
use assetra::state::revenue_pool::RevenuePool;
use assetra::state::track::Track;

const POOL_RENT: u64 = 1_343_280;

fn artist() -> Address {
    Address::new([1u8; 32])
}

fn track_key() -> Address {
    Address::new([2u8; 32])
}

fn track_mint() -> Address {
    Address::new([4u8; 32])
}

fn holder() -> Address {
    Address::new([9u8; 32])
}

fn setup_minted_track_with_pool() -> (Track, RevenuePool) {
    let mut profile =
        register_creator::handler(artist(), "Artist".to_string(), "self-attested".to_string(), 0, 255).unwrap();
    let mut track = create_track::handler(
        &mut profile,
        "Track".to_string(),
        "USRC17600001".to_string(),
        "uri".to_string(),
        "uri".to_string(),
        500_000,
        2000,
        500,
        100_000,
        0,
        255,
    )
    .unwrap();
    mint_track_tokens::handler(&mut track, artist(), track_mint(), Address::new([5u8; 32])).unwrap();
    let pool = initialize_revenue_pool::handler(&track, track_key(), artist(), 254).unwrap();
    (track, pool)
}

#[test]
fn deposit_revenue_updates_accumulator_correctly() {
    let (track, mut pool) = setup_minted_track_with_pool();
    deposit_revenue::handler(&track, &mut pool, artist(), 1_000_000).unwrap();
    assert_eq!(pool.total_deposited, 1_000_000);
    assert_eq!(pool.accumulated_rewards_per_token, 10_000_000_000_000u128);
}

#[test]
fn holder_position_checkpoints_to_current_accumulator_not_zero() {
    let (track, mut pool) = setup_minted_track_with_pool();
    deposit_revenue::handler(&track, &mut pool, artist(), 1_000_000).unwrap();
    let position = open_holder_position::handler(&track, track_key(), holder(), track_mint(), &pool, 253).unwrap();
    assert_eq!(position.last_accumulated_rewards_per_token, pool.accumulated_rewards_per_token);
    assert_ne!(position.last_accumulated_rewards_per_token, 0);
}

#[test]
fn claim_revenue_pays_correct_pro_rata_share() {
    let (track, mut pool) = setup_minted_track_with_pool();
    let mut position = open_holder_position::handler(&track, track_key(), holder(), track_mint(), &pool, 253).unwrap();
    deposit_revenue::handler(&track, &mut pool, artist(), 1_000_000).unwrap();
    let paid = claim_revenue::handler(
        &track,
        &pool,
        &mut position,
        holder(),
        track_mint(),
        10_000,
        POOL_RENT + 1_000_000,
        POOL_RENT,
    )
    .unwrap();
    assert_eq!(paid, 100_000);
    assert_eq!(position.total_claimed, 100_000);
}

#[test]
fn claim_revenue_rejects_second_claim_with_nothing_new_accrued() {
    let (track, mut pool) = setup_minted_track_with_pool();
    let mut position = open_holder_position::handler(&track, track_key(), holder(), track_mint(), &pool, 253).unwrap();
    deposit_revenue::handler(&track, &mut pool, artist(), 1_000_000).unwrap();
    let lamports = POOL_RENT + 1_000_000;
    let paid =
        claim_revenue::handler(&track, &pool, &mut position, holder(), track_mint(), 10_000, lamports, POOL_RENT)
            .unwrap();
    let err = claim_revenue::handler(
        &track,
        &pool,
        &mut position,
        holder(),
        track_mint(),
        10_000,
        lamports - paid,
        POOL_RENT,
    )
    .err()
    .unwrap();
    assert_eq!(err, AssetraError::NothingToClaim);
}

use assetra::address::Address;
use assetra::errors::AssetraError;
use assetra::instructions::buy_tokens::quote;
use assetra::instructions::{buy_resale, buy_tokens, claim_revenue, deposit_revenue, open_holder_position};
use assetra::state::holder_position::HolderPosition;
use assetra::state::listing::Listing;
use assetra::state::revenue_pool::RevenuePool;
use assetra::state::track::{Track, TrackStatus};

fn key(b: u8) -> Address {
    Address::new([b; 32])
}

fn minted_track(revenue: u64, bps: u16, multiple: u32, supply: u64) -> Track {
    Track {
        creator: key(1),
        track_id: 0,
        title: "t".to_string(),
        isrc: "i".to_string(),
        cover_art_uri: "c".to_string(),
        audio_preview_uri: "a".to_string(),
        declared_annual_revenue: revenue,
        tokenized_bps: bps,
        valuation_multiple_bps: multiple,
        token_supply: supply,
        mint: Some(key(4)),
        vault: Some(key(5)),
        status: TrackStatus::Minted,
        created_at: 0,
        bump: 255,
    }
}

fn pool_at(acc: u128) -> RevenuePool {
    RevenuePool { track: key(2), total_deposited: 0, accumulated_rewards_per_token: acc, bump: 254 }
}

fn fresh() -> HolderPosition {
    HolderPosition {
        track: Address::zero(),
        holder: Address::zero(),
        reward_debt: 0,
        unclaimed_rewards: 0,
        total_claimed: 0,
        last_accumulated_rewards_per_token: 0,
        bump: 0,
    }
}

#[test]
fn purchase_price_follows_valuation() {
    let track = minted_track(500_000, 2000, 500, 100_000);
    // 500_000 * 500 * 2000 * 1000 / (1_000_000 * 100_000)
    assert_eq!(quote(&track, 1000).unwrap(), 5000);
    assert_eq!(quote(&track, 1).unwrap(), 5);
    let a = quote(&track, 333).unwrap();
    let b = quote(&track, 667).unwrap();
    assert!(a + b <= 5000 && 5000 <= a + b + 1);
}

#[test]
fn buy_tokens_checks_in_order() {
    let mut position = fresh();
    let pool = pool_at(0);
    let mut configured = minted_track(500_000, 2000, 500, 100_000);
    configured.status = TrackStatus::Configured;
    let r = buy_tokens::handler(&configured, key(2), key(9), 100, 0, &pool, &mut position, 3, 10);
    assert_eq!(r.err().unwrap(), AssetraError::InvalidTrackStatus);
    let track = minted_track(500_000, 2000, 500, 100_000);
    let r = buy_tokens::handler(&track, key(2), key(9), 100, 0, &pool, &mut position, 3, 0);
    assert_eq!(r.err().unwrap(), AssetraError::InvalidPurchaseAmount);
    let r = buy_tokens::handler(&track, key(2), key(9), 10, 0, &pool, &mut position, 3, 11);
    assert_eq!(r.err().unwrap(), AssetraError::InsufficientVaultSupply);
    let cheap = minted_track(1, 1, 1, 100_000);
    let r = buy_tokens::handler(&cheap, key(2), key(9), 10, 0, &pool, &mut position, 3, 1);
    assert_eq!(r.err().unwrap(), AssetraError::InvalidPurchaseAmount);
    assert!(position.is_new());
}

#[test]
fn buy_tokens_opens_then_settles_the_position() {
    let track = minted_track(500_000, 2000, 500, 100_000);
    let mut position = fresh();
    let price = buy_tokens::handler(&track, key(2), key(9), 100_000, 0, &pool_at(10_000_000_000_000), &mut position, 3, 100)
        .unwrap();
    assert_eq!(price, 500);
    assert!(position.track.same_as(&key(2)));
    assert!(position.holder.same_as(&key(9)));
    assert_eq!(position.bump, 3);
    assert_eq!(position.reward_debt, 100 * 10_000_000_000_000u128);
    assert_eq!(position.unclaimed_rewards, 0);
    assert_eq!(position.last_accumulated_rewards_per_token, 10_000_000_000_000);
    let price = buy_tokens::handler(&track, key(2), key(9), 99_900, 100, &pool_at(20_000_000_000_000), &mut position, 7, 50)
        .unwrap();
    assert_eq!(price, 250);
    assert_eq!(position.unclaimed_rewards, 1000);
    assert_eq!(position.reward_debt, 150 * 20_000_000_000_000u128);
    assert_eq!(position.last_accumulated_rewards_per_token, 10_000_000_000_000);
    assert_eq!(position.bump, 3);
}

#[test]
fn settle_moves_accrual_into_unclaimed() {
    let mut position = fresh();
    position.track = key(2);
    position.reward_debt = 5_000_000_000_000;
    position.settle(10, 1_000_000_000_000);
    assert_eq!(position.unclaimed_rewards, 5);
    assert_eq!(position.reward_debt, 10_000_000_000_000);
    position.settle(10, 1_000_000_000_000);
    assert_eq!(position.unclaimed_rewards, 5);
    position.settle(2, 1_000_000_000_000);
    assert_eq!(position.unclaimed_rewards, 5);
    assert_eq!(position.reward_debt, 2_000_000_000_000);
}

#[test]
fn buy_resale_moves_the_reward_base() {
    let listing = Listing { track: key(2), seller: key(8), mint: key(4), price_per_token: 40, amount: 3, nonce: 0, bump: 6 };
    let pool = pool_at(4_000_000_000_000);
    let mut seller = fresh();
    seller.track = key(2);
    seller.holder = key(8);
    seller.reward_debt = 10 * 1_000_000_000_000;
    seller.last_accumulated_rewards_per_token = 1_000_000_000_000;
    let mut buyer = fresh();
    let same = buy_resale::handler(&listing, key(2), key(9), key(30), key(30), 10, 0, &pool, &mut seller, &mut buyer, 5);
    assert_eq!(same.err().unwrap(), AssetraError::Unauthorized);
    assert_eq!(seller.reward_debt, 10 * 1_000_000_000_000);
    let price =
        buy_resale::handler(&listing, key(2), key(9), key(31), key(30), 10, 0, &pool, &mut seller, &mut buyer, 5).unwrap();
    assert_eq!(price, 120);
    assert_eq!(seller.unclaimed_rewards, 30);
    assert_eq!(seller.reward_debt, 7 * 4_000_000_000_000);
    assert_eq!(buyer.reward_debt, 3 * 4_000_000_000_000);
    assert!(buyer.holder.same_as(&key(9)));
    assert_eq!(buyer.bump, 5);
    assert_eq!(seller.reward_debt + buyer.reward_debt, 10 * 4_000_000_000_000);
    assert_eq!(seller.last_accumulated_rewards_per_token, 1_000_000_000_000);
    assert_eq!(buyer.last_accumulated_rewards_per_token, 4_000_000_000_000);
    assert_eq!(buyer.unclaimed_rewards, 0);
}

#[test]
fn buy_resale_refuses_a_seller_without_the_tokens() {
    let listing = Listing { track: key(2), seller: key(8), mint: key(4), price_per_token: 40, amount: 3, nonce: 0, bump: 6 };
    let pool = pool_at(4_000_000_000_000);
    let mut seller = fresh();
    seller.track = key(2);
    let mut buyer = fresh();
    let r = buy_resale::handler(&listing, key(2), key(9), key(31), key(30), 2, 0, &pool, &mut seller, &mut buyer, 5);
    assert_eq!(r.err().unwrap(), AssetraError::InsufficientListedBalance);
    assert!(buyer.is_new());
    assert_eq!(seller.unclaimed_rewards, 0);
}

#[test]
fn a_purchase_after_a_deposit_collects_none_of_it() {
    let track = minted_track(500_000, 2000, 500, 100_000);
    let mut pool = pool_at(0);
    deposit_revenue::handler(&track, &mut pool, key(1), 1_000_000).unwrap();
    let mut position = fresh();
    buy_tokens::handler(&track, key(2), key(9), 100_000, 0, &pool, &mut position, 3, 10_000).unwrap();
    let r = claim_revenue::handler(&track, &pool, &mut position, key(9), key(4), 10_000, u64::MAX, 0);
    assert_eq!(r.err().unwrap(), AssetraError::NothingToClaim);
    deposit_revenue::handler(&track, &mut pool, key(1), 1_000_000).unwrap();
    let paid = claim_revenue::handler(&track, &pool, &mut position, key(9), key(4), 10_000, u64::MAX, 0).unwrap();
    assert_eq!(paid, 100_000);
}

#[test]
fn a_resold_stake_is_not_paid_twice() {
    let track = minted_track(500_000, 2000, 500, 100_000);
    let mut pool = pool_at(0);
    let mut seller = open_holder_position::handler(&track, key(2), key(8), key(4), &pool, 1).unwrap();
    deposit_revenue::handler(&track, &mut pool, key(1), 1_000_000).unwrap();
    let paid = claim_revenue::handler(&track, &pool, &mut seller, key(8), key(4), 10_000, u64::MAX, 0).unwrap();
    assert_eq!(paid, 100_000);
    let listing = Listing { track: key(2), seller: key(8), mint: key(4), price_per_token: 1, amount: 10_000, nonce: 0, bump: 6 };
    let mut buyer = fresh();
    buy_resale::handler(&listing, key(2), key(9), key(31), key(30), 10_000, 0, &pool, &mut seller, &mut buyer, 5).unwrap();
    let r = claim_revenue::handler(&track, &pool, &mut buyer, key(9), key(4), 10_000, u64::MAX, 0);
    assert_eq!(r.err().unwrap(), AssetraError::NothingToClaim);
    let r = claim_revenue::handler(&track, &pool, &mut seller, key(8), key(4), 0, u64::MAX, 0);
    assert_eq!(r.err().unwrap(), AssetraError::NothingToClaim);
}

#[test]
fn a_claim_pays_the_current_balance_and_leaves_settled_rewards() {
    let track = minted_track(500_000, 2000, 500, 100_000);
    let mut pool = pool_at(0);
    let mut seller = open_holder_position::handler(&track, key(2), key(8), key(4), &pool, 1).unwrap();
    deposit_revenue::handler(&track, &mut pool, key(1), 1_000_000).unwrap();
    let listing = Listing { track: key(2), seller: key(8), mint: key(4), price_per_token: 1, amount: 4_000, nonce: 0, bump: 6 };
    let mut buyer = fresh();
    buy_resale::handler(&listing, key(2), key(9), key(31), key(30), 10_000, 0, &pool, &mut seller, &mut buyer, 5).unwrap();
    assert_eq!(seller.unclaimed_rewards, 100_000);
    assert_eq!(seller.last_accumulated_rewards_per_token, 0);
    let paid = claim_revenue::handler(&track, &pool, &mut seller, key(8), key(4), 6_000, u64::MAX, 0).unwrap();
    assert_eq!(paid, 60_000);
    assert_eq!(seller.unclaimed_rewards, 100_000);
    assert_eq!(seller.total_claimed, 60_000);
    assert_eq!(seller.last_accumulated_rewards_per_token, 10_000_000_000_000);
}

#[test]
fn a_claim_ignores_settled_rewards_at_the_checkpoint() {
    let track = minted_track(500_000, 2000, 500, 100_000);
    let pool = pool_at(1_000_000_000_000);
    let mut position = fresh();
    position.track = key(2);
    position.holder = key(9);
    position.unclaimed_rewards = 5;
    position.last_accumulated_rewards_per_token = 1_000_000_000_000;
    let r = claim_revenue::handler(&track, &pool, &mut position, key(9), key(4), 10, u64::MAX, 0);
    assert_eq!(r.err().unwrap(), AssetraError::NothingToClaim);
    assert_eq!(position.unclaimed_rewards, 5);
}

#[test]
fn a_purchase_settles_an_existing_position_against_its_debt() {
    let track = minted_track(500_000, 2000, 500, 100_000);
    let pool = pool_at(1_000_000_000_000);
    let mut position = fresh();
    position.track = key(2);
    position.holder = key(9);
    position.last_accumulated_rewards_per_token = 1_000_000_000_000;
    buy_tokens::handler(&track, key(2), key(9), 100_000, 10, &pool, &mut position, 3, 100).unwrap();
    assert_eq!(position.unclaimed_rewards, 10);
    assert_eq!(position.reward_debt, 110 * 1_000_000_000_000u128);
    assert_eq!(position.last_accumulated_rewards_per_token, 1_000_000_000_000);
    assert_eq!(position.total_claimed, 0);
}

#[test]
fn resale_settles_the_seller_against_its_debt() {
    let listing = Listing { track: key(2), seller: key(8), mint: key(4), price_per_token: 7, amount: 3, nonce: 0, bump: 6 };
    let pool = pool_at(5_000_000_000_000);
    let mut seller = fresh();
    seller.track = key(2);
    seller.holder = key(8);
    seller.reward_debt = 20 * 1_000_000_000_000;
    let mut buyer = fresh();
    let price =
        buy_resale::handler(&listing, key(2), key(9), key(31), key(30), 10, 0, &pool, &mut seller, &mut buyer, 5).unwrap();
    assert_eq!(price, 21);
    assert_eq!(seller.unclaimed_rewards, 30);
    assert_eq!(seller.reward_debt, 35 * 1_000_000_000_000);
    assert_eq!(buyer.unclaimed_rewards, 0);
    assert_eq!(buyer.total_claimed, 0);
    assert_eq!(buyer.reward_debt, 15 * 1_000_000_000_000);
}

#[test]
fn tokens_bought_into_a_lagging_position_share_its_checkpoint() {
    let track = minted_track(500_000, 2000, 500, 100_000);
    let mut pool = pool_at(0);
    let mut position = open_holder_position::handler(&track, key(2), key(9), key(4), &pool, 1).unwrap();
    deposit_revenue::handler(&track, &mut pool, key(1), 1_000_000).unwrap();
    buy_tokens::handler(&track, key(2), key(9), 100_000, 0, &pool, &mut position, 1, 10_000).unwrap();
    let paid = claim_revenue::handler(&track, &pool, &mut position, key(9), key(4), 10_000, u64::MAX, 0).unwrap();
    assert_eq!(paid, 100_000);
}

#[test]
fn claim_checks_accounts_then_amount_then_pool_balance() {
    let track = minted_track(500_000, 2000, 500, 100_000);
    let pool = pool_at(10_000_000_000_000);
    let start = pool_at(0);
    let mut position = open_holder_position::handler(&track, key(2), key(9), key(4), &start, 1).unwrap();
    assert_eq!(
        open_holder_position::handler(&track, key(2), key(9), key(44), &start, 1).err().unwrap(),
        AssetraError::InvalidTrackStatus
    );
    let r = claim_revenue::handler(&track, &pool, &mut position, key(9), key(44), 10, 10_000_000, 100);
    assert_eq!(r.err().unwrap(), AssetraError::InvalidTrackStatus);
    let r = claim_revenue::handler(&track, &pool, &mut position, key(10), key(4), 10, 10_000_000, 100);
    assert_eq!(r.err().unwrap(), AssetraError::Unauthorized);
    let r = claim_revenue::handler(&track, &pool, &mut position, key(9), key(4), 0, 10_000_000, 100);
    assert_eq!(r.err().unwrap(), AssetraError::NothingToClaim);
    // pending: 10 tokens * 10 lamports per token = 100; pool needs rent 100 + 100
    let r = claim_revenue::handler(&track, &pool, &mut position, key(9), key(4), 10, 199, 100);
    assert_eq!(r.err().unwrap(), AssetraError::InsufficientRevenuePoolBalance);
    let r = claim_revenue::handler(&track, &pool, &mut position, key(9), key(4), 10, u64::MAX - 1, u64::MAX);
    assert_eq!(r.err().unwrap(), AssetraError::InsufficientRevenuePoolBalance);
    assert_eq!(position.total_claimed, 0);
    let paid = claim_revenue::handler(&track, &pool, &mut position, key(9), key(4), 10, 200, 100).unwrap();
    assert_eq!(paid, 100);
    assert_eq!(position.last_accumulated_rewards_per_token, 10_000_000_000_000);
}

#[test]
fn two_holders_never_collect_more_than_deposited() {
    let track = minted_track(500_000, 2000, 500, 3);
    let mut pool = pool_at(0);
    pool.track = key(2);
    let mut first = open_holder_position::handler(&track, key(2), key(9), key(4), &pool, 1).unwrap();
    let mut second = open_holder_position::handler(&track, key(2), key(10), key(4), &pool, 1).unwrap();
    deposit_revenue::handler(&track, &mut pool, key(1), 1_000_001).unwrap();
    let a = claim_revenue::handler(&track, &pool, &mut first, key(9), key(4), 1, u64::MAX, 0).unwrap();
    let b = claim_revenue::handler(&track, &pool, &mut second, key(10), key(4), 2, u64::MAX, 0).unwrap();
    assert_eq!(a, 333_333);
    assert_eq!(b, 666_667);
    assert!(a + b <= 1_000_001);
}

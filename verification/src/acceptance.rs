//! When the instructions accept and what they compute, stated directly in
//! terms of their inputs: the limits on a track's texts and terms, the checks
//! on a listing, the match between a token account's mint and a track's, the
//! price of a resale, and the pool-balance check of a claim.
use vstd::prelude::*;

use crate::address::Address;
use crate::constants::{MAX_ATTESTATION_LEN, MAX_DISPLAY_NAME_LEN, MAX_ISRC_LEN, MAX_TITLE_LEN, MAX_URI_LEN, REVENUE_PRECISION};
use crate::errors::AssetraError;
use crate::instructions::buy_resale::resale_price;
use crate::instructions::claim_revenue::{claim_account_error, claim_revenue_error};
use crate::instructions::create_track::create_track_error;
use crate::instructions::buy_resale::buy_resale_error;
use crate::instructions::buy_tokens::{buy_tokens_error, purchase_price};
use crate::instructions::deposit_revenue::{deposit_increment, deposit_revenue_error};
use crate::instructions::list_resale::list_resale_error;
use crate::instructions::register_creator::register_creator_error;
use crate::state::listing::Listing;
use crate::state::track::TrackStatus;
use crate::state::byte_len;
use crate::state::holder_position::HolderPosition;
use crate::state::revenue_pool::RevenuePool;
use crate::state::track::Track;

verus! {

/// A track is created exactly when its title is at most 128 bytes, its ISRC
/// at most 12, both URIs at most 200, its declared revenue, valuation multiple
/// and supply are positive, and its tokenized share is between 1 and 10,000
/// basis points. Where the title and ISRC are within their limits, a cover-art
/// URI over 200 bytes is refused with `UriTooLong`, and the refusal is
/// `UriTooLong` exactly when one of the two URIs is over that limit.
pub proof fn lemma_track_creation_limits(
    title: Seq<char>,
    isrc: Seq<char>,
    cover_art_uri: Seq<char>,
    audio_preview_uri: Seq<char>,
    declared_annual_revenue: u64,
    tokenized_bps: u16,
    valuation_multiple_bps: u32,
    token_supply: u64,
)
    ensures
        create_track_error(
            title,
            isrc,
            cover_art_uri,
            audio_preview_uri,
            declared_annual_revenue,
            tokenized_bps,
            valuation_multiple_bps,
            token_supply,
        ) is None <==> {
            &&& byte_len(title) <= 128
            &&& byte_len(isrc) <= 12
            &&& byte_len(cover_art_uri) <= 200
            &&& byte_len(audio_preview_uri) <= 200
            &&& declared_annual_revenue > 0
            &&& 1 <= tokenized_bps <= 10_000
            &&& valuation_multiple_bps > 0
            &&& token_supply > 0
        },
        byte_len(title) <= 128 && byte_len(isrc) <= 12 ==> (create_track_error(
            title,
            isrc,
            cover_art_uri,
            audio_preview_uri,
            declared_annual_revenue,
            tokenized_bps,
            valuation_multiple_bps,
            token_supply,
        ) == Some(AssetraError::UriTooLong) <==> (byte_len(cover_art_uri) > 200 || byte_len(audio_preview_uri)
            > 200)),
        byte_len(title) <= 128 && byte_len(isrc) <= 12 && byte_len(cover_art_uri) > 200 ==> create_track_error(
            title,
            isrc,
            cover_art_uri,
            audio_preview_uri,
            declared_annual_revenue,
            tokenized_bps,
            valuation_multiple_bps,
            token_supply,
        ) == Some(AssetraError::UriTooLong),
{
    assert(MAX_TITLE_LEN == 128 && MAX_ISRC_LEN == 12 && MAX_URI_LEN == 200);
}

/// Which cover-art URI a track has, as long as it is within 200 bytes, does
/// not change whether or how its creation is refused; nor does its audio
/// preview URI.
pub proof fn lemma_track_creation_ignores_uris_within_limit(
    title: Seq<char>,
    isrc: Seq<char>,
    cover_art_uri: Seq<char>,
    other_cover_art_uri: Seq<char>,
    audio_preview_uri: Seq<char>,
    other_audio_preview_uri: Seq<char>,
    declared_annual_revenue: u64,
    tokenized_bps: u16,
    valuation_multiple_bps: u32,
    token_supply: u64,
)
    requires
        byte_len(cover_art_uri) <= 200,
        byte_len(other_cover_art_uri) <= 200,
        byte_len(audio_preview_uri) <= 200,
        byte_len(other_audio_preview_uri) <= 200,
    ensures
        create_track_error(
            title,
            isrc,
            cover_art_uri,
            audio_preview_uri,
            declared_annual_revenue,
            tokenized_bps,
            valuation_multiple_bps,
            token_supply,
        ) == create_track_error(
            title,
            isrc,
            other_cover_art_uri,
            other_audio_preview_uri,
            declared_annual_revenue,
            tokenized_bps,
            valuation_multiple_bps,
            token_supply,
        ),
{
    assert(MAX_URI_LEN == 200);
}

/// A listing is created exactly when it offers some tokens, at a positive
/// price, and no more tokens than the seller holds; the price itself, once
/// positive, plays no part in whether or how a listing is refused.
pub proof fn lemma_listing_acceptance(seller_balance: u64, amount: u64, price_per_token: u64, other_price: u64)
    ensures
        list_resale_error(seller_balance, amount, price_per_token) is None <==> (amount > 0 && price_per_token > 0
            && amount <= seller_balance),
        price_per_token > 0 && other_price > 0 ==> list_resale_error(seller_balance, amount, price_per_token)
            == list_resale_error(seller_balance, amount, other_price),
        amount > 0 && price_per_token > 0 && amount > seller_balance ==> list_resale_error(
            seller_balance,
            amount,
            price_per_token,
        ) == Some(AssetraError::InsufficientListedBalance),
{
}

/// A token account's mint is the track's exactly when the track has a mint
/// with the same 32 bytes; in particular the track's own mint always is.
pub proof fn lemma_mint_match_is_byte_equality(track: Track, mint: Address)
    ensures
        track.mint_is(mint) <==> (track.mint matches Some(m) && forall|i: int| 0 <= i < 32 ==> m.bytes[i] == mint.bytes[i]),
        track.mint == Some(mint) ==> track.mint_is(mint),
{
    if let Some(m) = track.mint {
        if forall|i: int| 0 <= i < 32 ==> m.bytes[i] == mint.bytes[i] {
            assert(m@ =~= mint@);
        }
        if m@ == mint@ {
            assert forall|i: int| 0 <= i < 32 implies m.bytes[i] == mint.bytes[i] by {
                assert(m@[i] == mint@[i]);
            }
        }
    }
}

/// A claim's accounts check out exactly when the token account is of the
/// track's mint, byte for byte, and the position is the claimant's.
pub proof fn lemma_claim_accounts(track: Track, position: HolderPosition, holder: Address, mint: Address)
    ensures
        claim_account_error(&track, &position, holder, mint) is None <==> (track.mint matches Some(m) && m@ == mint@
            && position.holder@ == holder@),
        track.mint == Some(mint) && position.holder == holder ==> claim_account_error(&track, &position, holder, mint)
            is None,
{
}

/// The resale price is the price per token times the number of tokens, as an
/// integer product: a resale is paid exactly that whenever it fits in a `u64`,
/// and is refused by the caller (no quote) otherwise.
pub proof fn lemma_resale_price_is_product(listing: Listing)
    ensures
        resale_price(&listing) == listing.price_per_token as int * listing.amount as int,
{
}

/// Where a claim's accounts check out, the claim pays `pending`, the holder's
/// balance times the accumulator's growth since the checkpoint divided by the
/// precision. It is refused with `NothingToClaim` when that is zero; otherwise
/// it is refused for the pool's balance exactly when the pool holds less than
/// its rent-exempt minimum plus `pending` (the sum capped at the largest
/// `u64`), and paid otherwise. The position's earlier claims play no part.
pub proof fn lemma_claim_pool_check(
    track: Track,
    pool: RevenuePool,
    position: HolderPosition,
    holder: Address,
    mint: Address,
    balance: u64,
    pool_lamports: u64,
    pool_min_rent: u64,
)
    requires
        track.mint == Some(mint),
        position.holder == holder,
        position.last_accumulated_rewards_per_token <= pool.accumulated_rewards_per_token,
    ensures
        ({
            let pending = ((pool.accumulated_rewards_per_token - position.last_accumulated_rewards_per_token)
                * balance) / (REVENUE_PRECISION as int);
            let needed = if pool_min_rent + pending > u64::MAX {
                u64::MAX as int
            } else {
                pool_min_rent + pending
            };
            let e = claim_revenue_error(
                &track,
                &pool,
                &position,
                holder,
                mint,
                balance,
                pool_lamports,
                pool_min_rent,
            );
            let after = position.after_claim(balance, pool.accumulated_rewards_per_token);
            &&& position.pending(balance, pool.accumulated_rewards_per_token) == pending
            &&& position.total_claimed + pending <= u64::MAX ==> after.total_claimed == position.total_claimed + pending
            &&& after.last_accumulated_rewards_per_token == pool.accumulated_rewards_per_token
            &&& after.unclaimed_rewards == position.unclaimed_rewards
            &&& after.reward_debt == position.reward_debt
            &&& pending == 0 ==> e == Some(AssetraError::NothingToClaim)
            &&& pending > 0 ==> (e == Some(AssetraError::InsufficientRevenuePoolBalance) <==> pool_lamports < needed)
            &&& pending > 0 ==> (e is None <==> pool_lamports >= needed)
        }),
{
}

/// Two positions of one holder with one checkpoint are claimed alike,
/// whatever each has claimed, set aside or owes as debt before.
pub proof fn lemma_claim_ignores_claim_history(
    track: Track,
    pool: RevenuePool,
    position: HolderPosition,
    other: HolderPosition,
    holder: Address,
    mint: Address,
    balance: u64,
    pool_lamports: u64,
    pool_min_rent: u64,
)
    requires
        other.holder == position.holder,
        other.last_accumulated_rewards_per_token == position.last_accumulated_rewards_per_token,
    ensures
        claim_revenue_error(&track, &pool, &position, holder, mint, balance, pool_lamports, pool_min_rent)
            == claim_revenue_error(&track, &pool, &other, holder, mint, balance, pool_lamports, pool_min_rent),
        position.pending(balance, pool.accumulated_rewards_per_token) == other.pending(
            balance,
            pool.accumulated_rewards_per_token,
        ),
{
}

/// A creator registers exactly when the display name is at most 64 bytes and
/// the rights attestation at most 256; a longer name is refused first.
pub proof fn lemma_registration_limits(display_name: Seq<char>, rights_attestation: Seq<char>)
    ensures
        register_creator_error(display_name, rights_attestation) is None <==> (byte_len(display_name) <= 64
            && byte_len(rights_attestation) <= 256),
        byte_len(display_name) > 64 ==> register_creator_error(display_name, rights_attestation) == Some(
            AssetraError::DisplayNameTooLong,
        ),
        byte_len(display_name) <= 64 && byte_len(rights_attestation) > 256 ==> register_creator_error(
            display_name,
            rights_attestation,
        ) == Some(AssetraError::AttestationTooLong),
{
    assert(MAX_DISPLAY_NAME_LEN == 64 && MAX_ATTESTATION_LEN == 256);
}

/// An instruction reserved to the creator in one status accepts exactly the
/// track's creator, byte for byte, when the track is in that status; the
/// creator's own address is always accepted.
pub proof fn lemma_creator_check(track: Track, authority: Address, expected: TrackStatus)
    ensures
        track.creator_status_error(authority, expected) is None <==> ((forall|i: int|
            0 <= i < 32 ==> track.creator.bytes[i] == authority.bytes[i]) && track.status == expected),
        track.creator == authority && track.status == expected ==> track.creator_status_error(authority, expected)
            is None,
        track.creator@ != authority@ ==> track.creator_status_error(authority, expected) == Some(
            AssetraError::Unauthorized,
        ),
{
    if forall|i: int| 0 <= i < 32 ==> track.creator.bytes[i] == authority.bytes[i] {
        assert(track.creator@ =~= authority@);
    }
    if track.creator@ == authority@ {
        assert forall|i: int| 0 <= i < 32 implies track.creator.bytes[i] == authority.bytes[i] by {
            assert(track.creator@[i] == authority@[i]);
        }
    }
}

/// A deposit is taken exactly when the creator makes it, on a minted track,
/// for a positive amount; it raises the accumulator by the amount times the
/// precision divided by the supply, rounded down.
pub proof fn lemma_deposit_acceptance(track: Track, authority: Address, amount: u64)
    ensures
        deposit_revenue_error(&track, authority, amount) is None <==> (track.creator@ == authority@ && track.status
            == TrackStatus::Minted && amount > 0),
        track.token_supply > 0 ==> deposit_increment(amount, track.token_supply) == (amount * 1_000_000_000_000int)
            / (track.token_supply as int),
{
}

/// A purchase from the vault is made exactly when the track is minted, some
/// tokens are bought, the vault holds them and they cost something; the price
/// is the declared revenue times the valuation multiple times the tokenized
/// basis points times the amount, over a million times the supply, rounded
/// down.
pub proof fn lemma_purchase_terms(track: Track, vault_amount: u64, amount: u64)
    ensures
        purchase_price(&track, amount) == (track.declared_annual_revenue as int * track.valuation_multiple_bps as int
            * track.tokenized_bps as int * amount as int) / (1_000_000 * track.token_supply as int),
        track.token_supply > 0 ==> (buy_tokens_error(&track, vault_amount, amount) is None <==> {
            &&& track.status == TrackStatus::Minted
            &&& amount > 0
            &&& amount <= vault_amount
            &&& purchase_price(&track, amount) > 0
        }),
{
    let n = track.declared_annual_revenue as int * track.valuation_multiple_bps as int * track.tokenized_bps as int
        * amount as int;
    assert(n >= 0) by (nonlinear_arith)
        requires
            n == track.declared_annual_revenue as int * track.valuation_multiple_bps as int
                * track.tokenized_bps as int * amount as int,
    ;
    if track.token_supply > 0 {
        assert(n / (1_000_000 * track.token_supply as int) >= 0) by (nonlinear_arith)
            requires
                n >= 0,
                track.token_supply > 0,
        ;
    }
}

/// A resale goes through exactly when the buyer's token account is not the
/// seller's and the seller still holds the listed tokens.
pub proof fn lemma_resale_acceptance(listing: Listing, buyer_token_account: Address, seller_token_account: Address, seller_balance: u64)
    ensures
        buy_resale_error(&listing, buyer_token_account, seller_token_account, seller_balance) is None <==> (
        buyer_token_account@ != seller_token_account@ && listing.amount <= seller_balance),
{
}

/// A purchase or a sale on an existing position adds to its unclaimed rewards
/// the old balance times the accumulator less the debt (nothing where that is
/// negative), over the precision, and sets the debt to the new balance times
/// the accumulator; its checkpoint, claims and owner stay. A first purchase
/// opens the position at the accumulator with nothing unclaimed or claimed.
pub proof fn lemma_trade_accounting(
    position: HolderPosition,
    track_key: Address,
    holder: Address,
    bump: u8,
    balance_before: u64,
    amount: u64,
    acc: u128,
)
    requires
        position.can_acquire(balance_before, amount, acc),
    ensures
        ({
            let accrued = balance_before as int * acc as int;
            let credit = if accrued >= position.reward_debt {
                (accrued - position.reward_debt) / 1_000_000_000_000int
            } else {
                0
            };
            let bought = position.after_acquire(track_key, holder, bump, balance_before, amount, acc);
            let sold = position.after_dispose(balance_before, amount, acc);
            &&& bought.reward_debt == (balance_before + amount) * acc
            &&& !position.is_fresh() ==> {
                &&& bought.unclaimed_rewards == position.unclaimed_rewards + credit
                &&& bought.last_accumulated_rewards_per_token == position.last_accumulated_rewards_per_token
                &&& bought.total_claimed == position.total_claimed
                &&& bought.track == position.track && bought.holder == position.holder && bought.bump == position.bump
            }
            &&& position.is_fresh() ==> {
                &&& bought.unclaimed_rewards == 0 && bought.total_claimed == 0
                &&& bought.last_accumulated_rewards_per_token == acc
                &&& bought.track == track_key && bought.holder == holder && bought.bump == bump
            }
            &&& !position.is_fresh() && amount <= balance_before ==> {
                &&& sold.unclaimed_rewards == position.unclaimed_rewards + credit
                &&& sold.reward_debt == (balance_before - amount) * acc
                &&& sold.last_accumulated_rewards_per_token == position.last_accumulated_rewards_per_token
                &&& sold.total_claimed == position.total_claimed
            }
        }),
{
    if amount <= balance_before {
        assert((balance_before - amount) * acc <= balance_before * acc) by (nonlinear_arith)
            requires
                amount <= balance_before,
                acc >= 0,
        ;
    }
}

} // verus!

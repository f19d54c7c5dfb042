//! What holds of the instructions together: a pool stays backed by its
//! deposits, a new position (opened, bought or received in a resale) has
//! nothing to claim until revenue is deposited again, a holder's share of one
//! deposit is at most its share of the supply, a trade settles exactly what
//! the old balance accrued since the last trade, track ids follow each other,
//! a track is minted once and stays minted, and prices grow with the amount
//! bought. The solvency of the pool over sequences of instructions is in
//! `ledger`.
use vstd::prelude::*;

use vstd::arithmetic::div_mod::{lemma_fundamental_div_mod, lemma_mod_pos_bound};
use vstd::arithmetic::mul::{lemma_mul_inequality, lemma_mul_is_distributive_add_other_way};

use vstd::arithmetic::div_mod::lemma_div_is_ordered;
use vstd::bytes::lemma_auto_spec_u64_to_from_le_bytes;

use crate::address::Address;
use crate::constants::REVENUE_PRECISION;
use crate::errors::AssetraError;
use crate::instructions::buy_resale::resale_price;
use crate::instructions::buy_tokens::{price_denominator, price_numerator, purchase_price};
use crate::instructions::claim_revenue::{claim_account_error, claim_revenue_error};
use crate::instructions::deposit_revenue::{deposit_increment, deposit_revenue_error};
use crate::pda::{listing_seeds_view, track_seeds_view};
use crate::state::holder_position::{claimable, newly_accrued, scaled_rewards, HolderPosition};
use crate::state::creator_profile::CreatorProfile;
use crate::state::revenue_pool::RevenuePool;
use crate::instructions::create_track::creation_step;
use crate::state::track::{Track, TrackStatus};

verus! {

/// A pool is backed when its accumulator, spread over the whole supply, is no
/// more than what was deposited: `acc * supply <= total_deposited * precision`.
pub open spec fn pool_backed(acc: u128, total_deposited: u64, token_supply: u64) -> bool {
    acc * token_supply <= total_deposited * (REVENUE_PRECISION as int)
}

/// An empty pool is backed.
pub proof fn lemma_new_pool_is_backed(token_supply: u64)
    ensures
        pool_backed(0, 0, token_supply),
{
}

/// A deposit keeps a pool backed: the accumulator grows by the deposit's
/// share per token, rounded down, so spread over the supply it grows by no
/// more than the deposit.
pub proof fn lemma_deposit_keeps_pool_backed(acc: u128, total_deposited: u64, amount: u64, token_supply: u64)
    requires
        token_supply > 0,
        pool_backed(acc, total_deposited, token_supply),
    ensures
        (acc + deposit_increment(amount, token_supply)) * token_supply <= (total_deposited + amount) * (
        REVENUE_PRECISION as int),
{
    let p = REVENUE_PRECISION as int;
    let x = amount * p;
    let d = token_supply as int;
    let inc = deposit_increment(amount, token_supply);
    lemma_fundamental_div_mod(x, d);
    lemma_mod_pos_bound(x, d);
    assert(inc * d <= x) by (nonlinear_arith)
        requires
            inc == x / d,
            x == d * (x / d) + x % d,
            0 <= x % d,
    ;
    lemma_mul_is_distributive_add_other_way(d, acc as int, inc);
    lemma_mul_is_distributive_add_other_way(p, total_deposited as int, amount as int);
}

/// A claim at the position's own checkpoint has nothing to pay: right after a
/// position is opened, and right after a successful claim, a claim is refused
/// with `NothingToClaim` until revenue is deposited again.
pub proof fn lemma_nothing_to_claim_at_checkpoint(
    track: Track,
    pool: RevenuePool,
    position: HolderPosition,
    holder: Address,
    holder_token_mint: Address,
    holder_balance: u64,
    pool_lamports: u64,
    pool_min_rent: u64,
)
    requires
        claim_account_error(&track, &position, holder, holder_token_mint) is None,
        position.last_accumulated_rewards_per_token == pool.accumulated_rewards_per_token,
    ensures
        claim_revenue_error(
            &track,
            &pool,
            &position,
            holder,
            holder_token_mint,
            holder_balance,
            pool_lamports,
            pool_min_rent,
        ) == Some(AssetraError::NothingToClaim),
{
    let acc = pool.accumulated_rewards_per_token;
    assert((acc - acc) * holder_balance == 0) by (nonlinear_arith);
}

/// From one deposit, a holder of `balance` tokens collects at most their
/// share of it: the deposit times the balance over the supply, rounded down.
pub proof fn lemma_claim_at_most_share_of_deposit(acc: u128, acc_after: u128, amount: u64, token_supply: u64, balance: u64)
    requires
        token_supply > 0,
        acc_after == acc + deposit_increment(amount, token_supply),
    ensures
        claimable(acc_after, acc, balance) <= (amount * balance) / (token_supply as int),
{
    let p = REVENUE_PRECISION as int;
    let d = token_supply as int;
    let x = amount * p;
    let inc = deposit_increment(amount, token_supply);
    lemma_fundamental_div_mod(x, d);
    lemma_mod_pos_bound(x, d);
    assert(inc * d <= x) by (nonlinear_arith)
        requires
            inc == x / d,
            x == d * (x / d) + x % d,
            0 <= x % d,
    ;
    assert(inc >= 0) by (nonlinear_arith)
        requires
            inc == x / d,
            x >= 0,
            d > 0,
    ;
    let grown = inc * balance;
    assert(acc_after - acc == inc);
    let c = claimable(acc_after, acc, balance);
    assert(c == grown / p);
    assert(grown >= 0) by (nonlinear_arith)
        requires
            grown == inc * balance,
            inc >= 0,
            balance >= 0,
    ;
    assert(c * p <= grown);
    assert(c * d <= amount * balance) by (nonlinear_arith)
        requires
            c * p <= grown,
            grown == inc * balance,
            inc * d <= x,
            x == amount * p,
            p > 0,
            d > 0,
            balance >= 0,
            c >= 0,
    ;
    let y = amount * balance;
    lemma_fundamental_div_mod(y, d);
    lemma_mod_pos_bound(y, d);
    assert(c <= y / d) by (nonlinear_arith)
        requires
            c * d <= y,
            y == d * (y / d) + y % d,
            y % d < d,
            d > 0,
    ;
}

/// A position whose debt was set for `balance` tokens at the accumulator
/// `acc_then` (as every purchase and resale sets it) settles later, at
/// `acc_now`, to exactly what that balance earned in between, rounded down;
/// settling twice at one accumulator adds nothing the second time.
pub proof fn lemma_settle_pays_only_growth(position: HolderPosition, balance: u64, acc_then: u128, acc_now: u128)
    requires
        position.reward_debt == scaled_rewards(balance, acc_then),
        acc_then <= acc_now,
    ensures
        newly_accrued(position.reward_debt, balance, acc_now) == (balance * (acc_now - acc_then)) / (
        REVENUE_PRECISION as int),
        acc_then == acc_now ==> newly_accrued(position.reward_debt, balance, acc_now) == 0,
{
    assert(balance * acc_now - balance * acc_then == balance * (acc_now - acc_then)) by (nonlinear_arith);
    assert(balance * acc_now >= balance * acc_then) by (nonlinear_arith)
        requires
            acc_then <= acc_now,
            balance >= 0,
    ;
}

/// A resale moves the reward base from seller to buyer without creating or
/// losing any: the two new debts add up to the two old balances, taken
/// together, at the accumulator.
pub proof fn lemma_resale_conserves_reward_base(
    seller: HolderPosition,
    buyer: HolderPosition,
    track_key: Address,
    buyer_key: Address,
    bump: u8,
    seller_balance: u64,
    buyer_balance: u64,
    amount: u64,
    acc: u128,
)
    requires
        seller.can_dispose(seller_balance, amount, acc),
        buyer.can_acquire(buyer_balance, amount, acc),
    ensures
        seller.after_dispose(seller_balance, amount, acc).reward_debt + buyer.after_acquire(
            track_key,
            buyer_key,
            bump,
            buyer_balance,
            amount,
            acc,
        ).reward_debt == (seller_balance + buyer_balance) * acc,
{
    assert((seller_balance - amount) * acc <= seller_balance * acc) by (nonlinear_arith)
        requires
            amount <= seller_balance,
            acc >= 0,
    ;
    assert((seller_balance - amount) * acc + (buyer_balance + amount) * acc == (seller_balance + buyer_balance)
        * acc) by (nonlinear_arith);
}

/// A minted track cannot be minted again: the creator is refused with
/// `InvalidTrackStatus`, anyone else with `Unauthorized`.
pub proof fn lemma_minted_track_mints_once(track: Track, authority: Address)
    requires
        track.status == TrackStatus::Minted,
    ensures
        track.creator_status_error(authority, TrackStatus::Configured) == (if track.creator@ != authority@ {
            Some(AssetraError::Unauthorized)
        } else {
            Some(AssetraError::InvalidTrackStatus)
        }),
{
}

/// Revenue goes only to minted tracks: a deposit into a track that is still
/// configured is refused, whoever makes it and whatever its amount.
pub proof fn lemma_configured_track_takes_no_revenue(track: Track, authority: Address, amount: u64)
    requires
        track.status == TrackStatus::Configured,
    ensures
        deposit_revenue_error(&track, authority, amount) is Some,
{
}

/// The purchase price grows with the amount bought.
pub proof fn lemma_price_monotone(track: Track, smaller: u64, larger: u64)
    requires
        track.token_supply > 0,
        smaller <= larger,
    ensures
        purchase_price(&track, smaller) <= purchase_price(&track, larger),
{
    let k = track.declared_annual_revenue * track.valuation_multiple_bps * track.tokenized_bps;
    assert(k >= 0) by (nonlinear_arith)
        requires
            k == track.declared_annual_revenue * track.valuation_multiple_bps * track.tokenized_bps,
    ;
    assert(price_numerator(&track, smaller) == k * smaller);
    assert(price_numerator(&track, larger) == k * larger);
    lemma_mul_inequality(smaller as int, larger as int, k);
    assert(price_denominator(&track) > 0) by (nonlinear_arith)
        requires
            track.token_supply > 0,
    ;
    assert(k * smaller <= k * larger) by (nonlinear_arith)
        requires
            smaller * k <= larger * k,
    ;
    lemma_div_is_ordered(k * smaller, k * larger, price_denominator(&track));
}

/// Buying in two parts costs no more than buying at once, and at most one
/// lamport less: the parts' prices are each rounded down on their own.
pub proof fn lemma_price_split(track: Track, first: u64, second: u64)
    requires
        track.token_supply > 0,
        first + second <= u64::MAX,
    ensures
        purchase_price(&track, first) + purchase_price(&track, second) <= purchase_price(
            &track,
            (first + second) as u64,
        ),
        purchase_price(&track, (first + second) as u64) <= purchase_price(&track, first) + purchase_price(
            &track,
            second,
        ) + 1,
{
    let k = track.declared_annual_revenue * track.valuation_multiple_bps * track.tokenized_bps;
    let total = (first + second) as u64;
    assert(price_numerator(&track, first) == k * first);
    assert(price_numerator(&track, second) == k * second);
    assert(price_numerator(&track, total) == k * total);
    let x = k * first;
    let y = k * second;
    assert(x + y == k * total) by (nonlinear_arith)
        requires
            x == k * first,
            y == k * second,
            total == first + second,
    ;
    let d = price_denominator(&track);
    assert(d > 0) by (nonlinear_arith)
        requires
            d == 1_000_000 * track.token_supply,
            track.token_supply > 0,
    ;
    lemma_fundamental_div_mod(x, d);
    lemma_mod_pos_bound(x, d);
    lemma_fundamental_div_mod(y, d);
    lemma_mod_pos_bound(y, d);
    lemma_fundamental_div_mod(x + y, d);
    lemma_mod_pos_bound(x + y, d);
    assert(x / d + y / d <= (x + y) / d && (x + y) / d <= x / d + y / d + 1) by (nonlinear_arith)
        requires
            d > 0,
            x == d * (x / d) + x % d,
            y == d * (y / d) + y % d,
            x + y == d * ((x + y) / d) + (x + y) % d,
            0 <= x % d < d,
            0 <= y % d < d,
            0 <= (x + y) % d < d,
    ;
}

/// The tracks of one creator have distinct seeds, hence distinct addresses
/// unless the address hash collides: track ids are taken from the creator's
/// count, which every creation increases, and distinct ids give distinct seeds.
pub proof fn lemma_track_seeds_distinct(creator: Seq<u8>, first_id: u64, second_id: u64)
    requires
        first_id != second_id,
    ensures
        track_seeds_view(creator, first_id) != track_seeds_view(creator, second_id),
{
    lemma_auto_spec_u64_to_from_le_bytes();
    if track_seeds_view(creator, first_id) == track_seeds_view(creator, second_id) {
        assert(track_seeds_view(creator, first_id)[2] == track_seeds_view(creator, second_id)[2]);
    }
}

/// The listings of one seller for one track have distinct seeds for distinct nonces.
pub proof fn lemma_listing_seeds_distinct(track: Seq<u8>, seller: Seq<u8>, first_nonce: u64, second_nonce: u64)
    requires
        first_nonce != second_nonce,
    ensures
        listing_seeds_view(track, seller, first_nonce) != listing_seeds_view(track, seller, second_nonce),
{
    lemma_auto_spec_u64_to_from_le_bytes();
    if listing_seeds_view(track, seller, first_nonce) == listing_seeds_view(track, seller, second_nonce) {
        assert(listing_seeds_view(track, seller, first_nonce)[3] == listing_seeds_view(track, seller, second_nonce)[3]);
    }
}

/// A position a purchase or a resale opens owes nothing at the accumulator it
/// was opened at, whatever balance it holds: revenue deposited before the
/// tokens were bought is not claimable through it.
pub proof fn lemma_bought_position_owes_nothing(
    prior: HolderPosition,
    track_key: Address,
    holder: Address,
    bump: u8,
    balance_before: u64,
    amount: u64,
    acc: u128,
    balance: u64,
)
    requires
        prior.is_fresh(),
    ensures
        prior.after_acquire(track_key, holder, bump, balance_before, amount, acc).pending(balance, acc) == 0,
{
    assert((acc - acc) * balance == 0) by (nonlinear_arith);
}

/// A purchase or a sale settles an existing position on its old balance:
/// where the debt was set for that balance at `acc_then` (as the previous
/// trade set it), the unclaimed rewards grow by exactly what the balance
/// earned from `acc_then` to `acc`, the debt becomes the new balance at `acc`,
/// and the checkpoint a claim pays from is left where it was.
pub proof fn lemma_trade_settles_old_balance(
    position: HolderPosition,
    track_key: Address,
    holder: Address,
    bump: u8,
    balance_before: u64,
    amount: u64,
    acc_then: u128,
    acc: u128,
)
    requires
        !position.is_fresh(),
        position.reward_debt == scaled_rewards(balance_before, acc_then),
        acc_then <= acc,
        position.can_acquire(balance_before, amount, acc),
    ensures
        ({
            let after = position.after_acquire(track_key, holder, bump, balance_before, amount, acc);
            &&& after.unclaimed_rewards == position.unclaimed_rewards + (balance_before * (acc - acc_then)) / (
            REVENUE_PRECISION as int)
            &&& after.reward_debt == (balance_before + amount) * acc
            &&& after.last_accumulated_rewards_per_token == position.last_accumulated_rewards_per_token
            &&& after.total_claimed == position.total_claimed
        }),
        amount <= balance_before ==> ({
            let after = position.after_dispose(balance_before, amount, acc);
            &&& after.unclaimed_rewards == position.unclaimed_rewards + (balance_before * (acc - acc_then)) / (
            REVENUE_PRECISION as int)
            &&& after.reward_debt == (balance_before - amount) * acc
            &&& after.last_accumulated_rewards_per_token == position.last_accumulated_rewards_per_token
            &&& after.total_claimed == position.total_claimed
        }),
{
    lemma_settle_pays_only_growth(position, balance_before, acc_then, acc);
    if amount <= balance_before {
        assert((balance_before - amount) * acc <= balance_before * acc) by (nonlinear_arith)
            requires
                amount <= balance_before,
                acc >= 0,
        ;
    }
}

/// Track ids follow each other: for a profile that starts with no tracks and
/// goes through a sequence of creation attempts (`created[k]` is the id of the
/// track the k-th attempt created, or none where it was refused), each created
/// track's id is the number of tracks created before it, and the count is
/// always the number created so far. So the ids are 0, 1, 2, ... in order, and
/// their seeds are pairwise distinct.
pub proof fn lemma_track_ids_sequential(counts: Seq<u64>, created: Seq<Option<u64>>)
    requires
        counts.len() == created.len() + 1,
        counts[0] == 0,
        forall|k: int|
            0 <= k < created.len() ==> match #[trigger] created[k] {
                Some(id) => id == counts[k] && counts[k + 1] == counts[k] + 1,
                None => counts[k + 1] == counts[k],
            },
    ensures
        forall|k: int| 0 <= k < counts.len() ==> #[trigger] counts[k] == created_count(created.take(k)),
        forall|k: int|
            0 <= k < created.len() && created[k] is Some ==> #[trigger] created[k] == Some(
                created_count(created.take(k)) as u64,
            ),
        forall|j: int, k: int|
            0 <= j < k < created.len() && created[j] is Some && created[k] is Some ==> created[j]->0
                < created[k]->0,
    decreases created.len(),
{
    if created.len() > 0 {
        let m = created.len() - 1;
        lemma_track_ids_sequential(counts.drop_last(), created.drop_last());
        assert forall|k: int| 0 <= k < counts.len() implies #[trigger] counts[k] == created_count(created.take(k)) by {
            if k < counts.len() - 1 {
                assert(created.drop_last().take(k) =~= created.take(k));
                assert(counts.drop_last()[k] == counts[k]);
            } else {
                assert(created.drop_last().take(m) =~= created.take(m));
                assert(counts.drop_last()[m] == counts[m]);
                assert(created.take(k).drop_last() =~= created.take(m));
            }
        }
        assert forall|k: int|
            0 <= k < created.len() && created[k] is Some implies #[trigger] created[k] == Some(
                created_count(created.take(k)) as u64,
            ) by {
            assert(counts[k] == created_count(created.take(k)));
        }
        assert forall|j: int, k: int|
            0 <= j < k < created.len() && created[j] is Some && created[k] is Some implies created[j]->0
                < created[k]->0 by {
            lemma_counts_grow(counts, created, j + 1, k);
        }
    }
}

/// Number of creations that succeeded.
pub open spec fn created_count(created: Seq<Option<u64>>) -> int
    decreases created.len(),
{
    if created.len() == 0 {
        0
    } else {
        created_count(created.drop_last()) + if created.last() is Some {
            1int
        } else {
            0
        }
    }
}

proof fn lemma_counts_grow(counts: Seq<u64>, created: Seq<Option<u64>>, j: int, k: int)
    requires
        counts.len() == created.len() + 1,
        0 <= j <= k < counts.len(),
        forall|i: int|
            0 <= i < created.len() ==> match #[trigger] created[i] {
                Some(id) => id == counts[i] && counts[i + 1] == counts[i] + 1,
                None => counts[i + 1] == counts[i],
            },
    ensures
        counts[j] <= counts[k],
    decreases k - j,
{
    if j < k {
        lemma_counts_grow(counts, created, j, k - 1);
        assert(match created[k - 1] {
            Some(id) => id == counts[k - 1] && counts[k] == counts[k - 1] + 1,
            None => counts[k] == counts[k - 1],
        });
    }
}

/// The ids of the tracks a sequence of creation attempts created, none where
/// an attempt was refused.
pub open spec fn created_ids(results: Seq<Result<Track, AssetraError>>) -> Seq<Option<u64>> {
    results.map_values(
        |r: Result<Track, AssetraError>|
            match r {
                Ok(t) => Some(t.track_id),
                Err(_) => None,
            },
    )
}

/// Creation numbers a creator's tracks: over any sequence of creation attempts
/// on a profile that starts with no tracks (`profiles[k]` is the profile before
/// the k-th attempt and `results[k]` what the attempt returned, as the
/// handler's contract relates them), the count is always the number of tracks
/// created so far, every created track belongs to the profile's authority and
/// carries as id the number of tracks created before it, and two created
/// tracks have different seeds.
pub proof fn lemma_creations_number_tracks(profiles: Seq<CreatorProfile>, results: Seq<Result<Track, AssetraError>>)
    requires
        profiles.len() == results.len() + 1,
        profiles[0].track_count == 0,
        forall|k: int|
            0 <= k < results.len() ==> #[trigger] creation_step(profiles[k], profiles[k + 1], results[k]),
    ensures
        forall|k: int|
            0 <= k < profiles.len() ==> #[trigger] profiles[k].track_count == created_count(
                created_ids(results).take(k),
            ),
        forall|k: int|
            0 <= k < results.len() ==> (#[trigger] results[k] matches Ok(t) ==> t.track_id == created_count(
                created_ids(results).take(k),
            ) && t.creator == profiles[0].authority),
        forall|j: int, k: int|
            0 <= j < k < results.len() ==> (#[trigger] results[j] matches Ok(a) ==> (#[trigger] results[k] matches Ok(
                b,
            ) ==> track_seeds_view(a.creator@, a.track_id) != track_seeds_view(b.creator@, b.track_id))),
{
    let counts = profiles.map_values(|p: CreatorProfile| p.track_count);
    let created = created_ids(results);
    assert forall|k: int|
        0 <= k < created.len() implies match #[trigger] created[k] {
            Some(id) => id == counts[k] && counts[k + 1] == counts[k] + 1,
            None => counts[k + 1] == counts[k],
        } by {
        assert(creation_step(profiles[k], profiles[k + 1], results[k]));
    }
    lemma_track_ids_sequential(counts, created);
    lemma_authority_kept(profiles, results, profiles.len() - 1);
    assert forall|k: int| 0 <= k < profiles.len() implies #[trigger] profiles[k].track_count == created_count(
        created.take(k),
    ) by {
        assert(counts[k] == profiles[k].track_count);
    }
    assert forall|k: int|
        0 <= k < results.len() implies (#[trigger] results[k] matches Ok(t) ==> t.track_id == created_count(
            created.take(k),
        ) && t.creator == profiles[0].authority) by {
        assert(creation_step(profiles[k], profiles[k + 1], results[k]));
        assert(created[k] == match results[k] {
            Ok(t) => Some(t.track_id),
            Err(_) => None::<u64>,
        });
    }
    assert forall|j: int, k: int|
        0 <= j < k < results.len() implies (#[trigger] results[j] matches Ok(a) ==> (#[trigger] results[k] matches Ok(
            b,
        ) ==> track_seeds_view(a.creator@, a.track_id) != track_seeds_view(b.creator@, b.track_id))) by {
        if results[j] is Ok && results[k] is Ok {
            assert(creation_step(profiles[j], profiles[j + 1], results[j]));
            assert(creation_step(profiles[k], profiles[k + 1], results[k]));
            let a = results[j]->Ok_0;
            let b = results[k]->Ok_0;
            assert(created[j] == Some(a.track_id));
            assert(created[k] == Some(b.track_id));
            assert(a.creator == b.creator);
            lemma_track_seeds_distinct(a.creator@, a.track_id, b.track_id);
        }
    }
}

proof fn lemma_authority_kept(profiles: Seq<CreatorProfile>, results: Seq<Result<Track, AssetraError>>, n: int)
    requires
        profiles.len() == results.len() + 1,
        0 <= n < profiles.len(),
        forall|k: int|
            0 <= k < results.len() ==> #[trigger] creation_step(profiles[k], profiles[k + 1], results[k]),
    ensures
        forall|k: int| 0 <= k <= n ==> #[trigger] profiles[k].authority == profiles[0].authority,
        forall|k: int|
            0 <= k < n ==> (#[trigger] results[k] matches Ok(t) ==> t.creator == profiles[0].authority),
    decreases n,
{
    if n > 0 {
        lemma_authority_kept(profiles, results, n - 1);
        let k = n - 1;
        assert(creation_step(profiles[k], profiles[k + 1], results[k]));
    }
}

/// Whether `after` is what an instruction makes of the track `before`: a
/// minting attempt either refused (nothing changes) or accepted (a configured
/// track gets its mint and vault and becomes minted), or any other
/// instruction, which leaves the track as it is.
pub open spec fn track_step(before: Track, after: Track) -> bool {
    ||| after == before
    ||| {
        &&& before.status == TrackStatus::Configured
        &&& after.status == TrackStatus::Minted
        &&& after.mint is Some
        &&& after.vault is Some
        &&& after.same_terms(&before)
    }
}

/// The minting lifecycle: over any sequence of instructions on a track that
/// starts well formed (as `create_track` returns it, configured and without a
/// mint or vault), each a track step (the minting handler's contract states
/// it; every other instruction takes the track read-only), the track stays well
/// formed (minted exactly when it has a mint and a vault), and once minted it
/// stays minted with the same mint, vault and terms.
pub proof fn lemma_mint_lifecycle(tracks: Seq<Track>)
    requires
        tracks.len() > 0,
        tracks[0].wf(),
        forall|k: int| 0 <= k < tracks.len() - 1 ==> #[trigger] track_step(tracks[k], tracks[k + 1]),
    ensures
        forall|k: int| 0 <= k < tracks.len() ==> #[trigger] tracks[k].wf(),
        forall|j: int, k: int|
            0 <= j <= k < tracks.len() && tracks[j].status == TrackStatus::Minted ==> {
                &&& #[trigger] tracks[k].status == TrackStatus::Minted
                &&& tracks[k].mint == #[trigger] tracks[j].mint
                &&& tracks[k].vault == tracks[j].vault
                &&& tracks[k].same_terms(&tracks[j])
            },
    decreases tracks.len(),
{
    if tracks.len() > 1 {
        let init = tracks.drop_last();
        let m = tracks.len() - 1;
        assert forall|k: int| 0 <= k < init.len() - 1 implies #[trigger] track_step(init[k], init[k + 1]) by {
            assert(track_step(tracks[k], tracks[k + 1]));
        }
        lemma_mint_lifecycle(init);
        let j = m - 1;
        assert(track_step(tracks[j], tracks[j + 1]));
        assert(init[j] == tracks[j]);
        assert forall|k: int| 0 <= k < tracks.len() implies #[trigger] tracks[k].wf() by {
            if k < m {
                assert(init[k] == tracks[k]);
            }
        }
        assert forall|j: int, k: int|
            0 <= j <= k < tracks.len() && tracks[j].status == TrackStatus::Minted implies {
                &&& #[trigger] tracks[k].status == TrackStatus::Minted
                &&& tracks[k].mint == #[trigger] tracks[j].mint
                &&& tracks[k].vault == tracks[j].vault
                &&& tracks[k].same_terms(&tracks[j])
            } by {
            if k < m {
                assert(init[k] == tracks[k] && init[j] == tracks[j]);
            } else if j < m {
                assert(init[m - 1] == tracks[m - 1] && init[j] == tracks[j]);
                assert(tracks[m - 1].status == TrackStatus::Minted);
            }
        }
    }
}

} // verus!

//! A holder's stake in a track's revenue.
use vstd::prelude::*;

use crate::address::{zero_address_view, Address};
use crate::constants::REVENUE_PRECISION;

verus! {

/// What a holder of a track's tokens has earned and claimed.
///
/// Two records are kept. A claim pays from the checkpoint:
/// `last_accumulated_rewards_per_token` is the pool's accumulator at the last
/// claim (or when the position was opened), and a claim pays the current
/// balance's share of the accumulator's growth since then. A change of balance
/// (a purchase, a resale) settles against the debt: `reward_debt` is the
/// balance times the accumulator at the last change, and settling adds what
/// the balance accrued since then to `unclaimed_rewards`. No instruction pays
/// out `unclaimed_rewards`.
pub struct HolderPosition {
    pub track: Address,
    pub holder: Address,
    pub reward_debt: u128,
    pub unclaimed_rewards: u64,
    pub total_claimed: u64,
    pub last_accumulated_rewards_per_token: u128,
    pub bump: u8,
}

/// Bytes a holder position account takes: tag, two addresses, the debt, the
/// unclaimed and claimed totals, the checkpoint and the bump.
pub const HOLDER_POSITION_SPACE: usize = 8 + 32 + 32 + 16 + 8 + 8 + 16 + 1;

/// Rewards a balance has earned at an accumulator value, still scaled by the precision.
pub open spec fn scaled_rewards(balance: u64, acc: u128) -> int {
    balance * acc
}

/// Lamports a claim pays a holder of `balance` tokens whose checkpoint is `last`
/// when the accumulator stands at `acc`: the accumulator's growth times the
/// balance, divided by the precision (rounded down).
pub open spec fn claimable(acc: u128, last: u128, balance: u64) -> int {
    ((acc - last) * balance) / (REVENUE_PRECISION as int)
}

/// Whole lamports accrued since a settlement that recorded `debt`: the scaled
/// rewards now, less the debt (never below zero), divided by the precision.
pub open spec fn newly_accrued(debt: u128, balance: u64, acc: u128) -> int {
    let accrued = scaled_rewards(balance, acc);
    if accrued >= debt {
        (accrued - debt) / (REVENUE_PRECISION as int)
    } else {
        0
    }
}

impl HolderPosition {
    /// Whether this position was never written: its track is the zero address.
    pub open spec fn is_fresh(&self) -> bool {
        self.track@ == zero_address_view()
    }

    /// The inputs on which settling neither overflows nor loses a value that
    /// does not fit.
    pub open spec fn can_settle(&self, balance: u64, acc: u128) -> bool {
        &&& scaled_rewards(balance, acc) <= u128::MAX
        &&& self.unclaimed_rewards + newly_accrued(self.reward_debt, balance, acc) <= u64::MAX
    }

    /// Whether two states of a position agree on everything but the reward fields.
    pub open spec fn same_owner(&self, other: &HolderPosition) -> bool {
        &&& self.track == other.track
        &&& self.holder == other.holder
        &&& self.bump == other.bump
    }

    /// Whether a position is a fresh one and a checked-out copy of it: all of
    /// it zero.
    pub fn is_new(&self) -> (r: bool)
        ensures
            r == self.is_fresh(),
    {
        self.track.is_zero()
    }

    /// Moves what `balance` tokens accrued since the last settlement into the
    /// unclaimed rewards, and records the current scaled rewards as the new debt.
    pub fn settle(&mut self, balance: u64, acc_per_token_now: u128)
        requires
            old(self).can_settle(balance, acc_per_token_now),
        ensures
            final(self).unclaimed_rewards == old(self).unclaimed_rewards + newly_accrued(
                old(self).reward_debt,
                balance,
                acc_per_token_now,
            ),
            final(self).reward_debt == scaled_rewards(balance, acc_per_token_now),
            final(self).total_claimed == old(self).total_claimed,
            final(self).last_accumulated_rewards_per_token
                == old(self).last_accumulated_rewards_per_token,
            final(self).same_owner(&*old(self)),
    {
        let accrued_scaled: u128 = (balance as u128) * acc_per_token_now;
        let newly_accrued_scaled: u128 = accrued_scaled.saturating_sub(self.reward_debt);
        let newly: u128 = newly_accrued_scaled / REVENUE_PRECISION;
        assert(newly == newly_accrued(old(self).reward_debt, balance, acc_per_token_now));
        self.unclaimed_rewards = self.unclaimed_rewards + (newly as u64);
        self.reward_debt = accrued_scaled;
    }

    /// Lamports a claim pays a holder of `balance` tokens at `acc`: the
    /// accumulator's growth since the checkpoint times the balance, divided by
    /// the precision. What settling set aside in `unclaimed_rewards` is not part
    /// of it.
    pub open spec fn pending(&self, balance: u64, acc: u128) -> int {
        claimable(acc, self.last_accumulated_rewards_per_token, balance)
    }

    /// The inputs on which computing a claim stays in range: the checkpoint is
    /// not ahead of the accumulator, the scaled growth fits, and so does the
    /// amount.
    pub open spec fn can_claim(&self, balance: u64, acc: u128) -> bool {
        &&& self.last_accumulated_rewards_per_token <= acc
        &&& (acc - self.last_accumulated_rewards_per_token) * balance <= u128::MAX
        &&& self.pending(balance, acc) <= u64::MAX
    }

    /// The position after its holder acquired `amount` tokens on top of
    /// `balance_before`: a fresh position is opened for `holder` in the track
    /// at `track_key`, checkpointed at the accumulator with nothing unclaimed
    /// or claimed; an existing one is settled on the old balance, which moves
    /// what that balance accrued since its debt into the unclaimed rewards, and
    /// keeps its checkpoint. Either way the debt becomes the new balance's
    /// scaled rewards.
    pub open spec fn after_acquire(
        &self,
        track_key: Address,
        holder: Address,
        bump: u8,
        balance_before: u64,
        amount: u64,
        acc: u128,
    ) -> HolderPosition {
        let debt = scaled_rewards((balance_before + amount) as u64, acc) as u128;
        if self.is_fresh() {
            HolderPosition {
                track: track_key,
                holder,
                reward_debt: debt,
                unclaimed_rewards: 0,
                total_claimed: 0,
                last_accumulated_rewards_per_token: acc,
                bump,
            }
        } else {
            HolderPosition {
                reward_debt: debt,
                unclaimed_rewards: (self.unclaimed_rewards + newly_accrued(self.reward_debt, balance_before, acc)) as u64,
                ..*self
            }
        }
    }

    /// The inputs on which acquiring neither overflows the new balance nor its
    /// scaled rewards, nor the settlement of an existing position.
    pub open spec fn can_acquire(&self, balance_before: u64, amount: u64, acc: u128) -> bool {
        &&& balance_before + amount <= u64::MAX
        &&& (balance_before + amount) * acc <= u128::MAX
        &&& !self.is_fresh() ==> self.can_settle(balance_before, acc)
    }

    /// The position after its holder gave up `amount` of `balance_before`
    /// tokens: it is settled on the old balance, keeps its checkpoint, and its
    /// debt becomes the remaining balance's scaled rewards.
    pub open spec fn after_dispose(&self, balance_before: u64, amount: u64, acc: u128) -> HolderPosition {
        HolderPosition {
            reward_debt: scaled_rewards((balance_before - amount) as u64, acc) as u128,
            unclaimed_rewards: (self.unclaimed_rewards + newly_accrued(self.reward_debt, balance_before, acc)) as u64,
            ..*self
        }
    }

    /// The inputs on which giving up tokens stays in range.
    pub open spec fn can_dispose(&self, balance_before: u64, amount: u64, acc: u128) -> bool {
        &&& amount <= balance_before
        &&& self.can_settle(balance_before, acc)
    }

    /// The position after a claim by a holder of `balance` tokens at `acc`:
    /// the total claimed grows by the pending amount and the checkpoint moves
    /// to the accumulator; the debt and the unclaimed rewards stay as they were.
    pub open spec fn after_claim(&self, balance: u64, acc: u128) -> HolderPosition {
        HolderPosition {
            total_claimed: (self.total_claimed + self.pending(balance, acc)) as u64,
            last_accumulated_rewards_per_token: acc,
            ..*self
        }
    }

    /// What a claim would pay a holder of `balance` tokens at
    /// `acc_per_token_now`, or none where computing it goes out of range.
    pub fn pending_amount(&self, balance: u64, acc_per_token_now: u128) -> (r: Option<u64>)
        ensures
            r is Some <==> self.can_claim(balance, acc_per_token_now),
            r matches Some(p) ==> p == self.pending(balance, acc_per_token_now),
    {
        let last = self.last_accumulated_rewards_per_token;
        if last > acc_per_token_now {
            return None;
        }
        match (acc_per_token_now - last).checked_mul(balance as u128) {
            None => None,
            Some(grown) => {
                let earned: u128 = grown / REVENUE_PRECISION;
                if earned > u64::MAX as u128 {
                    None
                } else {
                    Some(earned as u64)
                }
            },
        }
    }

    /// Whether settling `balance` tokens at `acc_per_token_now` stays in range.
    pub fn settle_fits(&self, balance: u64, acc_per_token_now: u128) -> (r: bool)
        ensures
            r == self.can_settle(balance, acc_per_token_now),
    {
        match (balance as u128).checked_mul(acc_per_token_now) {
            None => false,
            Some(accrued) => {
                let newly: u128 = accrued.saturating_sub(self.reward_debt) / REVENUE_PRECISION;
                assert(newly == newly_accrued(self.reward_debt, balance, acc_per_token_now));
                newly <= (u64::MAX - self.unclaimed_rewards) as u128
            },
        }
    }

    /// Whether acquiring `amount` tokens on top of `balance_before` stays in range.
    pub fn acquire_fits(&self, balance_before: u64, amount: u64, acc_per_token_now: u128) -> (r: bool)
        ensures
            r == self.can_acquire(balance_before, amount, acc_per_token_now),
    {
        match balance_before.checked_add(amount) {
            None => false,
            Some(new_balance) => {
                if (new_balance as u128).checked_mul(acc_per_token_now).is_none() {
                    false
                } else if self.is_new() {
                    true
                } else {
                    self.settle_fits(balance_before, acc_per_token_now)
                }
            },
        }
    }

    /// Whether giving up `amount` of `balance_before` tokens stays in range.
    pub fn dispose_fits(&self, balance_before: u64, amount: u64, acc_per_token_now: u128) -> (r: bool)
        ensures
            r == self.can_dispose(balance_before, amount, acc_per_token_now),
    {
        amount <= balance_before && self.settle_fits(balance_before, acc_per_token_now)
    }

    /// Records that the holder acquired `amount` tokens on top of `balance_before`.
    pub fn acquire(
        &mut self,
        track_key: Address,
        holder: Address,
        bump: u8,
        balance_before: u64,
        amount: u64,
        acc_per_token_now: u128,
    )
        requires
            old(self).can_acquire(balance_before, amount, acc_per_token_now),
        ensures
            *final(self) == old(self).after_acquire(track_key, holder, bump, balance_before, amount, acc_per_token_now),
    {
        if self.is_new() {
            self.track = track_key;
            self.holder = holder;
            self.unclaimed_rewards = 0;
            self.total_claimed = 0;
            self.last_accumulated_rewards_per_token = acc_per_token_now;
            self.bump = bump;
        } else {
            self.settle(balance_before, acc_per_token_now);
        }
        let new_balance: u64 = balance_before + amount;
        self.reward_debt = (new_balance as u128) * acc_per_token_now;
    }

    /// Records that the holder gave up `amount` of `balance_before` tokens.
    pub fn dispose(&mut self, balance_before: u64, amount: u64, acc_per_token_now: u128)
        requires
            old(self).can_dispose(balance_before, amount, acc_per_token_now),
        ensures
            *final(self) == old(self).after_dispose(balance_before, amount, acc_per_token_now),
    {
        self.settle(balance_before, acc_per_token_now);
        let new_balance: u64 = balance_before - amount;
        proof {
            assert(new_balance * acc_per_token_now <= balance_before * acc_per_token_now) by (nonlinear_arith)
                requires
                    new_balance <= balance_before,
            ;
        }
        self.reward_debt = (new_balance as u128) * acc_per_token_now;
    }
}

} // verus!

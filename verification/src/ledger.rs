//! The revenue ledger of one track: the pool's accumulator and deposits, and
//! every holder's position with the balance it holds. Each instruction that
//! touches revenue is a step on the ledger. Over sequences of deposits,
//! position openings, purchases, resales and claims, everything the holders
//! have been paid plus everything a claim would still pay them stays within
//! what was deposited, as long as no tokens are bought into a position whose
//! checkpoint lags the accumulator: a claim pays a position's whole current
//! balance for the growth since its checkpoint, so tokens bought into such a
//! position would be paid for revenue deposited before they were bought.
use vstd::prelude::*;

use vstd::arithmetic::mul::lemma_mul_is_distributive_add;

use crate::address::Address;
use crate::constants::REVENUE_PRECISION;
use crate::instructions::deposit_revenue::deposit_increment;
use crate::laws::{lemma_deposit_keeps_pool_backed, pool_backed};
use crate::state::holder_position::{claimable, HolderPosition};

verus! {

/// What a track's revenue accounting holds at one moment: the pool's
/// accumulator and total deposited, and the positions with the token balance
/// each holder has.
pub struct Ledger {
    pub acc: u128,
    pub deposited: u64,
    pub positions: Seq<HolderPosition>,
    pub balances: Seq<u64>,
}

/// One instruction's effect on the ledger. A resale is a disposal by the
/// seller followed by an acquisition by the buyer; a purchase from the vault is
/// an acquisition alone.
pub enum LedgerStep {
    /// The creator deposits `amount` lamports.
    Deposit { amount: u64 },
    /// A holder of `balance` tokens opens `position`.
    Open { position: HolderPosition, balance: u64 },
    /// The holder at `index` claims.
    Claim { index: usize },
    /// The holder at `index` acquires `amount` tokens.
    Acquire { index: usize, amount: u64, track_key: Address, holder: Address, bump: u8 },
    /// A holder without a position acquires `amount` tokens on top of `balance_before`,
    /// opening the fresh position `prior`.
    AcquireNew { prior: HolderPosition, balance_before: u64, amount: u64, track_key: Address, holder: Address, bump: u8 },
    /// The holder at `index` gives up `amount` tokens.
    Dispose { index: usize, amount: u64 },
}

/// Sum of a sequence of integers.
pub open spec fn sum_ints(s: Seq<int>) -> int
    decreases s.len(),
{
    if s.len() == 0 {
        0
    } else {
        sum_ints(s.drop_last()) + s.last()
    }
}

/// Sum of the balances.
pub open spec fn sum_balances(balances: Seq<u64>) -> int {
    sum_ints(balances.map_values(|b: u64| b as int))
}

/// One position's share of the ledger, scaled by the precision: what it was
/// paid, plus what its balance earned since its checkpoint.
pub open spec fn scaled_share(position: HolderPosition, balance: u64, acc: u128) -> int {
    position.total_claimed * (REVENUE_PRECISION as int) + balance * (acc - position.last_accumulated_rewards_per_token)
}

/// The scaled shares of all positions.
pub open spec fn shares(ledger: Ledger) -> Seq<int> {
    Seq::new(ledger.positions.len(), |i: int| scaled_share(ledger.positions[i], ledger.balances[i], ledger.acc))
}

/// What each holder was paid plus what a claim would pay it now, in lamports.
pub open spec fn paid_and_owed(ledger: Ledger) -> Seq<int> {
    Seq::new(
        ledger.positions.len(),
        |i: int| ledger.positions[i].total_claimed + ledger.positions[i].pending(ledger.balances[i], ledger.acc),
    )
}

/// The ledger of a freshly opened pool: nothing deposited, no positions.
pub open spec fn empty_ledger() -> Ledger {
    Ledger { acc: 0, deposited: 0, positions: Seq::empty(), balances: Seq::empty() }
}

/// What every step keeps: one balance per position, the balances within the
/// supply, no checkpoint ahead of the accumulator, the shares within the
/// accumulator spread over the supply, and the pool backed by its deposits.
pub open spec fn ledger_sound(ledger: Ledger, token_supply: u64) -> bool {
    &&& ledger.positions.len() == ledger.balances.len()
    &&& sum_balances(ledger.balances) <= token_supply
    &&& forall|i: int|
        0 <= i < ledger.positions.len() ==> #[trigger] ledger.positions[i].last_accumulated_rewards_per_token
            <= ledger.acc
    &&& sum_ints(shares(ledger)) <= ledger.acc * token_supply
    &&& pool_backed(ledger.acc, ledger.deposited, token_supply)
}

/// Whether `after` is what `step` makes of `before` for a track of the given
/// supply, run without overflow: the deposit, claim, purchase and resale
/// handlers produce exactly these positions and pool values. Tokens are
/// acquired by an existing position only when its checkpoint is the
/// accumulator.
pub open spec fn step_ok(before: Ledger, step: LedgerStep, token_supply: u64, after: Ledger) -> bool {
    let acc = before.acc;
    match step {
        LedgerStep::Deposit { amount } => {
            &&& token_supply > 0
            &&& acc + deposit_increment(amount, token_supply) <= u128::MAX
            &&& before.deposited + amount <= u64::MAX
            &&& after == Ledger {
                acc: (acc + deposit_increment(amount, token_supply)) as u128,
                deposited: (before.deposited + amount) as u64,
                positions: before.positions,
                balances: before.balances,
            }
        },
        LedgerStep::Open { position, balance } => {
            &&& position.total_claimed == 0
            &&& position.last_accumulated_rewards_per_token == acc
            &&& after == Ledger {
                acc,
                deposited: before.deposited,
                positions: before.positions.push(position),
                balances: before.balances.push(balance),
            }
            &&& sum_balances(after.balances) <= token_supply
        },
        LedgerStep::Claim { index } => {
            let p = before.positions[index as int];
            let b = before.balances[index as int];
            &&& index < before.positions.len()
            &&& p.can_claim(b, acc)
            &&& p.total_claimed + p.pending(b, acc) <= u64::MAX
            &&& after == Ledger {
                acc,
                deposited: before.deposited,
                positions: before.positions.update(index as int, p.after_claim(b, acc)),
                balances: before.balances,
            }
        },
        LedgerStep::Acquire { index, amount, track_key, holder, bump } => {
            let p = before.positions[index as int];
            let b = before.balances[index as int];
            &&& index < before.positions.len()
            &&& p.last_accumulated_rewards_per_token == acc
            &&& p.can_acquire(b, amount, acc)
            &&& after == Ledger {
                acc,
                deposited: before.deposited,
                positions: before.positions.update(
                    index as int,
                    p.after_acquire(track_key, holder, bump, b, amount, acc),
                ),
                balances: before.balances.update(index as int, (b + amount) as u64),
            }
            &&& sum_balances(after.balances) <= token_supply
        },
        LedgerStep::AcquireNew { prior, balance_before, amount, track_key, holder, bump } => {
            &&& prior.is_fresh()
            &&& prior.can_acquire(balance_before, amount, acc)
            &&& after == Ledger {
                acc,
                deposited: before.deposited,
                positions: before.positions.push(
                    prior.after_acquire(track_key, holder, bump, balance_before, amount, acc),
                ),
                balances: before.balances.push((balance_before + amount) as u64),
            }
            &&& sum_balances(after.balances) <= token_supply
        },
        LedgerStep::Dispose { index, amount } => {
            let p = before.positions[index as int];
            let b = before.balances[index as int];
            &&& index < before.positions.len()
            &&& p.can_dispose(b, amount, acc)
            &&& after == Ledger {
                acc,
                deposited: before.deposited,
                positions: before.positions.update(index as int, p.after_dispose(b, amount, acc)),
                balances: before.balances.update(index as int, (b - amount) as u64),
            }
        },
    }
}

proof fn lemma_sum_push(s: Seq<int>, x: int)
    ensures
        sum_ints(s.push(x)) == sum_ints(s) + x,
{
    assert(s.push(x).drop_last() =~= s);
}

proof fn lemma_sum_pointwise_le(s: Seq<int>, t: Seq<int>)
    requires
        s.len() == t.len(),
        forall|i: int| 0 <= i < s.len() ==> s[i] <= t[i],
    ensures
        sum_ints(s) <= sum_ints(t),
    decreases s.len(),
{
    if s.len() > 0 {
        lemma_sum_pointwise_le(s.drop_last(), t.drop_last());
    }
}

proof fn lemma_sum_nonnegative(s: Seq<int>)
    requires
        forall|i: int| 0 <= i < s.len() ==> s[i] >= 0,
    ensures
        sum_ints(s) >= 0,
    decreases s.len(),
{
    if s.len() > 0 {
        lemma_sum_nonnegative(s.drop_last());
    }
}

/// Adding `c` times another sequence pointwise adds `c` times its sum.
proof fn lemma_sum_add_scaled(s: Seq<int>, t: Seq<int>, u: Seq<int>, c: int)
    requires
        s.len() == t.len(),
        s.len() == u.len(),
        forall|i: int| 0 <= i < s.len() ==> t[i] == s[i] + c * u[i],
    ensures
        sum_ints(t) == sum_ints(s) + c * sum_ints(u),
    decreases s.len(),
{
    if s.len() > 0 {
        lemma_sum_add_scaled(s.drop_last(), t.drop_last(), u.drop_last(), c);
        lemma_mul_is_distributive_add(c, sum_ints(u.drop_last()), u.last());
    }
}

/// Scaling each term and comparing: if each `o[i] * k <= s[i]` then `sum(o) * k <= sum(s)`.
proof fn lemma_sum_scaled_le(o: Seq<int>, s: Seq<int>, k: int)
    requires
        o.len() == s.len(),
        forall|i: int| 0 <= i < o.len() ==> #[trigger] o[i] * k <= s[i],
    ensures
        sum_ints(o) * k <= sum_ints(s),
    decreases o.len(),
{
    if o.len() > 0 {
        let n = o.len() - 1;
        assert(o[n] * k <= s[n]);
        lemma_sum_scaled_le(o.drop_last(), s.drop_last(), k);
        assert(sum_ints(o) * k == sum_ints(o.drop_last()) * k + o.last() * k) by (nonlinear_arith)
            requires
                sum_ints(o) == sum_ints(o.drop_last()) + o.last(),
        ;
    }
}

/// Replacing one element changes the sum by the difference.
proof fn lemma_sum_update(s: Seq<int>, i: int, x: int)
    requires
        0 <= i < s.len(),
    ensures
        sum_ints(s.update(i, x)) == sum_ints(s) - s[i] + x,
    decreases s.len(),
{
    let n = s.len() - 1;
    if i == n {
        assert(s.update(i, x).drop_last() =~= s.drop_last());
    } else {
        assert(s.update(i, x).drop_last() =~= s.drop_last().update(i, x));
        lemma_sum_update(s.drop_last(), i, x);
    }
}

proof fn lemma_balances_push(balances: Seq<u64>, b: u64)
    ensures
        sum_balances(balances.push(b)) == sum_balances(balances) + b,
{
    assert(balances.push(b).map_values(|v: u64| v as int) =~= balances.map_values(|v: u64| v as int).push(b as int));
    lemma_sum_push(balances.map_values(|v: u64| v as int), b as int);
}

proof fn lemma_balances_update(balances: Seq<u64>, i: int, b: u64)
    requires
        0 <= i < balances.len(),
    ensures
        sum_balances(balances.update(i, b)) == sum_balances(balances) - balances[i] + b,
{
    assert(balances.update(i, b).map_values(|v: u64| v as int) =~= balances.map_values(|v: u64| v as int).update(
        i,
        b as int,
    ));
    lemma_sum_update(balances.map_values(|v: u64| v as int), i, b as int);
}

proof fn lemma_balances_nonnegative(balances: Seq<u64>)
    ensures
        sum_balances(balances) >= 0,
{
    lemma_sum_nonnegative(balances.map_values(|v: u64| v as int));
}

/// What a position was paid plus what a claim would pay it, scaled, is within
/// its share.
proof fn lemma_owed_within_share(position: HolderPosition, balance: u64, acc: u128)
    requires
        position.last_accumulated_rewards_per_token <= acc,
    ensures
        (position.total_claimed + position.pending(balance, acc)) * (REVENUE_PRECISION as int) <= scaled_share(
            position,
            balance,
            acc,
        ),
        scaled_share(position, balance, acc) >= 0,
{
    let p = REVENUE_PRECISION as int;
    let last = position.last_accumulated_rewards_per_token as int;
    let grown = (acc - last) * balance;
    assert(grown >= 0 && grown == balance * (acc - last)) by (nonlinear_arith)
        requires
            grown == (acc - last) * balance,
            acc - last >= 0,
            balance >= 0,
    ;
    assert((grown / p) * p <= grown);
    let c = position.total_claimed as int;
    assert((c + grown / p) * p == c * p + (grown / p) * p) by (nonlinear_arith);
    assert(c * p >= 0) by (nonlinear_arith)
        requires
            c >= 0,
            p > 0,
    ;
}

/// A claim does not raise a position's share: what it pays moves from the
/// growth since the checkpoint into the total claimed, rounded down.
proof fn lemma_share_after_claim(position: HolderPosition, balance: u64, acc: u128)
    requires
        position.last_accumulated_rewards_per_token <= acc,
        position.total_claimed + position.pending(balance, acc) <= u64::MAX,
    ensures
        scaled_share(position.after_claim(balance, acc), balance, acc) <= scaled_share(position, balance, acc),
{
    lemma_owed_within_share(position, balance, acc);
    assert(balance * (acc - acc) == 0) by (nonlinear_arith);
}

/// Giving up tokens does not raise a position's share: the checkpoint and the
/// total claimed stay, and the balance shrinks.
proof fn lemma_share_after_dispose(position: HolderPosition, balance: u64, amount: u64, acc: u128)
    requires
        position.last_accumulated_rewards_per_token <= acc,
        amount <= balance,
    ensures
        scaled_share(position.after_dispose(balance, amount, acc), (balance - amount) as u64, acc)
            <= scaled_share(position, balance, acc),
{
    let g = acc - position.last_accumulated_rewards_per_token;
    assert((balance - amount) * g <= balance * g) by (nonlinear_arith)
        requires
            amount <= balance,
            g >= 0,
    ;
}

/// Every step keeps the ledger sound.
pub proof fn lemma_step_keeps_ledger_sound(before: Ledger, step: LedgerStep, token_supply: u64, after: Ledger)
    requires
        ledger_sound(before, token_supply),
        step_ok(before, step, token_supply, after),
    ensures
        ledger_sound(after, token_supply),
{
    let acc = before.acc;
    let n = before.positions.len();
    lemma_balances_nonnegative(before.balances);
    match step {
        LedgerStep::Deposit { amount } => {
            let inc = deposit_increment(amount, token_supply);
            lemma_deposit_keeps_pool_backed(acc, before.deposited, amount, token_supply);
            let bal = before.balances.map_values(|v: u64| v as int);
            assert forall|i: int| 0 <= i < n implies #[trigger] shares(after)[i] == shares(before)[i] + inc * bal[i] by {
                let q = before.positions[i];
                let b = before.balances[i];
                assert(b * (acc + inc - q.last_accumulated_rewards_per_token) == b * (acc
                    - q.last_accumulated_rewards_per_token) + inc * b) by (nonlinear_arith);
            }
            lemma_sum_add_scaled(shares(before), shares(after), bal, inc);
            assert(inc >= 0) by (nonlinear_arith)
                requires
                    inc == (amount * (REVENUE_PRECISION as int)) / (token_supply as int),
                    token_supply > 0,
                    amount >= 0,
            ;
            assert(inc * sum_balances(before.balances) <= inc * token_supply) by (nonlinear_arith)
                requires
                    inc >= 0,
                    sum_balances(before.balances) <= token_supply,
            ;
            assert(acc * token_supply + inc * token_supply == (acc + inc) * token_supply) by (nonlinear_arith);
        },
        LedgerStep::Open { position, balance } => {
            lemma_balances_push(before.balances, balance);
            assert(shares(after) =~= shares(before).push(scaled_share(position, balance, acc)));
            assert(balance * (acc - acc) == 0) by (nonlinear_arith);
            lemma_sum_push(shares(before), scaled_share(position, balance, acc));
            assert forall|i: int| 0 <= i < after.positions.len() implies #[trigger] after.positions[i].last_accumulated_rewards_per_token
                <= after.acc by {
                if i < n {
                    assert(after.positions[i] == before.positions[i]);
                }
            }
        },
        LedgerStep::Claim { index } => {
            let i = index as int;
            let q = before.positions[i];
            let b = before.balances[i];
            assert(q.last_accumulated_rewards_per_token <= acc);
            lemma_share_after_claim(q, b, acc);
            assert forall|k: int| 0 <= k < n implies #[trigger] shares(after)[k] <= shares(before)[k] by {
                if k != i {
                    assert(after.positions[k] == before.positions[k]);
                }
            }
            lemma_sum_pointwise_le(shares(after), shares(before));
            assert(after.balances == before.balances);
        },
        LedgerStep::Acquire { index, amount, track_key, holder, bump } => {
            let i = index as int;
            let q = before.positions[i];
            let b = before.balances[i];
            assert(q.last_accumulated_rewards_per_token <= acc);
            let q2 = q.after_acquire(track_key, holder, bump, b, amount, acc);
            assert(b * (acc - acc) == 0 && (b + amount) * (acc - acc) == 0) by (nonlinear_arith);
            assert(scaled_share(q2, (b + amount) as u64, acc) <= scaled_share(q, b, acc));
            assert forall|k: int| 0 <= k < n implies #[trigger] shares(after)[k] <= shares(before)[k] by {
                if k != i {
                    assert(after.positions[k] == before.positions[k]);
                    assert(after.balances[k] == before.balances[k]);
                }
            }
            lemma_sum_pointwise_le(shares(after), shares(before));
        },
        LedgerStep::AcquireNew { prior, balance_before, amount, track_key, holder, bump } => {
            let q2 = prior.after_acquire(track_key, holder, bump, balance_before, amount, acc);
            let nb = (balance_before + amount) as u64;
            assert(shares(after) =~= shares(before).push(scaled_share(q2, nb, acc)));
            assert(nb * (acc - acc) == 0) by (nonlinear_arith);
            lemma_sum_push(shares(before), scaled_share(q2, nb, acc));
            assert forall|k: int| 0 <= k < after.positions.len() implies #[trigger] after.positions[k].last_accumulated_rewards_per_token
                <= after.acc by {
                if k < n {
                    assert(after.positions[k] == before.positions[k]);
                }
            }
        },
        LedgerStep::Dispose { index, amount } => {
            let i = index as int;
            let q = before.positions[i];
            let b = before.balances[i];
            assert(q.last_accumulated_rewards_per_token <= acc);
            lemma_share_after_dispose(q, b, amount, acc);
            assert forall|k: int| 0 <= k < n implies #[trigger] shares(after)[k] <= shares(before)[k] by {
                if k != i {
                    assert(after.positions[k] == before.positions[k]);
                    assert(after.balances[k] == before.balances[k]);
                }
            }
            lemma_sum_pointwise_le(shares(after), shares(before));
            lemma_balances_update(before.balances, i, (b - amount) as u64);
        },
    }
}

/// A sound ledger is solvent: everything the holders have been paid plus
/// everything a claim would still pay them is at most what was deposited.
pub proof fn lemma_sound_ledger_is_solvent(ledger: Ledger, token_supply: u64)
    requires
        ledger_sound(ledger, token_supply),
    ensures
        sum_ints(paid_and_owed(ledger)) <= ledger.deposited,
{
    let p = REVENUE_PRECISION as int;
    let o = paid_and_owed(ledger);
    let s = shares(ledger);
    assert forall|i: int| 0 <= i < o.len() implies #[trigger] o[i] * p <= s[i] by {
        assert(ledger.positions[i].last_accumulated_rewards_per_token <= ledger.acc);
        lemma_owed_within_share(ledger.positions[i], ledger.balances[i], ledger.acc);
    }
    lemma_sum_scaled_le(o, s, p);
    let t = sum_ints(o);
    assert(t <= ledger.deposited) by (nonlinear_arith)
        requires
            t * p <= sum_ints(s),
            sum_ints(s) <= ledger.acc * token_supply,
            ledger.acc * token_supply <= ledger.deposited * p,
            p > 0,
    ;
}

/// The empty ledger of a new pool is sound.
pub proof fn lemma_empty_ledger_sound(token_supply: u64)
    ensures
        ledger_sound(empty_ledger(), token_supply),
{
    let l = empty_ledger();
    assert(shares(l) =~= Seq::<int>::empty());
    assert(l.balances.map_values(|v: u64| v as int) =~= Seq::<int>::empty());
}

/// Over any sequence of deposits, openings, claims, purchases and resales run
/// on a new pool in which tokens are bought into an existing position only
/// when its checkpoint is the accumulator, the ledger stays sound, so at every
/// point the holders' total paid and still claimable is at most the total
/// deposited: no deposit is paid out twice.
pub proof fn lemma_ledger_stays_solvent(ledgers: Seq<Ledger>, steps: Seq<LedgerStep>, token_supply: u64)
    requires
        ledgers.len() == steps.len() + 1,
        ledgers[0] == empty_ledger(),
        forall|k: int| 0 <= k < steps.len() ==> #[trigger] step_ok(ledgers[k], steps[k], token_supply, ledgers[k + 1]),
    ensures
        forall|k: int| 0 <= k < ledgers.len() ==> #[trigger] ledger_sound(ledgers[k], token_supply),
        forall|k: int| 0 <= k < ledgers.len() ==> sum_ints(#[trigger] paid_and_owed(ledgers[k])) <= ledgers[k].deposited,
    decreases steps.len(),
{
    if steps.len() == 0 {
        lemma_empty_ledger_sound(token_supply);
    } else {
        let m = steps.len() - 1;
        let init = ledgers.drop_last();
        let isteps = steps.drop_last();
        assert forall|k: int| 0 <= k < isteps.len() implies #[trigger] step_ok(init[k], isteps[k], token_supply, init[k + 1]) by {
            assert(step_ok(ledgers[k], steps[k], token_supply, ledgers[k + 1]));
        }
        lemma_ledger_stays_solvent(init, isteps, token_supply);
        assert(ledger_sound(init[m], token_supply));
        assert(step_ok(ledgers[m], steps[m], token_supply, ledgers[m + 1]));
        lemma_step_keeps_ledger_sound(ledgers[m], steps[m], token_supply, ledgers[m + 1]);
        assert forall|k: int| 0 <= k < ledgers.len() implies #[trigger] ledger_sound(ledgers[k], token_supply) by {
            if k < ledgers.len() - 1 {
                assert(init[k] == ledgers[k]);
            }
        }
        assert forall|k: int| 0 <= k < ledgers.len() implies sum_ints(#[trigger] paid_and_owed(ledgers[k])) <= ledgers[k].deposited by {
            assert(ledger_sound(ledgers[k], token_supply));
            lemma_sound_ledger_is_solvent(ledgers[k], token_supply);
        }
    }
}

} // verus!

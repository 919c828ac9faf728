//! What holds of the operations across calls: the accumulator never falls,
//! an accrual step hands out what was emitted up to rounding, and a reward
//! is paid once.

use vstd::prelude::*;
use vstd::arithmetic::div_mod::lemma_fundamental_div_mod;
use crate::error::StakingError;
use crate::instructions::claim::Claim;
use crate::instructions::stake::{spec_period_duration_secs, Stake};
use crate::instructions::unstake::Unstake;
use crate::rewards::{lemma_accrued_monotonic, lemma_accrued_monotonic_in_acc};
use crate::state::{
    GlobalPool, Period, TokenAccount, UserStakeInfo, ACCUMULATED_REWARD_PER_SHARE_PRECISION,
};

verus! {

/// Bringing a pool to a time it has been brought to already changes
/// nothing.
pub proof fn accrual_is_idempotent(pool: GlobalPool, now: i64)
    requires
        !pool.accrual_overflows(now),
    ensures
        !pool.accrued_to(now).accrues(now),
        !pool.accrued_to(now).accrual_overflows(now),
        pool.accrued_to(now).accrued_to(now) == pool.accrued_to(now),
{
}

/// One operation never lowers the accumulator, and leaves it alone while
/// nothing is staked.
pub proof fn accumulator_never_falls_in_a_step(before: GlobalPool, after: GlobalPool)
    requires
        before.moved_to(after),
    ensures
        after.accumulated_reward_per_share >= before.accumulated_reward_per_share,
        before.total_staked == 0
            ==> after.accumulated_reward_per_share == before.accumulated_reward_per_share,
{
}

/// Whether each pool of `history` but the first is what one operation made
/// of the pool before it.
pub open spec fn is_history(history: Seq<GlobalPool>) -> bool {
    forall|k: int| 0 <= k < history.len() - 1 ==> (#[trigger] history[k]).moved_to(history[k + 1])
}

/// Over any sequence of operations the accumulator never falls.
pub proof fn accumulator_never_falls(history: Seq<GlobalPool>, i: int, j: int)
    requires
        is_history(history),
        0 <= i <= j < history.len(),
    ensures
        history[i].accumulated_reward_per_share <= history[j].accumulated_reward_per_share,
    decreases j - i,
{
    if i < j {
        accumulator_never_falls(history, i, j - 1);
        assert(history[j - 1].moved_to(history[j - 1 + 1]));
        accumulator_never_falls_in_a_step(history[j - 1], history[j]);
    }
}

/// The sum of the balances of `buckets`.
pub open spec fn total_amount(buckets: Seq<UserStakeInfo>) -> nat
    decreases buckets.len(),
{
    if buckets.len() == 0 {
        0
    } else {
        total_amount(buckets.drop_last()) + buckets.last().amount as nat
    }
}

/// What `buckets` can claim together at accumulator value `acc`.
pub open spec fn total_claimable(buckets: Seq<UserStakeInfo>, acc: nat) -> nat
    decreases buckets.len(),
{
    if buckets.len() == 0 {
        0
    } else {
        total_claimable(buckets.drop_last(), acc) + buckets.last().claimable(acc)
    }
}

/// How many of `buckets` hold a balance.
pub open spec fn contributing(buckets: Seq<UserStakeInfo>) -> nat
    decreases buckets.len(),
{
    if buckets.len() == 0 {
        0
    } else {
        contributing(buckets.drop_last()) + if buckets.last().amount > 0 {
            1nat
        } else {
            0nat
        }
    }
}

/// Whether no bucket's debt is ahead of what its balance has accrued at
/// `acc`: the state that the operations keep.
pub open spec fn debts_covered(buckets: Seq<UserStakeInfo>, acc: nat) -> bool {
    forall|k: int| 0 <= k < buckets.len() ==> (#[trigger] buckets[k]).debt_covered(acc)
}

/// A debt that is covered stays covered as the accumulator rises.
pub proof fn debt_stays_covered(info: UserStakeInfo, acc: nat, later: nat)
    requires
        info.debt_covered(acc),
        acc <= later,
    ensures
        info.debt_covered(later),
{
    lemma_accrued_monotonic_in_acc(info.amount as nat, acc, later);
}

/// A stake that goes through leaves no debt ahead of its accrual, if it
/// found none.
pub proof fn stake_keeps_debts_covered(
    ctx: Stake,
    amount: u64,
    period: Period,
    position_index: u32,
    now: i64,
    derived: Option<(Seq<u8>, u8)>,
)
    requires
        ctx.rejection(amount, period, position_index, now, derived) is None,
        ctx.user_stake_info_1m.debt_covered(ctx.global_pool.accumulated_reward_per_share as nat),
        ctx.user_stake_info_3m.debt_covered(ctx.global_pool.accumulated_reward_per_share as nat),
        ctx.user_stake_info_1y.debt_covered(ctx.global_pool.accumulated_reward_per_share as nat),
    ensures
        ({
            let after = ctx.staked(amount, period, now);
            let acc = after.global_pool.accumulated_reward_per_share as nat;
            &&& after.user_stake_info_1m.debt_covered(acc)
            &&& after.user_stake_info_3m.debt_covered(acc)
            &&& after.user_stake_info_1y.debt_covered(acc)
        }),
{
    let before = ctx.global_pool.accumulated_reward_per_share as nat;
    let acc = ctx.global_pool.accrued_to(now).accumulated_reward_per_share as nat;
    debt_stays_covered(ctx.user_stake_info_1m, before, acc);
    debt_stays_covered(ctx.user_stake_info_3m, before, acc);
    debt_stays_covered(ctx.user_stake_info_1y, before, acc);
    let info = Stake::opened(ctx.bucket(period), ctx.owner);
    lemma_accrued_monotonic(info.amount as nat, (info.amount + amount) as nat, acc);
}

/// An unstake that goes through leaves no debt ahead of its accrual, if it
/// found none.
pub proof fn unstake_keeps_debts_covered(ctx: Unstake, amount: u64, period: Period, now: i64)
    requires
        ctx.rejection(amount, period, now) is None,
        ctx.user_stake_info_1m.debt_covered(ctx.global_pool.accumulated_reward_per_share as nat),
        ctx.user_stake_info_3m.debt_covered(ctx.global_pool.accumulated_reward_per_share as nat),
        ctx.user_stake_info_1y.debt_covered(ctx.global_pool.accumulated_reward_per_share as nat),
    ensures
        ({
            let after = ctx.unstaked(amount, period, now);
            let acc = after.global_pool.accumulated_reward_per_share as nat;
            &&& after.user_stake_info_1m.debt_covered(acc)
            &&& after.user_stake_info_3m.debt_covered(acc)
            &&& after.user_stake_info_1y.debt_covered(acc)
        }),
{
    let before = ctx.global_pool.accumulated_reward_per_share as nat;
    let acc = ctx.global_pool.accrued_to(now).accumulated_reward_per_share as nat;
    debt_stays_covered(ctx.user_stake_info_1m, before, acc);
    debt_stays_covered(ctx.user_stake_info_3m, before, acc);
    debt_stays_covered(ctx.user_stake_info_1y, before, acc);
    let info = ctx.bucket(period);
    lemma_accrued_monotonic((info.amount - amount) as nat, info.amount as nat, acc);
}

/// A claim that goes through leaves every debt at exactly what its balance
/// has accrued.
pub proof fn claim_settles_every_debt(ctx: Claim, now: i64)
    requires
        ctx.rejection(now) is None,
    ensures
        ({
            let after = ctx.claimed(now);
            let acc = after.global_pool.accumulated_reward_per_share as nat;
            &&& after.user_stake_info_1m.debt_covered(acc)
            &&& after.user_stake_info_3m.debt_covered(acc)
            &&& after.user_stake_info_1y.debt_covered(acc)
            &&& after.user_stake_info_1m.claimable(acc) == 0
            &&& after.user_stake_info_3m.claimable(acc) == 0
            &&& after.user_stake_info_1y.claimable(acc) == 0
        }),
{
}

/// What one bucket gains when the accumulator rises by `increase` differs
/// from its share `amount * increase / 1e12` by less than one unit.
proof fn lemma_bucket_gain(info: UserStakeInfo, acc: nat, increase: nat)
    requires
        info.debt_covered(acc),
    ensures
        info.claimable(acc) <= info.claimable(acc + increase),
        info.amount == 0 ==> info.claimable(acc + increase) == info.claimable(acc),
        info.amount > 0 ==> {
            let gain = info.claimable(acc + increase) - info.claimable(acc);
            let share = info.amount * increase;
            &&& share - (ACCUMULATED_REWARD_PER_SHARE_PRECISION - 1)
                <= ACCUMULATED_REWARD_PER_SHARE_PRECISION * gain
            &&& ACCUMULATED_REWARD_PER_SHARE_PRECISION * gain
                <= share + (ACCUMULATED_REWARD_PER_SHARE_PRECISION - 1)
        },
{
    if info.amount > 0 {
        let a = info.amount as nat;
        assert(a * (acc + increase) == a * acc + a * increase) by (nonlinear_arith);
        assert(a * increase >= 0) by (nonlinear_arith);
    }
}

/// Summed over the buckets, the gains differ from `total * increase / 1e12`
/// by less than one unit for each bucket that holds a balance.
proof fn lemma_total_gain(buckets: Seq<UserStakeInfo>, acc: nat, increase: nat)
    requires
        debts_covered(buckets, acc),
    ensures
        total_claimable(buckets, acc) <= total_claimable(buckets, acc + increase),
        ({
            let gain = total_claimable(buckets, acc + increase) - total_claimable(buckets, acc);
            let share = total_amount(buckets) * increase;
            let slack = contributing(buckets) * (ACCUMULATED_REWARD_PER_SHARE_PRECISION - 1);
            &&& share - slack <= ACCUMULATED_REWARD_PER_SHARE_PRECISION * gain
            &&& ACCUMULATED_REWARD_PER_SHARE_PRECISION * gain <= share + slack
        }),
    decreases buckets.len(),
{
    if buckets.len() == 0 {
        assert(total_amount(buckets) * increase == 0) by (nonlinear_arith)
            requires
                total_amount(buckets) == 0,
        ;
    } else {
        let rest = buckets.drop_last();
        let last = buckets.last();
        assert(debts_covered(rest, acc)) by {
            assert forall|k: int| 0 <= k < rest.len() implies (#[trigger] rest[k]).debt_covered(acc) by {
                assert(rest[k] == buckets[k]);
            }
        }
        lemma_total_gain(rest, acc, increase);
        assert(buckets[buckets.len() - 1] == last);
        lemma_bucket_gain(last, acc, increase);
        let t = total_amount(rest);
        let a = last.amount as nat;
        assert((t + a) * increase == t * increase + a * increase) by (nonlinear_arith);
        if a == 0 {
            assert(a * increase == 0) by (nonlinear_arith)
                requires
                    a == 0,
            ;
        }
    }
}

/// One accrual step hands out what was emitted, up to rounding.
///
/// Take any buckets that hold the pool's whole stake between them, none
/// with a debt ahead of its accrual. When the pool accrues to `now`, what
/// they can claim together grows by the reward emitted since the last
/// accrual, give or take one unit for each bucket that holds a balance,
/// and less what the accumulator itself rounds away: the remainder of
/// `emitted * 1e12 / total_staked`, in whole reward units. Where that
/// remainder is under one unit, the growth is within the number of such
/// buckets of the reward emitted.
pub proof fn accrual_hands_out_what_was_emitted(
    pool: GlobalPool,
    now: i64,
    buckets: Seq<UserStakeInfo>,
)
    requires
        pool.accrues(now),
        !pool.accrual_overflows(now),
        total_amount(buckets) == pool.total_staked,
        debts_covered(buckets, pool.accumulated_reward_per_share as nat),
    ensures
        ({
            let before = total_claimable(buckets, pool.accumulated_reward_per_share as nat);
            let after = total_claimable(
                buckets,
                pool.accrued_to(now).accumulated_reward_per_share as nat,
            );
            let rounded_away = (pool.emitted(now) * ACCUMULATED_REWARD_PER_SHARE_PRECISION)
                % (pool.total_staked as int);
            let lost = rounded_away / (ACCUMULATED_REWARD_PER_SHARE_PRECISION as int);
            &&& before <= after
            &&& after - before <= pool.emitted(now) + contributing(buckets)
            &&& after - before >= pool.emitted(now) - contributing(buckets) - lost
            &&& rounded_away < ACCUMULATED_REWARD_PER_SHARE_PRECISION
                ==> after - before >= pool.emitted(now) - contributing(buckets)
        }),
{
    let acc = pool.accumulated_reward_per_share as nat;
    let increase = pool.share_increase(now);
    let scaled = pool.emitted(now) * ACCUMULATED_REWARD_PER_SHARE_PRECISION;
    let total = pool.total_staked as int;
    assert(pool.accrued_to(now).accumulated_reward_per_share as nat == acc + increase);
    lemma_total_gain(buckets, acc, increase);
    lemma_fundamental_div_mod(scaled as int, total);
    assert(total * (scaled as int / total) == total_amount(buckets) * increase);
    let n = contributing(buckets);
    assert(n * (ACCUMULATED_REWARD_PER_SHARE_PRECISION - 1)
        == n * ACCUMULATED_REWARD_PER_SHARE_PRECISION - n) by (nonlinear_arith);
}

/// A stake never pulls a lock in: the bucket unlocks at the later of its
/// old unlock time and the new position's.
pub proof fn stake_only_extends_the_lock(
    ctx: Stake,
    amount: u64,
    period: Period,
    position_index: u32,
    now: i64,
    derived: Option<(Seq<u8>, u8)>,
)
    requires
        ctx.rejection(amount, period, position_index, now, derived) is None,
    ensures
        ({
            let before = Stake::opened(ctx.bucket(period), ctx.owner).unlock_at;
            let after = ctx.staked(amount, period, now).bucket(period).unlock_at;
            let position = ctx.position(amount, period, position_index, now).unlock_at;
            &&& after >= before
            &&& after >= position
            &&& after == before || after == position
            &&& position == now + spec_period_duration_secs(period)
        }),
{
}

/// A stake keeps what was pending owed: right after it, the bucket can
/// claim exactly what it was owed when the stake arrived.
pub proof fn stake_keeps_the_pending_reward_owed(
    ctx: Stake,
    amount: u64,
    period: Period,
    position_index: u32,
    now: i64,
    derived: Option<(Seq<u8>, u8)>,
)
    requires
        ctx.rejection(amount, period, position_index, now, derived) is None,
    ensures
        ({
            let after = ctx.staked(amount, period, now);
            after.bucket(period).claimable(after.global_pool.accumulated_reward_per_share as nat)
                == ctx.pending_at(period, now)
        }),
{
    let acc = ctx.global_pool.accrued_to(now).accumulated_reward_per_share as nat;
    let info = Stake::opened(ctx.bucket(period), ctx.owner);
    lemma_accrued_monotonic(info.amount as nat, (info.amount + amount) as nat, acc);
}

/// An unstake that empties the bucket keeps what was pending for a later
/// claim, whatever the accumulator is by then.
pub proof fn full_unstake_keeps_the_pending_reward(
    ctx: Unstake,
    amount: u64,
    period: Period,
    now: i64,
    acc: nat,
)
    requires
        ctx.rejection(amount, period, now) is None,
        amount == ctx.bucket(period).amount,
    ensures
        ctx.unstaked(amount, period, now).bucket(period).claimable(acc)
            == ctx.pending_at(period, now),
{
    assert(0 * acc == 0) by (nonlinear_arith);
}

/// An unstake that leaves a balance gives up what was pending: right after
/// it the bucket can claim nothing.
pub proof fn partial_unstake_gives_the_pending_reward_up(
    ctx: Unstake,
    amount: u64,
    period: Period,
    now: i64,
)
    requires
        ctx.rejection(amount, period, now) is None,
        amount < ctx.bucket(period).amount,
    ensures
        ({
            let after = ctx.unstaked(amount, period, now);
            after.bucket(period).claimable(after.global_pool.accumulated_reward_per_share as nat)
                == 0
        }),
{
    let acc = ctx.global_pool.accrued_to(now).accumulated_reward_per_share as nat;
    let info = ctx.bucket(period);
    lemma_accrued_monotonic((info.amount - amount) as nat, info.amount as nat, acc);
}

/// A stake adds its amount to the bucket and to the pool's total alike.
pub proof fn stake_adds_to_bucket_and_total(
    ctx: Stake,
    amount: u64,
    period: Period,
    position_index: u32,
    now: i64,
    derived: Option<(Seq<u8>, u8)>,
)
    requires
        ctx.rejection(amount, period, position_index, now, derived) is None,
    ensures
        ({
            let after = ctx.staked(amount, period, now);
            let found = Stake::opened(ctx.bucket(period), ctx.owner);
            &&& after.global_pool.total_staked == ctx.global_pool.total_staked + amount
            &&& after.bucket(period).amount == found.amount + amount
        }),
{
}

/// An unstake takes its amount from the bucket and from the pool's total
/// alike.
pub proof fn unstake_takes_from_bucket_and_total(
    ctx: Unstake,
    amount: u64,
    period: Period,
    now: i64,
)
    requires
        ctx.rejection(amount, period, now) is None,
    ensures
        ({
            let after = ctx.unstaked(amount, period, now);
            &&& after.global_pool.total_staked == ctx.global_pool.total_staked - amount
            &&& after.bucket(period).amount == ctx.bucket(period).amount - amount
        }),
{
}

/// A claim moves no stake.
pub proof fn claim_moves_no_stake(ctx: Claim, now: i64)
    requires
        ctx.rejection(now) is None,
    ensures
        ({
            let after = ctx.claimed(now);
            &&& after.global_pool.total_staked == ctx.global_pool.total_staked
            &&& after.user_stake_info_1m.amount == ctx.user_stake_info_1m.amount
            &&& after.user_stake_info_3m.amount == ctx.user_stake_info_3m.amount
            &&& after.user_stake_info_1y.amount == ctx.user_stake_info_1y.amount
        }),
{
}

/// A reward is paid once: a claim that goes through pays something, and a
/// second claim at the same time, with no stake moved in between, finds
/// nothing to claim, whatever the vault holds by then.
pub proof fn claim_pays_once(ctx: Claim, now: i64, vault: TokenAccount)
    requires
        ctx.rejection(now) is None,
    ensures
        ctx.owed(now) > 0,
        (Claim { reward_vault: vault, ..ctx.claimed(now) }).owed(now) == 0,
        (Claim { reward_vault: vault, ..ctx.claimed(now) }).rejection(now)
            == Some(StakingError::NothingToClaim),
{
    accrual_is_idempotent(ctx.global_pool, now);
}

} // verus!

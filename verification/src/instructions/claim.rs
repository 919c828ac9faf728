use vstd::prelude::*;
use crate::error::{refused_with, StakingError};
use crate::instructions::stake::{calculate_pending_reward, update_pool};
use crate::rewards::claimable_reward;
use crate::state::{
    GlobalPool, TokenAccount, UserStakeInfo, ACCUMULATED_REWARD_PER_SHARE_PRECISION,
    UNCLAIMED_REWARD_FLAG,
};

verus! {

/// The accounts that a claim works on: the pool, the owner's three buckets,
/// the vault that pays rewards, and the token account that receives them.
#[derive(Clone, Copy, Debug, PartialEq, Eq)]
pub struct Claim {
    pub global_pool: GlobalPool,
    pub user_stake_info_1m: UserStakeInfo,
    pub user_stake_info_3m: UserStakeInfo,
    pub user_stake_info_1y: UserStakeInfo,
    pub reward_vault: TokenAccount,
    pub user_reward_token_account: TokenAccount,
}

impl Claim {
    /// Whether the accounts fit together: the pool is set up and the
    /// receiving token account is of the pool's reward mint.
    pub open spec fn accounts_rejection(self) -> Option<StakingError> {
        if !self.global_pool.is_initialized {
            Some(StakingError::NotInitialized)
        } else if self.user_reward_token_account.mint != self.global_pool.reward_mint {
            Some(StakingError::InvalidMint)
        } else {
            None
        }
    }

    /// What the three buckets can claim together once the pool has accrued
    /// to `now`.
    pub open spec fn owed(self, now: i64) -> nat {
        let acc = self.global_pool.accrued_to(now).accumulated_reward_per_share as nat;
        self.user_stake_info_1m.claimable(acc) + self.user_stake_info_3m.claimable(acc)
            + self.user_stake_info_1y.claimable(acc)
    }

    /// Why a claim is refused, or `None` where it goes through. The checks
    /// are listed in the order in which they are made.
    pub open spec fn rejection(self, now: i64) -> Option<StakingError> {
        let acc = self.global_pool.accrued_to(now).accumulated_reward_per_share;
        if self.accounts_rejection() is Some {
            self.accounts_rejection()
        } else if self.global_pool.accrual_overflows(now) {
            Some(StakingError::RewardCalculationOverflow)
        } else if self.user_stake_info_1m.amount * acc > u128::MAX
            || self.user_stake_info_3m.amount * acc > u128::MAX
            || self.user_stake_info_1y.amount * acc > u128::MAX {
            Some(StakingError::MathOverflow)
        } else if self.owed(now) > u128::MAX {
            Some(StakingError::MathOverflow)
        } else if self.owed(now) == 0 {
            Some(StakingError::NothingToClaim)
        } else if self.owed(now) > u64::MAX {
            Some(StakingError::RewardCalculationOverflow)
        } else if self.reward_vault.amount < self.owed(now) {
            Some(StakingError::InsufficientRewardBalance)
        } else {
            None
        }
    }

    /// The accounts after a claim that went through: the pool accrued to
    /// `now`, every bucket settled there.
    pub open spec fn claimed(self, now: i64) -> Claim {
        let pool = self.global_pool.accrued_to(now);
        let acc = pool.accumulated_reward_per_share as nat;
        Claim {
            global_pool: pool,
            user_stake_info_1m: self.user_stake_info_1m.settled(acc),
            user_stake_info_3m: self.user_stake_info_3m.settled(acc),
            user_stake_info_1y: self.user_stake_info_1y.settled(acc),
            ..self
        }
    }
}

/// What a bucket can claim: the pending reward of a balance, or the reward
/// stored under the top bit of an empty bucket's debt.
fn pending_for_period(
    amount: u64,
    accumulated_reward_per_share: u128,
    reward_debt: u128,
) -> (r: Result<u128, StakingError>)
    ensures
        amount * accumulated_reward_per_share > u128::MAX
            ==> refused_with(r, StakingError::MathOverflow),
        amount * accumulated_reward_per_share <= u128::MAX
            ==> r == Ok::<u128, StakingError>(
                claimable_reward(amount, accumulated_reward_per_share as nat, reward_debt) as u128,
            ),
        amount * accumulated_reward_per_share <= u128::MAX
            ==> claimable_reward(amount, accumulated_reward_per_share as nat, reward_debt)
                <= u128::MAX,
{
    if amount > 0 {
        calculate_pending_reward(amount, accumulated_reward_per_share, reward_debt)
    } else {
        assert(amount * accumulated_reward_per_share == 0) by (nonlinear_arith)
            requires
                amount == 0,
        ;
        assert((reward_debt & UNCLAIMED_REWARD_FLAG != 0)
            == (reward_debt >= UNCLAIMED_REWARD_FLAG)) by (bit_vector);
        if reward_debt & UNCLAIMED_REWARD_FLAG != 0 {
            assert(reward_debt & ((UNCLAIMED_REWARD_FLAG - 1) as u128)
                == reward_debt - UNCLAIMED_REWARD_FLAG) by (bit_vector)
                requires
                    reward_debt >= UNCLAIMED_REWARD_FLAG,
            ;
            Ok(reward_debt & (UNCLAIMED_REWARD_FLAG - 1))
        } else {
            Ok(0)
        }
    }
}

/// The debt of a bucket whose reward has just been paid.
fn settled_debt(info: &UserStakeInfo, acc: u128) -> (debt: u128)
    requires
        info.amount * acc <= u128::MAX,
    ensures
        debt == info.settled(acc as nat).reward_debt,
{
    if info.amount == 0 {
        0
    } else {
        (info.amount as u128) * acc / ACCUMULATED_REWARD_PER_SHARE_PRECISION
    }
}

/// Settles the owner's three buckets at time `now` and returns what is to
/// be paid out of the reward vault.
///
/// Refused, with nothing changed: accounts that do not fit together, any
/// value that leaves its width, nothing owed, and a vault that holds less
/// than is owed. Else the pool accrues to `now` and every bucket's debt is
/// set to what its balance has accrued, an empty bucket's to zero.
pub fn claim(ctx: &mut Claim, now: i64) -> (r: Result<u64, StakingError>)
    ensures
        match r {
            Ok(paid) => {
                &&& old(ctx).rejection(now) is None
                &&& *final(ctx) == old(ctx).claimed(now)
                &&& paid == old(ctx).owed(now)
                &&& paid > 0
            },
            Err(e) => {
                &&& old(ctx).rejection(now) == Some(e)
                &&& *final(ctx) == *old(ctx)
            },
        },
        old(ctx).global_pool.moved_to(final(ctx).global_pool),
        final(ctx).global_pool.accumulated_reward_per_share
            >= old(ctx).global_pool.accumulated_reward_per_share,
        old(ctx).global_pool.total_staked == 0
            ==> final(ctx).global_pool.accumulated_reward_per_share
                == old(ctx).global_pool.accumulated_reward_per_share,
{
    if !ctx.global_pool.is_initialized {
        return Err(StakingError::NotInitialized);
    }
    if !(ctx.user_reward_token_account.mint == ctx.global_pool.reward_mint) {
        return Err(StakingError::InvalidMint);
    }
    let mut pool = ctx.global_pool;
    match update_pool(&mut pool, now) {
        Ok(()) => {},
        Err(e) => {
            return Err(e);
        },
    }
    let acc: u128 = pool.accumulated_reward_per_share;
    let pending_1m: u128 = match pending_for_period(
        ctx.user_stake_info_1m.amount,
        acc,
        ctx.user_stake_info_1m.reward_debt,
    ) {
        Ok(p) => p,
        Err(e) => {
            return Err(e);
        },
    };
    let pending_3m: u128 = match pending_for_period(
        ctx.user_stake_info_3m.amount,
        acc,
        ctx.user_stake_info_3m.reward_debt,
    ) {
        Ok(p) => p,
        Err(e) => {
            return Err(e);
        },
    };
    let pending_1y: u128 = match pending_for_period(
        ctx.user_stake_info_1y.amount,
        acc,
        ctx.user_stake_info_1y.reward_debt,
    ) {
        Ok(p) => p,
        Err(e) => {
            return Err(e);
        },
    };
    let first_two: u128 = match pending_1m.checked_add(pending_3m) {
        Some(v) => v,
        None => {
            return Err(StakingError::MathOverflow);
        },
    };
    let total_pending: u128 = match first_two.checked_add(pending_1y) {
        Some(v) => v,
        None => {
            return Err(StakingError::MathOverflow);
        },
    };
    if total_pending == 0 {
        return Err(StakingError::NothingToClaim);
    }
    if total_pending > u64::MAX as u128 {
        return Err(StakingError::RewardCalculationOverflow);
    }
    let reward_to_claim: u64 = total_pending as u64;
    if ctx.reward_vault.amount < reward_to_claim {
        return Err(StakingError::InsufficientRewardBalance);
    }
    let new_debt_1m: u128 = settled_debt(&ctx.user_stake_info_1m, acc);
    let new_debt_3m: u128 = settled_debt(&ctx.user_stake_info_3m, acc);
    let new_debt_1y: u128 = settled_debt(&ctx.user_stake_info_1y, acc);

    ctx.global_pool = pool;
    ctx.user_stake_info_1m.reward_debt = new_debt_1m;
    ctx.user_stake_info_3m.reward_debt = new_debt_3m;
    ctx.user_stake_info_1y.reward_debt = new_debt_1y;
    Ok(reward_to_claim)
}

} // verus!

use vstd::prelude::*;
use crate::address::Address;
use crate::error::{refused_with, StakingError};
use crate::instructions::stake::{calculate_pending_reward, update_pool};
use crate::rewards::{accrued_reward, lemma_accrued_monotonic, pending_reward};
use crate::state::{
    GlobalPool, Period, TokenAccount, UserStakeInfo, ACCUMULATED_REWARD_PER_SHARE_PRECISION,
    UNCLAIMED_REWARD_FLAG,
};

verus! {

/// The accounts that an unstake works on: the pool, the owner's three
/// buckets, and the token account that receives.
#[derive(Clone, Copy, Debug, PartialEq, Eq)]
pub struct Unstake {
    pub global_pool: GlobalPool,
    pub user_stake_info_1m: UserStakeInfo,
    pub user_stake_info_3m: UserStakeInfo,
    pub user_stake_info_1y: UserStakeInfo,
    pub owner: Address,
    pub user_staking_token_account: TokenAccount,
}

impl Unstake {
    /// The owner's bucket for `period`.
    pub open spec fn bucket(self, period: Period) -> UserStakeInfo {
        if period == 0 {
            self.user_stake_info_1m
        } else if period == 1 {
            self.user_stake_info_3m
        } else {
            self.user_stake_info_1y
        }
    }

    /// Whether the accounts fit together: the pool is set up, each bucket
    /// is recorded as the owner's, and the receiving token account is of
    /// the pool's staking mint.
    pub open spec fn accounts_rejection(self) -> Option<StakingError> {
        if !self.global_pool.is_initialized {
            Some(StakingError::NotInitialized)
        } else if self.user_stake_info_1m.owner != self.owner
            || self.user_stake_info_3m.owner != self.owner
            || self.user_stake_info_1y.owner != self.owner {
            Some(StakingError::InvalidAuthority)
        } else if self.user_staking_token_account.mint != self.global_pool.staking_mint {
            Some(StakingError::InvalidMint)
        } else {
            None
        }
    }

    /// The reward that the bucket for `period` is owed when the unstake
    /// arrives at `now`.
    pub open spec fn pending_at(self, period: Period, now: i64) -> nat {
        pending_reward(
            self.bucket(period).amount as nat,
            self.global_pool.accrued_to(now).accumulated_reward_per_share as nat,
            self.bucket(period).reward_debt as nat,
        )
    }

    /// Why an unstake is refused, or `None` where it goes through. The
    /// checks are listed in the order in which they are made.
    pub open spec fn rejection(
        self,
        amount: u64,
        period: Period,
        now: i64,
    ) -> Option<StakingError> {
        let info = self.bucket(period);
        let acc = self.global_pool.accrued_to(now).accumulated_reward_per_share;
        if self.accounts_rejection() is Some {
            self.accounts_rejection()
        } else if amount == 0 {
            Some(StakingError::InvalidAmount)
        } else if period > 2 {
            Some(StakingError::InvalidPeriod)
        } else if now < info.unlock_at {
            Some(StakingError::StakeLocked)
        } else if info.amount < amount {
            Some(StakingError::InsufficientStakedAmount)
        } else if self.global_pool.accrual_overflows(now) {
            Some(StakingError::RewardCalculationOverflow)
        } else if info.amount * acc > u128::MAX {
            Some(StakingError::MathOverflow)
        } else if info.amount == amount && self.pending_at(period, now) > u64::MAX {
            Some(StakingError::RewardCalculationOverflow)
        } else if self.global_pool.total_staked < amount {
            Some(StakingError::MathOverflow)
        } else {
            None
        }
    }

    /// The bucket for `period` after `amount` has left it at `now`. Emptied
    /// with a reward pending, it stores that reward under the top bit of
    /// its debt; else its debt is what the balance left has accrued, and
    /// what was pending is given up.
    pub open spec fn unstaked_bucket(self, amount: u64, period: Period, now: i64) -> UserStakeInfo {
        let info = self.bucket(period);
        let acc = self.global_pool.accrued_to(now).accumulated_reward_per_share;
        let left = info.amount - amount;
        UserStakeInfo {
            amount: left as u64,
            reward_debt: if left == 0 && self.pending_at(period, now) > 0 {
                (UNCLAIMED_REWARD_FLAG + self.pending_at(period, now)) as u128
            } else {
                accrued_reward(left as nat, acc as nat) as u128
            },
            ..info
        }
    }

    /// The accounts after an unstake that went through.
    pub open spec fn unstaked(self, amount: u64, period: Period, now: i64) -> Unstake {
        let pool = self.global_pool.accrued_to(now);
        let bucket = self.unstaked_bucket(amount, period, now);
        Unstake {
            global_pool: GlobalPool { total_staked: (pool.total_staked - amount) as u64, ..pool },
            user_stake_info_1m: if period == 0 {
                bucket
            } else {
                self.user_stake_info_1m
            },
            user_stake_info_3m: if period == 1 {
                bucket
            } else {
                self.user_stake_info_3m
            },
            user_stake_info_1y: if period == 2 {
                bucket
            } else {
                self.user_stake_info_1y
            },
            ..self
        }
    }
}

/// Takes `amount` out of the owner's bucket for `period` at time `now`.
///
/// Refused, with nothing changed: accounts that do not fit together, a zero
/// amount, a period above 2, a bucket still locked, a bucket that holds
/// less, and any value that leaves its width. Else the pool accrues to
/// `now` and the amount leaves the bucket and the pool's total; `amount` is
/// then to be paid back to the owner.
pub fn unstake(
    ctx: &mut Unstake,
    amount: u64,
    period: Period,
    now: i64,
) -> (r: Result<(), StakingError>)
    ensures
        match r {
            Ok(()) => {
                &&& old(ctx).rejection(amount, period, now) is None
                &&& *final(ctx) == old(ctx).unstaked(amount, period, now)
            },
            Err(e) => {
                &&& old(ctx).rejection(amount, period, now) == Some(e)
                &&& *final(ctx) == *old(ctx)
            },
        },
        old(ctx).accounts_rejection() is None && amount > 0 && period <= 2
            && now < old(ctx).bucket(period).unlock_at
            ==> refused_with(r, StakingError::StakeLocked),
        old(ctx).global_pool.moved_to(final(ctx).global_pool),
        final(ctx).global_pool.accumulated_reward_per_share
            >= old(ctx).global_pool.accumulated_reward_per_share,
        old(ctx).global_pool.total_staked == 0
            ==> final(ctx).global_pool.accumulated_reward_per_share
                == old(ctx).global_pool.accumulated_reward_per_share,
{
    if !ctx.global_pool.is_initialized {
        return Err(StakingError::NotInitialized);
    }
    if !(ctx.user_stake_info_1m.owner == ctx.owner)
        || !(ctx.user_stake_info_3m.owner == ctx.owner)
        || !(ctx.user_stake_info_1y.owner == ctx.owner) {
        return Err(StakingError::InvalidAuthority);
    }
    if !(ctx.user_staking_token_account.mint == ctx.global_pool.staking_mint) {
        return Err(StakingError::InvalidMint);
    }
    if amount == 0 {
        return Err(StakingError::InvalidAmount);
    }
    if period > 2 {
        return Err(StakingError::InvalidPeriod);
    }
    let mut info = match period {
        0 => ctx.user_stake_info_1m,
        1 => ctx.user_stake_info_3m,
        _ => ctx.user_stake_info_1y,
    };
    if now < info.unlock_at {
        return Err(StakingError::StakeLocked);
    }
    if info.amount < amount {
        return Err(StakingError::InsufficientStakedAmount);
    }
    let mut pool = ctx.global_pool;
    match update_pool(&mut pool, now) {
        Ok(()) => {},
        Err(e) => {
            return Err(e);
        },
    }
    let acc: u128 = pool.accumulated_reward_per_share;
    let pending_reward: u128 = match calculate_pending_reward(info.amount, acc, info.reward_debt) {
        Ok(p) => p,
        Err(e) => {
            return Err(e);
        },
    };
    let old_amount: u64 = info.amount;
    info.amount = info.amount - amount;
    if info.amount == 0 && pending_reward > 0 {
        if pending_reward > u64::MAX as u128 {
            return Err(StakingError::RewardCalculationOverflow);
        }
        let reward_to_claim_later: u64 = pending_reward as u64;
        let stored: u128 = reward_to_claim_later as u128;
        assert(UNCLAIMED_REWARD_FLAG | stored == UNCLAIMED_REWARD_FLAG + stored) by (bit_vector)
            requires
                stored <= 0xffff_ffff_ffff_ffffu128,
        ;
        info.reward_debt = UNCLAIMED_REWARD_FLAG | stored;
    } else {
        proof {
            lemma_accrued_monotonic(info.amount as nat, old_amount as nat, acc as nat);
        }
        let product: u128 = (info.amount as u128) * acc;
        info.reward_debt = product / ACCUMULATED_REWARD_PER_SHARE_PRECISION;
    }
    pool.total_staked = match pool.total_staked.checked_sub(amount) {
        Some(v) => v,
        None => {
            return Err(StakingError::MathOverflow);
        },
    };

    ctx.global_pool = pool;
    match period {
        0 => {
            ctx.user_stake_info_1m = info;
        },
        1 => {
            ctx.user_stake_info_3m = info;
        },
        _ => {
            ctx.user_stake_info_1y = info;
        },
    }
    Ok(())
}

} // verus!

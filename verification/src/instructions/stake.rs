use vstd::prelude::*;
use crate::address::{lemma_view_injective, Address};
use crate::error::{refused_with, StakingError};
use crate::rewards::{accrued_reward, lemma_accrued_monotonic, pending_reward};
use crate::state::{
    get_stake_position_pda, program_address, spec_stake_position_seeds, GlobalPool, Period,
    PositionCounter, StakePosition, TokenAccount, UserStakeInfo,
    ACCUMULATED_REWARD_PER_SHARE_PRECISION, PERIOD_SECS_1_MONTH, PERIOD_SECS_1_YEAR,
    PERIOD_SECS_3_MONTHS,
};

verus! {

/// The accounts that a stake works on: the pool, the owner's three buckets
/// and position counters, the token account that pays, and the address
/// offered for the new position's record.
#[derive(Clone, Copy, Debug, PartialEq, Eq)]
pub struct Stake {
    pub program_id: Address,
    pub global_pool: GlobalPool,
    pub user_stake_info_1m: UserStakeInfo,
    pub user_stake_info_3m: UserStakeInfo,
    pub user_stake_info_1y: UserStakeInfo,
    pub owner: Address,
    pub user_staking_token_account: TokenAccount,
    pub position_counter_1m: PositionCounter,
    pub position_counter_3m: PositionCounter,
    pub position_counter_1y: PositionCounter,
    pub stake_position: Address,
}

/// Seconds that a stake into `period` stays locked.
pub open spec fn spec_period_duration_secs(period: Period) -> int {
    if period == 0 {
        PERIOD_SECS_1_MONTH as int
    } else if period == 1 {
        PERIOD_SECS_3_MONTHS as int
    } else {
        PERIOD_SECS_1_YEAR as int
    }
}

/// Seconds that a stake into `period` stays locked; only 0, 1 and 2 are
/// periods.
pub fn period_duration_secs(period: Period) -> (r: Result<i64, StakingError>)
    ensures
        period <= 2 ==> r == Ok::<i64, StakingError>(spec_period_duration_secs(period) as i64),
        period > 2 ==> refused_with(r, StakingError::InvalidPeriod),
{
    match period {
        0 => Ok(PERIOD_SECS_1_MONTH),
        1 => Ok(PERIOD_SECS_3_MONTHS),
        2 => Ok(PERIOD_SECS_1_YEAR),
        _ => Err(StakingError::InvalidPeriod),
    }
}

/// Brings the pool's accumulator to `current_time`.
///
/// With nothing staked only the clock is set; with no time passed nothing
/// changes; else the accumulator rises by the reward emitted since the last
/// accrual, per staked unit, scaled by 1e12. Where that leaves 128 bits the
/// pool is left as it was.
pub fn update_pool(pool: &mut GlobalPool, current_time: i64) -> (r: Result<(), StakingError>)
    ensures
        old(pool).accrual_overflows(current_time)
            ==> *final(pool) == *old(pool)
                && refused_with(r, StakingError::RewardCalculationOverflow),
        !old(pool).accrual_overflows(current_time)
            ==> *final(pool) == old(pool).accrued_to(current_time) && r is Ok,
        old(pool).moved_to(*final(pool)),
        final(pool).accumulated_reward_per_share >= old(pool).accumulated_reward_per_share,
        old(pool).total_staked == 0
            ==> final(pool).accumulated_reward_per_share
                == old(pool).accumulated_reward_per_share,
{
    if pool.total_staked == 0 {
        pool.last_reward_time = current_time;
        assert(*pool == (GlobalPool {
            total_staked: pool.total_staked,
            ..old(pool).accrued_to(current_time)
        }));
        return Ok(());
    }
    if current_time <= pool.last_reward_time {
        return Ok(());
    }
    let time_elapsed: u64 = (current_time as i128 - pool.last_reward_time as i128) as u64;
    let rate: u128 = pool.reward_per_second as u128;
    assert(rate * time_elapsed <= u128::MAX) by (nonlinear_arith)
        requires
            rate <= u64::MAX,
            time_elapsed <= u64::MAX,
    ;
    let reward: u128 = rate * (time_elapsed as u128);
    let scaled: u128 = match reward.checked_mul(ACCUMULATED_REWARD_PER_SHARE_PRECISION) {
        Some(v) => v,
        None => {
            return Err(StakingError::RewardCalculationOverflow);
        },
    };
    let reward_per_share_increase: u128 = scaled / (pool.total_staked as u128);
    let raised: u128 = match pool.accumulated_reward_per_share.checked_add(
        reward_per_share_increase,
    ) {
        Some(v) => v,
        None => {
            return Err(StakingError::RewardCalculationOverflow);
        },
    };
    pool.accumulated_reward_per_share = raised;
    pool.last_reward_time = current_time;
    assert(*pool == (GlobalPool {
        total_staked: pool.total_staked,
        ..old(pool).accrued_to(current_time)
    }));
    Ok(())
}

/// What a balance of `user_amount` is owed at the given accumulator value
/// beyond `reward_debt`; zero where the debt is the larger.
pub fn calculate_pending_reward(
    user_amount: u64,
    accumulated_reward_per_share: u128,
    reward_debt: u128,
) -> (r: Result<u128, StakingError>)
    ensures
        user_amount * accumulated_reward_per_share > u128::MAX
            ==> refused_with(r, StakingError::MathOverflow),
        user_amount * accumulated_reward_per_share <= u128::MAX
            ==> r == Ok::<u128, StakingError>(
                pending_reward(
                    user_amount as nat,
                    accumulated_reward_per_share as nat,
                    reward_debt as nat,
                ) as u128,
            ),
{
    let product: u128 = match (user_amount as u128).checked_mul(accumulated_reward_per_share) {
        Some(v) => v,
        None => {
            return Err(StakingError::MathOverflow);
        },
    };
    let acc_reward: u128 = product / ACCUMULATED_REWARD_PER_SHARE_PRECISION;
    if acc_reward >= reward_debt {
        Ok(acc_reward - reward_debt)
    } else {
        Ok(0)
    }
}

/// A derived address and bump seed, the address as its bytes.
pub open spec fn derived_view(derived: Option<(Address, u8)>) -> Option<(Seq<u8>, u8)> {
    match derived {
        Some((address, bump)) => Some((address@, bump)),
        None => None,
    }
}

impl Stake {
    /// The owner's bucket for `period`.
    pub open spec fn bucket(self, period: Period) -> UserStakeInfo {
        if period == 0 {
            self.user_stake_info_1m
        } else if period == 1 {
            self.user_stake_info_3m
        } else {
            self.user_stake_info_1y
        }
    }

    /// The owner's position counter for `period`.
    pub open spec fn counter(self, period: Period) -> PositionCounter {
        if period == 0 {
            self.position_counter_1m
        } else if period == 1 {
            self.position_counter_3m
        } else {
            self.position_counter_1y
        }
    }

    /// A bucket as a stake finds it: one that no owner has claimed yet
    /// starts empty and belongs to `owner`.
    pub open spec fn opened(info: UserStakeInfo, owner: Address) -> UserStakeInfo {
        if info.owner.is_zero() {
            UserStakeInfo { owner, amount: 0, reward_debt: 0, unlock_at: 0 }
        } else {
            info
        }
    }

    /// Whether the accounts fit together: the pool is set up and the paying
    /// token account is of the pool's staking mint.
    pub open spec fn accounts_rejection(self) -> Option<StakingError> {
        if !self.global_pool.is_initialized {
            Some(StakingError::NotInitialized)
        } else if self.user_staking_token_account.mint != self.global_pool.staking_mint {
            Some(StakingError::InvalidMint)
        } else {
            None
        }
    }

    /// The address, with its bump seed, that the seeds of the owner's
    /// position `position_index` in `period` derive under the program.
    pub open spec fn derived_address(
        self,
        period: Period,
        position_index: u32,
    ) -> Option<(Seq<u8>, u8)> {
        program_address(
            spec_stake_position_seeds(self.owner@, period, position_index),
            self.program_id@,
        )
    }

    /// Whether a stake gets as far as its arithmetic: the accounts fit
    /// together, the amount is not zero, the period is one of the three,
    /// the index is the counter's next, and the offered address is the
    /// derived one.
    pub open spec fn admitted(
        self,
        amount: u64,
        period: Period,
        position_index: u32,
        derived: Option<(Seq<u8>, u8)>,
    ) -> bool {
        &&& self.accounts_rejection() is None
        &&& amount > 0
        &&& period <= 2
        &&& position_index == self.counter(period).next_index
        &&& derived matches Some((address, _)) && address == self.stake_position@
    }

    /// Whether the bucket's balance with `amount` added, times the
    /// accumulator at `now`, leaves 128 bits.
    pub open spec fn debt_overflows(self, amount: u64, period: Period, now: i64) -> bool {
        (Self::opened(self.bucket(period), self.owner).amount + amount)
            * self.global_pool.accrued_to(now).accumulated_reward_per_share > u128::MAX
    }

    /// The reward that the bucket for `period` is owed when the stake
    /// arrives at `now`.
    pub open spec fn pending_at(self, period: Period, now: i64) -> nat {
        let info = Self::opened(self.bucket(period), self.owner);
        let acc = self.global_pool.accrued_to(now).accumulated_reward_per_share;
        if info.amount > 0 {
            pending_reward(info.amount as nat, acc as nat, info.reward_debt as nat)
        } else {
            0
        }
    }

    /// Why a stake is refused, or `None` where it goes through. The checks
    /// are listed in the order in which they are made. `derived` is the
    /// address, with its bump seed, that the position's seeds give.
    pub open spec fn rejection(
        self,
        amount: u64,
        period: Period,
        position_index: u32,
        now: i64,
        derived: Option<(Seq<u8>, u8)>,
    ) -> Option<StakingError> {
        let info = Self::opened(self.bucket(period), self.owner);
        let acc = self.global_pool.accrued_to(now).accumulated_reward_per_share;
        if self.accounts_rejection() is Some {
            self.accounts_rejection()
        } else if amount == 0 {
            Some(StakingError::InvalidAmount)
        } else if period > 2 {
            Some(StakingError::InvalidPeriod)
        } else if position_index != self.counter(period).next_index {
            Some(StakingError::InvalidAmount)
        } else if !(derived matches Some((address, _)) && address == self.stake_position@) {
            Some(StakingError::InvalidAmount)
        } else if now + spec_period_duration_secs(period) > i64::MAX {
            Some(StakingError::MathOverflow)
        } else if position_index + 1 > u32::MAX {
            Some(StakingError::MathOverflow)
        } else if self.global_pool.accrual_overflows(now) {
            Some(StakingError::RewardCalculationOverflow)
        } else if info.amount * acc > u128::MAX {
            Some(StakingError::MathOverflow)
        } else if info.amount + amount > u64::MAX {
            Some(StakingError::MathOverflow)
        } else if (info.amount + amount) * acc > u128::MAX {
            Some(StakingError::MathOverflow)
        } else if self.global_pool.total_staked + amount > u64::MAX {
            Some(StakingError::MathOverflow)
        } else {
            None
        }
    }

    /// The record of the position that a stake creates.
    pub open spec fn position(
        self,
        amount: u64,
        period: Period,
        position_index: u32,
        now: i64,
    ) -> StakePosition {
        StakePosition {
            owner: self.owner,
            period,
            index: position_index,
            amount,
            unlock_at: (now + spec_period_duration_secs(period)) as i64,
        }
    }

    /// The bucket for `period` after a stake of `amount` at `now`: the lock
    /// moves out to the new position's where that is later, the balance
    /// grows, and the debt is set so that what was pending stays owed.
    pub open spec fn staked_bucket(self, amount: u64, period: Period, now: i64) -> UserStakeInfo {
        let info = Self::opened(self.bucket(period), self.owner);
        let acc = self.global_pool.accrued_to(now).accumulated_reward_per_share;
        let unlock_at = now + spec_period_duration_secs(period);
        UserStakeInfo {
            owner: info.owner,
            amount: (info.amount + amount) as u64,
            reward_debt: (accrued_reward((info.amount + amount) as nat, acc as nat)
                - self.pending_at(period, now)) as u128,
            unlock_at: if unlock_at > info.unlock_at {
                unlock_at as i64
            } else {
                info.unlock_at
            },
        }
    }

    /// The accounts after a stake that went through.
    pub open spec fn staked(self, amount: u64, period: Period, now: i64) -> Stake {
        let pool = self.global_pool.accrued_to(now);
        let bucket = self.staked_bucket(amount, period, now);
        let counter = PositionCounter { next_index: (self.counter(period).next_index + 1) as u32 };
        Stake {
            global_pool: GlobalPool { total_staked: (pool.total_staked + amount) as u64, ..pool },
            user_stake_info_1m: if period == 0 {
                bucket
            } else {
                Self::opened(self.user_stake_info_1m, self.owner)
            },
            user_stake_info_3m: if period == 1 {
                bucket
            } else {
                Self::opened(self.user_stake_info_3m, self.owner)
            },
            user_stake_info_1y: if period == 2 {
                bucket
            } else {
                Self::opened(self.user_stake_info_1y, self.owner)
            },
            position_counter_1m: if period == 0 {
                counter
            } else {
                self.position_counter_1m
            },
            position_counter_3m: if period == 1 {
                counter
            } else {
                self.position_counter_3m
            },
            position_counter_1y: if period == 2 {
                counter
            } else {
                self.position_counter_1y
            },
            ..self
        }
    }

    /// What a stake does, given the address that the position's seeds
    /// derive: either it is refused for the first reason that `rejection`
    /// finds and nothing changes, or the accounts become `staked` and the
    /// new position's record comes back with the bump seed of its address.
    pub open spec fn stakes(
        self,
        after: Stake,
        r: Result<(StakePosition, u8), StakingError>,
        amount: u64,
        period: Period,
        position_index: u32,
        now: i64,
        derived: Option<(Seq<u8>, u8)>,
    ) -> bool {
        match r {
            Ok((position, bump)) => {
                &&& self.rejection(amount, period, position_index, now, derived) is None
                &&& after == self.staked(amount, period, now)
                &&& position == self.position(amount, period, position_index, now)
                &&& derived matches Some((_, b)) && b == bump
            },
            Err(e) => {
                &&& self.rejection(amount, period, position_index, now, derived) == Some(e)
                &&& after == self
            },
        }
    }

    /// Stakes `amount` into `period` at time `now`: derives the address of
    /// position `position_index` and goes on as `exec_with_address` does.
    pub fn exec(
        ctx: &mut Stake,
        amount: u64,
        period: Period,
        position_index: u32,
        now: i64,
    ) -> (r: Result<(StakePosition, u8), StakingError>)
        ensures
            old(ctx).stakes(*final(ctx), r, amount, period, position_index, now, old(ctx).derived_address(period, position_index)),
            old(ctx).accounts_rejection() is None
                && position_index != old(ctx).counter(period).next_index
                ==> *final(ctx) == *old(ctx) && (refused_with(r, StakingError::InvalidAmount)
                    || refused_with(r, StakingError::InvalidPeriod)),
            old(ctx).admitted(amount, period, position_index, old(ctx).derived_address(period, position_index))
                && !old(ctx).global_pool.accrual_overflows(now)
                && old(ctx).debt_overflows(amount, period, now)
                ==> *final(ctx) == *old(ctx) && refused_with(r, StakingError::MathOverflow),
            old(ctx).global_pool.moved_to(final(ctx).global_pool),
            final(ctx).global_pool.accumulated_reward_per_share
                >= old(ctx).global_pool.accumulated_reward_per_share,
            old(ctx).global_pool.total_staked == 0
                ==> final(ctx).global_pool.accumulated_reward_per_share
                    == old(ctx).global_pool.accumulated_reward_per_share,
    {
        let derived = get_stake_position_pda(&ctx.program_id, &ctx.owner, period, position_index);
        Self::exec_with_address(ctx, amount, period, position_index, now, derived)
    }

    /// Stakes `amount` into `period` at time `now`, given the address and
    /// bump seed that the seeds of position `position_index` derive.
    ///
    /// Refused, with nothing changed: a pool not set up, a token account of
    /// another mint, a zero amount, a period above 2, an index other than
    /// the counter's next, an offered address other than the derived one,
    /// and any sum or product that leaves its width. Else the position is
    /// recorded, the counter moves on, the pool accrues to `now`, and the
    /// bucket takes the amount with its pending reward kept owed.
    pub fn exec_with_address(
        ctx: &mut Stake,
        amount: u64,
        period: Period,
        position_index: u32,
        now: i64,
        derived: Option<(Address, u8)>,
    ) -> (r: Result<(StakePosition, u8), StakingError>)
        ensures
            old(ctx).stakes(*final(ctx), r, amount, period, position_index, now, derived_view(derived)),
            old(ctx).accounts_rejection() is None
                && position_index != old(ctx).counter(period).next_index
                ==> *final(ctx) == *old(ctx) && (refused_with(r, StakingError::InvalidAmount)
                    || refused_with(r, StakingError::InvalidPeriod)),
            old(ctx).admitted(amount, period, position_index, derived_view(derived))
                && !old(ctx).global_pool.accrual_overflows(now)
                && old(ctx).debt_overflows(amount, period, now)
                ==> *final(ctx) == *old(ctx) && refused_with(r, StakingError::MathOverflow),
            old(ctx).global_pool.moved_to(final(ctx).global_pool),
            final(ctx).global_pool.accumulated_reward_per_share
                >= old(ctx).global_pool.accumulated_reward_per_share,
            old(ctx).global_pool.total_staked == 0
                ==> final(ctx).global_pool.accumulated_reward_per_share
                    == old(ctx).global_pool.accumulated_reward_per_share,
    {
        if !ctx.global_pool.is_initialized {
            return Err(StakingError::NotInitialized);
        }
        if !(ctx.user_staking_token_account.mint == ctx.global_pool.staking_mint) {
            return Err(StakingError::InvalidMint);
        }
        if amount == 0 {
            return Err(StakingError::InvalidAmount);
        }
        let period_secs: i64 = match period_duration_secs(period) {
            Ok(secs) => secs,
            Err(e) => {
                return Err(e);
            },
        };
        let next_idx: u32 = match period {
            0 => ctx.position_counter_1m.next_index,
            1 => ctx.position_counter_3m.next_index,
            _ => ctx.position_counter_1y.next_index,
        };
        if position_index != next_idx {
            return Err(StakingError::InvalidAmount);
        }
        let bump: u8 = match derived {
            Some((address, bump)) => {
                proof {
                    lemma_view_injective(address, ctx.stake_position);
                }
                if !(ctx.stake_position == address) {
                    return Err(StakingError::InvalidAmount);
                }
                bump
            },
            None => {
                return Err(StakingError::InvalidAmount);
            },
        };
        let unlock_at: i64 = match now.checked_add(period_secs) {
            Some(v) => v,
            None => {
                return Err(StakingError::MathOverflow);
            },
        };
        let position = StakePosition {
            owner: ctx.owner,
            period,
            index: position_index,
            amount,
            unlock_at,
        };
        let next_index: u32 = match next_idx.checked_add(1) {
            Some(v) => v,
            None => {
                return Err(StakingError::MathOverflow);
            },
        };

        let mut pool = ctx.global_pool;
        match update_pool(&mut pool, now) {
            Ok(()) => {},
            Err(e) => {
                return Err(e);
            },
        }
        let acc: u128 = pool.accumulated_reward_per_share;

        let mut info_1m = ctx.user_stake_info_1m;
        let mut info_3m = ctx.user_stake_info_3m;
        let mut info_1y = ctx.user_stake_info_1y;
        Self::init_user_if_needed(&mut info_1m, ctx.owner);
        Self::init_user_if_needed(&mut info_3m, ctx.owner);
        Self::init_user_if_needed(&mut info_1y, ctx.owner);
        let mut info = match period {
            0 => info_1m,
            1 => info_3m,
            _ => info_1y,
        };
        let pending_reward: u128 = if info.amount > 0 {
            match calculate_pending_reward(info.amount, acc, info.reward_debt) {
                Ok(p) => p,
                Err(e) => {
                    return Err(e);
                },
            }
        } else {
            0
        };
        if unlock_at > info.unlock_at {
            info.unlock_at = unlock_at;
        }
        let old_amount: u64 = info.amount;
        info.amount = match info.amount.checked_add(amount) {
            Some(v) => v,
            None => {
                return Err(StakingError::MathOverflow);
            },
        };
        let product: u128 = match (info.amount as u128).checked_mul(acc) {
            Some(v) => v,
            None => {
                return Err(StakingError::MathOverflow);
            },
        };
        let acc_reward_for_amount: u128 = product / ACCUMULATED_REWARD_PER_SHARE_PRECISION;
        proof {
            lemma_accrued_monotonic(old_amount as nat, info.amount as nat, acc as nat);
        }
        info.reward_debt = acc_reward_for_amount - pending_reward;
        pool.total_staked = match pool.total_staked.checked_add(amount) {
            Some(v) => v,
            None => {
                return Err(StakingError::MathOverflow);
            },
        };

        ctx.global_pool = pool;
        match period {
            0 => {
                info_1m = info;
                ctx.position_counter_1m.next_index = next_index;
            },
            1 => {
                info_3m = info;
                ctx.position_counter_3m.next_index = next_index;
            },
            _ => {
                info_1y = info;
                ctx.position_counter_1y.next_index = next_index;
            },
        }
        ctx.user_stake_info_1m = info_1m;
        ctx.user_stake_info_3m = info_3m;
        ctx.user_stake_info_1y = info_1y;
        Ok((position, bump))
    }

    fn init_user_if_needed(info: &mut UserStakeInfo, owner: Address)
        ensures
            *final(info) == Self::opened(*old(info), owner),
    {
        let unclaimed = Address::zero();
        proof {
            lemma_view_injective(info.owner, unclaimed);
        }
        if info.owner == unclaimed {
            info.owner = owner;
            info.amount = 0;
            info.reward_debt = 0;
            info.unlock_at = 0;
        }
    }
}

/// Stakes `amount` into `period` at time `now`, as `Stake::exec` does.
pub fn stake(
    ctx: &mut Stake,
    amount: u64,
    period: Period,
    position_index: u32,
    now: i64,
) -> (r: Result<(StakePosition, u8), StakingError>)
    ensures
        old(ctx).stakes(*final(ctx), r, amount, period, position_index, now, old(ctx).derived_address(period, position_index)),
        old(ctx).accounts_rejection() is None
            && position_index != old(ctx).counter(period).next_index
            ==> *final(ctx) == *old(ctx) && (refused_with(r, StakingError::InvalidAmount)
                || refused_with(r, StakingError::InvalidPeriod)),
        old(ctx).admitted(amount, period, position_index, old(ctx).derived_address(period, position_index))
            && !old(ctx).global_pool.accrual_overflows(now)
            && old(ctx).debt_overflows(amount, period, now)
            ==> *final(ctx) == *old(ctx) && refused_with(r, StakingError::MathOverflow),
        old(ctx).global_pool.moved_to(final(ctx).global_pool),
        final(ctx).global_pool.accumulated_reward_per_share
            >= old(ctx).global_pool.accumulated_reward_per_share,
        old(ctx).global_pool.total_staked == 0
            ==> final(ctx).global_pool.accumulated_reward_per_share
                == old(ctx).global_pool.accumulated_reward_per_share,
{
    Stake::exec(ctx, amount, period, position_index, now)
}

} // verus!

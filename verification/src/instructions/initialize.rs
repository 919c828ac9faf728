use vstd::prelude::*;
use crate::address::Address;
use crate::error::{refused_with, StakingError};
use crate::state::GlobalPool;

verus! {

/// The accounts that setting up the pool works on: the pool's record, still
/// blank, with its bump seed, the authority that pays for it, and the two
/// mints it is bound to.
#[derive(Clone, Copy, Debug, PartialEq, Eq)]
pub struct Initialize {
    pub global_pool: GlobalPool,
    pub authority: Address,
    pub staking_mint: Address,
    pub reward_mint: Address,
    pub bump: u8,
}

impl Initialize {
    /// The pool as setting it up at `now` leaves it: nothing staked, the
    /// accumulator at zero, the clock at `now`.
    pub open spec fn initial_pool(self, reward_per_second: u64, now: i64) -> GlobalPool {
        GlobalPool {
            authority: self.authority,
            staking_mint: self.staking_mint,
            reward_mint: self.reward_mint,
            total_staked: 0,
            reward_per_second,
            accumulated_reward_per_share: 0,
            last_reward_time: now,
            bump: self.bump,
            is_initialized: true,
        }
    }
}

/// Sets the pool up at time `now` with the given emission rate.
///
/// Refused, with nothing changed: a pool that is set up already, and a rate
/// of zero.
pub fn initialize(
    ctx: &mut Initialize,
    reward_per_second: u64,
    now: i64,
) -> (r: Result<(), StakingError>)
    ensures
        old(ctx).global_pool.is_initialized
            ==> *final(ctx) == *old(ctx) && refused_with(r, StakingError::AlreadyInitialized),
        !old(ctx).global_pool.is_initialized && reward_per_second == 0
            ==> *final(ctx) == *old(ctx) && refused_with(r, StakingError::InvalidAmount),
        !old(ctx).global_pool.is_initialized && reward_per_second > 0
            ==> r is Ok && *final(ctx) == (Initialize {
                global_pool: old(ctx).initial_pool(reward_per_second, now),
                ..*old(ctx)
            }),
{
    if ctx.global_pool.is_initialized {
        return Err(StakingError::AlreadyInitialized);
    }
    if reward_per_second == 0 {
        return Err(StakingError::InvalidAmount);
    }
    ctx.global_pool.authority = ctx.authority;
    ctx.global_pool.staking_mint = ctx.staking_mint;
    ctx.global_pool.reward_mint = ctx.reward_mint;
    ctx.global_pool.total_staked = 0;
    ctx.global_pool.reward_per_second = reward_per_second;
    ctx.global_pool.accumulated_reward_per_share = 0;
    ctx.global_pool.last_reward_time = now;
    ctx.global_pool.bump = ctx.bump;
    ctx.global_pool.is_initialized = true;
    Ok(())
}

} // verus!

use staking::address::Address;
use staking::error::StakingError;
use staking::instructions::stake::period_duration_secs;
use staking::instructions::{calculate_pending_reward, update_pool};
use staking::state::GlobalPool;

fn pool_with(total_staked: u64, rate: u64, acc: u128, last: i64) -> GlobalPool {
    GlobalPool {
        authority: Address { bytes: [1u8; 32] },
        staking_mint: Address { bytes: [2u8; 32] },
        reward_mint: Address { bytes: [3u8; 32] },
        total_staked,
        reward_per_second: rate,
        accumulated_reward_per_share: acc,
        last_reward_time: last,
        bump: 254,
        is_initialized: true,
    }
}

#[test]
fn periods_last_a_minute_an_hour_a_day() {
    assert_eq!(period_duration_secs(0), Ok(60));
    assert_eq!(period_duration_secs(1), Ok(3600));
    assert_eq!(period_duration_secs(2), Ok(86400));
}

#[test]
fn a_fourth_period_is_refused() {
    assert_eq!(period_duration_secs(3), Err(StakingError::InvalidPeriod));
    assert_eq!(period_duration_secs(255), Err(StakingError::InvalidPeriod));
}

#[test]
fn idle_pool_only_moves_its_clock() {
    let mut pool = pool_with(0, 1000, 77, 5);
    assert_eq!(update_pool(&mut pool, 500), Ok(()));
    assert_eq!(pool, pool_with(0, 1000, 77, 500));
}

#[test]
fn idle_pool_takes_an_earlier_clock_too() {
    let mut pool = pool_with(0, 1000, 77, 500);
    assert_eq!(update_pool(&mut pool, 5), Ok(()));
    assert_eq!(pool, pool_with(0, 1000, 77, 5));
}

#[test]
fn no_time_passed_changes_nothing() {
    let mut pool = pool_with(100, 1000, 77, 500);
    assert_eq!(update_pool(&mut pool, 500), Ok(()));
    assert_eq!(pool, pool_with(100, 1000, 77, 500));
    assert_eq!(update_pool(&mut pool, 499), Ok(()));
    assert_eq!(pool, pool_with(100, 1000, 77, 500));
}

#[test]
fn accumulator_rises_by_emission_per_share() {
    let mut pool = pool_with(100, 1000, 0, 0);
    assert_eq!(update_pool(&mut pool, 10), Ok(()));
    assert_eq!(pool, pool_with(100, 1000, 100_000_000_000_000, 10));
}

#[test]
fn accumulator_increase_is_rounded_down() {
    let mut pool = pool_with(3, 1, 5, 0);
    assert_eq!(update_pool(&mut pool, 10), Ok(()));
    assert_eq!(pool, pool_with(3, 1, 5 + 3_333_333_333_333, 10));
}

#[test]
fn accrual_twice_at_one_time_is_accrual_once() {
    let mut pool = pool_with(100, 1000, 0, 0);
    assert_eq!(update_pool(&mut pool, 10), Ok(()));
    let once = pool;
    assert_eq!(update_pool(&mut pool, 10), Ok(()));
    assert_eq!(pool, once);
}

#[test]
fn elapsed_time_spans_negative_clocks() {
    let mut pool = pool_with(1, 1, 0, -5);
    assert_eq!(update_pool(&mut pool, 5), Ok(()));
    assert_eq!(pool, pool_with(1, 1, 10_000_000_000_000, 5));
}

#[test]
fn elapsed_time_spans_the_whole_clock() {
    let mut pool = pool_with(1, 1, 0, i64::MIN);
    assert_eq!(update_pool(&mut pool, i64::MAX), Ok(()));
    assert_eq!(
        pool,
        pool_with(1, 1, 18_446_744_073_709_551_615u128 * 1_000_000_000_000u128, i64::MAX)
    );
}

#[test]
fn scaled_reward_past_128_bits_is_refused() {
    let mut pool = pool_with(1, u64::MAX, 0, 0);
    assert_eq!(update_pool(&mut pool, i64::MAX), Err(StakingError::RewardCalculationOverflow));
    assert_eq!(pool, pool_with(1, u64::MAX, 0, 0));
}

#[test]
fn accumulator_past_128_bits_is_refused() {
    let mut pool = pool_with(1_000_000_000_000, 1, u128::MAX, 0);
    assert_eq!(update_pool(&mut pool, 1), Err(StakingError::RewardCalculationOverflow));
    assert_eq!(pool, pool_with(1_000_000_000_000, 1, u128::MAX, 0));
    let mut pool = pool_with(1_000_000_000_000, 1, u128::MAX - 1, 0);
    assert_eq!(update_pool(&mut pool, 1), Ok(()));
    assert_eq!(pool, pool_with(1_000_000_000_000, 1, u128::MAX, 1));
}

#[test]
fn pending_is_accrued_less_debt() {
    assert_eq!(calculate_pending_reward(100, 100_000_000_000_000, 0), Ok(10000));
    assert_eq!(calculate_pending_reward(100, 100_000_000_000_000, 2500), Ok(7500));
    assert_eq!(calculate_pending_reward(200, 100_000_000_000_000, 10000), Ok(10000));
}

#[test]
fn pending_is_rounded_down() {
    assert_eq!(calculate_pending_reward(1, 1_999_999_999_999, 0), Ok(1));
    assert_eq!(calculate_pending_reward(3, 3_333_333_333_333, 0), Ok(9));
    assert_eq!(calculate_pending_reward(1, 999_999_999_999, 0), Ok(0));
}

#[test]
fn pending_is_zero_where_debt_is_ahead() {
    assert_eq!(calculate_pending_reward(100, 100_000_000_000_000, 10001), Ok(0));
    assert_eq!(calculate_pending_reward(0, 100_000_000_000_000, 1), Ok(0));
    assert_eq!(calculate_pending_reward(100, 100_000_000_000_000, u128::MAX), Ok(0));
}

#[test]
fn pending_product_past_128_bits_is_refused() {
    assert_eq!(calculate_pending_reward(2, u128::MAX, 0), Err(StakingError::MathOverflow));
    assert_eq!(
        calculate_pending_reward(2, u128::MAX / 2 + 1, 0),
        Err(StakingError::MathOverflow)
    );
    assert_eq!(
        calculate_pending_reward(2, u128::MAX / 2, 0),
        Ok((u128::MAX - 1) / 1_000_000_000_000)
    );
    assert_eq!(calculate_pending_reward(0, u128::MAX, 0), Ok(0));
}

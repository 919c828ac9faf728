use vstd::prelude::*;
use crate::state::{
    GlobalPool, UserStakeInfo, ACCUMULATED_REWARD_PER_SHARE_PRECISION, UNCLAIMED_REWARD_FLAG,
};

verus! {

/// What `amount` staked units have earned since the pool began, at
/// accumulator value `acc`: `amount * acc / 1e12`, rounded down.
pub open spec fn accrued_reward(amount: nat, acc: nat) -> nat {
    amount * acc / (ACCUMULATED_REWARD_PER_SHARE_PRECISION as nat)
}

/// What a balance is owed beyond its debt: the accrued reward less the debt,
/// and zero where the debt is the larger.
pub open spec fn pending_reward(amount: nat, acc: nat, debt: nat) -> nat {
    let accrued = accrued_reward(amount, acc);
    if accrued >= debt {
        (accrued - debt) as nat
    } else {
        0
    }
}

impl GlobalPool {
    /// Whether time has passed for a pool with something staked, so that
    /// the accumulator moves.
    pub open spec fn accrues(self, now: i64) -> bool {
        self.total_staked > 0 && now > self.last_reward_time
    }

    /// Reward emitted between the last accrual and `now`.
    pub open spec fn emitted(self, now: i64) -> nat {
        (self.reward_per_second * (now - self.last_reward_time)) as nat
    }

    /// By how much the accumulator rises at `now`:
    /// `emitted * 1e12 / total_staked`, rounded down.
    pub open spec fn share_increase(self, now: i64) -> nat {
        self.emitted(now) * (ACCUMULATED_REWARD_PER_SHARE_PRECISION as nat)
            / (self.total_staked as nat)
    }

    /// Whether bringing the pool to `now` leaves the 128 bits of the
    /// accumulator.
    pub open spec fn accrual_overflows(self, now: i64) -> bool {
        self.accrues(now) && (
            self.emitted(now) * ACCUMULATED_REWARD_PER_SHARE_PRECISION > u128::MAX
                || self.accumulated_reward_per_share + self.share_increase(now) > u128::MAX
        )
    }

    /// Whether `after` is what one operation can make of this pool: the
    /// pool as it was, or brought to some time with its total changed.
    pub open spec fn moved_to(self, after: GlobalPool) -> bool {
        after == self || exists|now: i64|
            !self.accrual_overflows(now) && after == (GlobalPool {
                total_staked: after.total_staked,
                ..#[trigger] self.accrued_to(now)
            })
    }

    /// The pool brought to `now`. With nothing staked only the clock moves;
    /// with no time passed nothing does.
    pub open spec fn accrued_to(self, now: i64) -> GlobalPool {
        if self.total_staked == 0 {
            GlobalPool { last_reward_time: now, ..self }
        } else if now <= self.last_reward_time {
            self
        } else {
            GlobalPool {
                accumulated_reward_per_share: (self.accumulated_reward_per_share
                    + self.share_increase(now)) as u128,
                last_reward_time: now,
                ..self
            }
        }
    }
}

/// What a bucket can claim at accumulator value `acc`: the pending reward of
/// its balance, or, of an empty bucket whose debt has the top bit set, the
/// reward stored in the bits below.
pub open spec fn claimable_reward(amount: u64, acc: nat, reward_debt: u128) -> nat {
    if amount > 0 {
        pending_reward(amount as nat, acc, reward_debt as nat)
    } else if reward_debt >= UNCLAIMED_REWARD_FLAG {
        (reward_debt - UNCLAIMED_REWARD_FLAG) as nat
    } else {
        0
    }
}

impl UserStakeInfo {
    /// What the bucket can claim at accumulator value `acc`.
    pub open spec fn claimable(self, acc: nat) -> nat {
        claimable_reward(self.amount, acc, self.reward_debt)
    }

    /// Whether the debt of the bucket's balance is no more than the balance
    /// has accrued at `acc`, so that nothing was cut off what it is owed.
    pub open spec fn debt_covered(self, acc: nat) -> bool {
        self.amount > 0 ==> self.reward_debt <= accrued_reward(self.amount as nat, acc)
    }

    /// The bucket once its reward has been paid at `acc`: the debt of a
    /// balance is what it has accrued, that of an empty bucket is zero.
    pub open spec fn settled(self, acc: nat) -> UserStakeInfo {
        UserStakeInfo {
            reward_debt: if self.amount == 0 {
                0
            } else {
                accrued_reward(self.amount as nat, acc) as u128
            },
            ..self
        }
    }
}

/// A larger balance has accrued no less.
pub proof fn lemma_accrued_monotonic(a: nat, b: nat, acc: nat)
    requires
        a <= b,
    ensures
        a * acc <= b * acc,
        accrued_reward(a, acc) <= accrued_reward(b, acc),
{
    assert(a * acc <= b * acc) by (nonlinear_arith)
        requires
            a <= b,
    ;
    vstd::arithmetic::div_mod::lemma_div_is_ordered(
        (a * acc) as int,
        (b * acc) as int,
        ACCUMULATED_REWARD_PER_SHARE_PRECISION as int,
    );
}

/// A balance has accrued no less at a larger accumulator value.
pub proof fn lemma_accrued_monotonic_in_acc(a: nat, acc1: nat, acc2: nat)
    requires
        acc1 <= acc2,
    ensures
        a * acc1 <= a * acc2,
        accrued_reward(a, acc1) <= accrued_reward(a, acc2),
{
    assert(a * acc1 <= a * acc2) by (nonlinear_arith)
        requires
            acc1 <= acc2,
    ;
    vstd::arithmetic::div_mod::lemma_div_is_ordered(
        (a * acc1) as int,
        (a * acc2) as int,
        ACCUMULATED_REWARD_PER_SHARE_PRECISION as int,
    );
}

} // verus!

//! Staking-reward accounting: a pool-wide reward accumulator, per-owner
//! lock-period buckets, and the four operations that move them
//! (initialize, stake, unstake, claim), each an atomic state transition
//! with a proved contract.

pub mod error;
pub mod address;
pub mod state;
pub mod rewards;
pub mod instructions;
pub mod guarantees;

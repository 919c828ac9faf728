//! The four operations and the accounts each one works on.

pub mod initialize;
pub mod stake;
pub mod unstake;
pub mod claim;

pub use self::claim::{claim, Claim};
pub use self::initialize::{initialize, Initialize};
pub use self::stake::{calculate_pending_reward, stake, update_pool, Stake};
pub use self::unstake::{unstake, Unstake};

//! Time-weighted staking rewards: a reward pool released month by month,
//! a daily rate derived from pool utilization, and stake positions that
//! accrue rewards week by week.

pub mod error;
pub mod schedule;
pub mod state;
pub mod address;
pub mod pool;
pub mod accrual;
pub mod claim;
pub mod lifecycle;
pub mod laws;

pub use error::StakingError;

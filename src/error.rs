use vstd::prelude::*;

verus! {

/// Every way an operation of the staking engine can fail.
#[derive(Clone, Copy, Debug, PartialEq, Eq, Structural)]
pub enum StakingError {
    InvalidDuration,
    RewardPoolExhausted,
    StakeNotActive,
    NoRewardsAvailable,
    Unauthorized,
    Overflow,
    Underflow,
    DivisionByZero,
    ProgramNotEnded,
    DayIndexOutOfBounds,
    InvalidStakeIndex,
    AccountNotInitialized,
    StakeEntryAlreadyExists,
    InvalidNormalizationK,
    TransferMismatch,
}

impl StakingError {
    /// The message text of each error kind.
    pub open spec fn message_spec(self) -> Seq<char> {
        match self {
            StakingError::InvalidDuration => "Invalid staking duration"@,
            StakingError::RewardPoolExhausted => "Reward pool exhausted"@,
            StakingError::StakeNotActive => "Stake not active"@,
            StakingError::NoRewardsAvailable => "No rewards available"@,
            StakingError::Unauthorized => "Unauthorized"@,
            StakingError::Overflow => "Overflow"@,
            StakingError::Underflow => "Underflow"@,
            StakingError::DivisionByZero => "Division by zero"@,
            StakingError::ProgramNotEnded => "Program not ended"@,
            StakingError::DayIndexOutOfBounds => "Day index out of bounds"@,
            StakingError::InvalidStakeIndex => "Invalid stake index"@,
            StakingError::AccountNotInitialized => "Account not initialized"@,
            StakingError::StakeEntryAlreadyExists => "Stake entry already exists"@,
            StakingError::InvalidNormalizationK => "Invalid normalization K value"@,
            StakingError::TransferMismatch => "Vault balance change does not match the transfer"@,
        }
    }

    /// Human-readable message for the error kind.
    pub fn message(&self) -> (r: &'static str)
        ensures
            r@ == self.message_spec(),
    {
        match self {
            StakingError::InvalidDuration => "Invalid staking duration",
            StakingError::RewardPoolExhausted => "Reward pool exhausted",
            StakingError::StakeNotActive => "Stake not active",
            StakingError::NoRewardsAvailable => "No rewards available",
            StakingError::Unauthorized => "Unauthorized",
            StakingError::Overflow => "Overflow",
            StakingError::Underflow => "Underflow",
            StakingError::DivisionByZero => "Division by zero",
            StakingError::ProgramNotEnded => "Program not ended",
            StakingError::DayIndexOutOfBounds => "Day index out of bounds",
            StakingError::InvalidStakeIndex => "Invalid stake index",
            StakingError::AccountNotInitialized => "Account not initialized",
            StakingError::StakeEntryAlreadyExists => "Stake entry already exists",
            StakingError::InvalidNormalizationK => "Invalid normalization K value",
            StakingError::TransferMismatch => "Vault balance change does not match the transfer",
        }
    }
}

} // verus!

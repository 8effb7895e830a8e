use vstd::prelude::*;

verus! {

/// Why a staking call was refused.
#[derive(Copy, Clone, Debug, PartialEq, Eq, PartialOrd, Ord, Structural)]
pub enum StakingError {
    /// No token has been configured yet.
    NotInitialized,
    /// The contract has been configured before.
    AlreadyInitialized,
    /// Staking and unstaking are suspended.
    Paused,
    /// The amount is zero or negative.
    InvalidAmount,
    /// The amount exceeds what the staker has staked.
    InsufficientStake,
}

impl StakingError {
    /// The number under which the ledger reports the error.
    pub open spec fn spec_code(self) -> u32 {
        match self {
            StakingError::NotInitialized => 1,
            StakingError::AlreadyInitialized => 2,
            StakingError::Paused => 3,
            StakingError::InvalidAmount => 4,
            StakingError::InsufficientStake => 5,
        }
    }

    /// Returns the number under which the ledger reports the error.
    pub fn code(self) -> (code: u32)
        ensures
            code == self.spec_code(),
            self is NotInitialized <==> code == 1,
            self is AlreadyInitialized <==> code == 2,
            self is Paused <==> code == 3,
            self is InvalidAmount <==> code == 4,
            self is InsufficientStake <==> code == 5,
    {
        match self {
            StakingError::NotInitialized => 1,
            StakingError::AlreadyInitialized => 2,
            StakingError::Paused => 3,
            StakingError::InvalidAmount => 4,
            StakingError::InsufficientStake => 5,
        }
    }
}

/// Error numbers are unambiguous: two errors with the same number are equal.
pub proof fn law_error_codes_are_distinct(a: StakingError, b: StakingError)
    ensures
        a.spec_code() == b.spec_code() <==> a == b,
{
}

} // verus!

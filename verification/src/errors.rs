//! The ways in which an operation of the game can be refused.

use vstd::prelude::*;

verus! {

/// Why an operation was refused. A refused operation changes nothing.
#[derive(Clone, Copy, Debug, PartialEq, Eq, Structural)]
pub enum IdleGameError {
    /// A sum or difference would leave the 64-bit range.
    ArithmeticOverflow,
    /// The generator id names no entry of the catalog.
    InvalidGeneratorType,
    /// The balance does not cover the price.
    InsufficientBalance,
    /// The holding of one generator kind cannot grow any further.
    MaxGeneratorsReached,
    /// Nothing has accrued since the last claim.
    NoRewardsToClaim,
    /// A computation gave no usable result.
    InvalidCalculation,
    /// The game is paused.
    GamePaused,
    /// The caller is not the game's administrator.
    UnauthorizedAdmin,
}

impl IdleGameError {
    /// The text shown to a user for this error.
    pub open spec fn spec_message(self) -> Seq<char> {
        match self {
            IdleGameError::ArithmeticOverflow => "Arithmetic overflow occurred"@,
            IdleGameError::InvalidGeneratorType => "Invalid generator type"@,
            IdleGameError::InsufficientBalance => "Insufficient balance to purchase generator"@,
            IdleGameError::MaxGeneratorsReached => "Maximum generators reached"@,
            IdleGameError::NoRewardsToClaim => "No rewards to claim"@,
            IdleGameError::InvalidCalculation => "Invalid calculation"@,
            IdleGameError::GamePaused => "Game is paused"@,
            IdleGameError::UnauthorizedAdmin => "Unauthorized admin action"@,
        }
    }

    /// The text shown to a user for this error.
    pub fn message(&self) -> (text: &'static str)
        ensures
            text@ == self.spec_message(),
    {
        match self {
            IdleGameError::ArithmeticOverflow => "Arithmetic overflow occurred",
            IdleGameError::InvalidGeneratorType => "Invalid generator type",
            IdleGameError::InsufficientBalance => "Insufficient balance to purchase generator",
            IdleGameError::MaxGeneratorsReached => "Maximum generators reached",
            IdleGameError::NoRewardsToClaim => "No rewards to claim",
            IdleGameError::InvalidCalculation => "Invalid calculation",
            IdleGameError::GamePaused => "Game is paused",
            IdleGameError::UnauthorizedAdmin => "Unauthorized admin action",
        }
    }
}

} // verus!

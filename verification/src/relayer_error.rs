//! Why a relayer operation is refused.

use vstd::prelude::*;

verus! {

/// Why a relayer operation is refused.
#[derive(Clone, Copy, Debug, PartialEq, Eq, Structural)]
pub enum RelayerError {
    /// The applicant is listed already.
    AlreadyApplied,
    /// Less is attached than the stake that is required.
    InsufficientStake,
    /// The account that resigns is not listed.
    RelayerNotFound,
    /// The relayer that resigns is still waiting.
    NotActiveYet,
    /// The account that is rejected is not listed.
    ApplicationNotFound,
    /// The caller of a guarded method is not a trusted relayer.
    NotTrusted,
    /// What is stored as the configuration is not one.
    ConfigUnreadable,
}

impl RelayerError {
    /// The message that a contract call ends with.
    pub open spec fn text(self) -> Seq<char> {
        match self {
            RelayerError::AlreadyApplied => "Relayer application already exists"@,
            RelayerError::InsufficientStake => "Insufficient stake for relayer application"@,
            RelayerError::RelayerNotFound => "Relayer not found"@,
            RelayerError::NotActiveYet => "Relayer is not active yet"@,
            RelayerError::ApplicationNotFound => "Relayer application not found"@,
            RelayerError::NotTrusted => "Relayer is not active"@,
            RelayerError::ConfigUnreadable => "Failed to deserialize RelayerConfig"@,
        }
    }

    /// The message that a contract call ends with.
    pub fn message(&self) -> (text: &'static str)
        ensures
            text@ == self.text(),
    {
        match self {
            RelayerError::AlreadyApplied => "Relayer application already exists",
            RelayerError::InsufficientStake => "Insufficient stake for relayer application",
            RelayerError::RelayerNotFound => "Relayer not found",
            RelayerError::NotActiveYet => "Relayer is not active yet",
            RelayerError::ApplicationNotFound => "Relayer application not found",
            RelayerError::NotTrusted => "Relayer is not active",
            RelayerError::ConfigUnreadable => "Failed to deserialize RelayerConfig",
        }
    }
}

} // verus!

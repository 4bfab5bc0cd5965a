use vstd::prelude::*;

verus! {

/// Every way an operation can be refused. Each failure aborts the whole
/// operation with zero state mutation; the variant tells a caller whether
/// the condition is permanent (validation) or transient (throttling).
#[derive(Clone, Copy, Debug, PartialEq, Eq, Structural)]
pub enum ContractError {
    /// The caller lacks the owner capability required by the operation.
    Unauthorized,
    /// The contract is paused; transfers and claims are refused.
    Paused,
    /// The amount exceeds the configured per-transaction ceiling.
    TransactionValueTooHigh,
    /// The rolling-window volume plus this amount exceeds the daily limit.
    DailyLimitExceeded,
    /// A risk-parameter update carries a limit of zero.
    InvalidRiskParameters,
    /// A grant's times are not ordered `start < end`, `start <= cliff <= end`.
    InvalidVestingSchedule,
    /// No vested amount is currently claimable.
    NoVestingToClaim,
    /// The signature does not verify against the signer's registered key.
    InvalidSignature,
    /// The account's sequence counter has reached its maximum; the account
    /// is retired from further transfers rather than wrapping.
    NonceOverflow,
    /// The submitted nonce is not the account's next expected sequence
    /// number: a replayed or out-of-order submission.
    InvalidNonce,
    /// The debited amount exceeds the balance covered by aged funds.
    InsufficientFunds,
    /// A checked addition or multiplication on amounts would exceed the
    /// maximum representable value.
    Overflow,
    /// The sender's latest transfer is within the cooling period of now.
    CoolingPeriod,
    /// Too many operations inside the configured rate window.
    RateLimitExceeded,
}

impl ContractError {
    /// A short human-readable description of the error.
    pub fn message(&self) -> String {
        match self {
            ContractError::Unauthorized => "unauthorized operation".to_string(),
            ContractError::Paused => "contract is paused".to_string(),
            ContractError::TransactionValueTooHigh => {
                "transaction value exceeds maximum allowed".to_string()
            },
            ContractError::DailyLimitExceeded => "daily transaction limit exceeded".to_string(),
            ContractError::InvalidRiskParameters => "invalid risk parameters".to_string(),
            ContractError::InvalidVestingSchedule => "invalid vesting schedule".to_string(),
            ContractError::NoVestingToClaim => "no vesting to claim".to_string(),
            ContractError::InvalidSignature => "invalid signature".to_string(),
            ContractError::NonceOverflow => "nonce overflow".to_string(),
            ContractError::InvalidNonce => "invalid or replayed nonce".to_string(),
            ContractError::InsufficientFunds => "insufficient aged funds".to_string(),
            ContractError::Overflow => "arithmetic overflow".to_string(),
            ContractError::CoolingPeriod => "account in cooling period".to_string(),
            ContractError::RateLimitExceeded => "rate limit exceeded".to_string(),
        }
    }
}

} // verus!

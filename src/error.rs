use vstd::prelude::*;

verus! {

/// Why an operation of the ledger was refused. A refused operation changes nothing.
#[derive(Clone, Copy, Debug, PartialEq, Eq, Structural)]
pub enum PayviaError {
    /// No account is registered under the identity.
    UserNotFound,
    /// An account is already registered under the identity.
    DuplicateAccount,
    /// The sender of a transfer has no account.
    SenderNotFound,
    /// The recipient of a transfer has no account.
    RecipientNotFound,
    /// The balance to be debited is below the amount.
    InsufficientBalance,
    /// A balance would leave the range of `i128`.
    BalanceOverflow,
    /// The amount is not allowed: a negative transfer, or a request of zero or less.
    InvalidAmount,
    /// The ledger already has an administrator.
    AlreadyInitialized,
    /// The caller is not the administrator.
    Unauthorized,
    /// No bill payment has the id.
    PaymentNotFound,
    /// No withdrawal has the id.
    WithdrawalNotFound,
}

impl PayviaError {
    /// A short text for the error, for callers that report failures as text.
    pub fn message(&self) -> &'static str {
        match self {
            PayviaError::UserNotFound => "User not found",
            PayviaError::DuplicateAccount => "User already exists",
            PayviaError::SenderNotFound => "Sender not found",
            PayviaError::RecipientNotFound => "Recipient not found",
            PayviaError::InsufficientBalance => "Insufficient balance",
            PayviaError::BalanceOverflow => "Balance out of range",
            PayviaError::InvalidAmount => "Invalid amount",
            PayviaError::AlreadyInitialized => "Already initialized",
            PayviaError::Unauthorized => "Unauthorized",
            PayviaError::PaymentNotFound => "Payment not found",
            PayviaError::WithdrawalNotFound => "Withdrawal not found",
        }
    }
}

} // verus!

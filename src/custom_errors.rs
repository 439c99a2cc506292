use vstd::prelude::*;

verus! {

/// The kind of a fatal error raised while applying a record.
#[derive(Clone, Copy, Debug, PartialEq, Eq, Structural)]
pub enum TransactionErrorType {
    NoDepositAmount,
    NoWithdrawalAmount,
}

/// A fatal error raised while applying a record: a deposit or a withdrawal
/// without an amount.
#[derive(Clone, Copy, Debug, PartialEq, Eq, Structural)]
pub struct TransactionRecordError {
    pub error_type: TransactionErrorType,
}

impl TransactionRecordError {
    /// The user-facing text of the error.
    pub fn message(&self) -> (r: &'static str)
        ensures
            r@ == match self.error_type {
                TransactionErrorType::NoDepositAmount => "A deposit must have an amount"@,
                TransactionErrorType::NoWithdrawalAmount => "An withdrawal must have an amount"@,
            },
    {
        match self.error_type {
            TransactionErrorType::NoDepositAmount => "A deposit must have an amount",
            TransactionErrorType::NoWithdrawalAmount => "An withdrawal must have an amount",
        }
    }
}

} // verus!

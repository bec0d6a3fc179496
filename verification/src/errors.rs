//! The ways in which a command can fail.
use vstd::prelude::*;

verus! {

/// An error that ends the execution of one command. The state is as it was
/// before the command.
#[derive(Clone, Copy, Debug, PartialEq, Eq, Structural)]
pub enum CreditError {
    NotImplemented,
    CallerNotAllowed,
    /// The command was submitted on, or sent from, a chain that may not issue it.
    OperationNotAllowed,
    SessionsNotSupported,
    /// The account holds less spendable credit than the transfer asks for.
    InsufficientAccountBalance,
    /// The command needs an authenticated signer and carries none.
    InvalidSigner,
    /// The command was not delivered as a message, so it has no origin chain.
    InvalidMessageId,
}

impl CreditError {
    /// The text that describes the error.
    pub fn message(&self) -> (text: &'static str)
        ensures
            text@ == match *self {
                CreditError::NotImplemented => "NOT IMPLEMENTED"@,
                CreditError::CallerNotAllowed => "Caller not allowed"@,
                CreditError::OperationNotAllowed => "Operation not allowed"@,
                CreditError::SessionsNotSupported => "Cross-application sessions not supported"@,
                CreditError::InsufficientAccountBalance => "Insufficient account balance"@,
                CreditError::InvalidSigner => "Invalid signer"@,
                CreditError::InvalidMessageId => "Invalid message id"@,
            },
    {
        match self {
            CreditError::NotImplemented => "NOT IMPLEMENTED",
            CreditError::CallerNotAllowed => "Caller not allowed",
            CreditError::OperationNotAllowed => "Operation not allowed",
            CreditError::SessionsNotSupported => "Cross-application sessions not supported",
            CreditError::InsufficientAccountBalance => "Insufficient account balance",
            CreditError::InvalidSigner => "Invalid signer",
            CreditError::InvalidMessageId => "Invalid message id",
        }
    }
}

} // verus!

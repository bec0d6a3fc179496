//! What callers submit, on any chain, and what the home chain receives.
use crate::instantiation_argument::InstantiationArgument;
use crate::types::{AccountOwner, ApplicationId};
use vstd::prelude::*;

verus! {

/// The interface of the credit application.
#[derive(Clone, Copy, Debug, PartialEq, Eq, Structural)]
pub struct CreditAbi;

/// What an operation answers.
pub type OperationResponse = ();

/// An intent, submitted on any chain.
#[derive(Clone, Debug, PartialEq, Eq)]
pub enum Operation {
    Liquidate,
    Transfer { from: AccountOwner, to: AccountOwner, amount: u128 },
    TransferExt { to: AccountOwner, amount: u128 },
    SetRewardCallers { application_ids: Vec<ApplicationId> },
    SetTransferCallers { application_ids: Vec<ApplicationId> },
    RequestSubscribe,
    Reward { owner: AccountOwner, amount: u128 },
}

/// A command, routed to the home chain and applied there.
#[derive(Clone, Debug, PartialEq, Eq)]
pub enum Message {
    InstantiationArgument { argument: InstantiationArgument },
    Liquidate,
    Reward { owner: AccountOwner, amount: u128 },
    Transfer { from: AccountOwner, to: AccountOwner, amount: u128 },
    TransferExt { to: AccountOwner, amount: u128 },
    SetRewardCallers { application_ids: Vec<ApplicationId> },
    SetTransferCallers { application_ids: Vec<ApplicationId> },
    RequestSubscribe,
}

} // verus!

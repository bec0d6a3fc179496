//! The configuration of a ledger, fixed when the application is instantiated.
use vstd::prelude::*;

verus! {

/// The supply that the pool starts with, in attos, and the lifetime of every
/// chunk of credit.
#[derive(Clone, Copy, Debug, PartialEq, Eq, Structural)]
pub struct InstantiationArgument {
    pub initial_supply: u128,
    pub amount_alive_ms: u64,
}

} // verus!

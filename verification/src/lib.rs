//! An aging-balance credit ledger: credit is issued with a fixed lifetime,
//! spent oldest first, and swept back into a shared pool once it expires.
//! Every mutation is routed to the home chain of the application and applied
//! there by a single writer.
use vstd::prelude::*;

pub mod abi;
pub mod amount;
pub mod contract;
pub mod errors;
pub mod handlers;
pub mod instantiation_argument;
pub mod laws;
pub mod leaderboard;
pub mod runtime;
pub mod state;
pub mod types;

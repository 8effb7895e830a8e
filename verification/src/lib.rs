//! The rules of a single-token staking pool.
//!
//! The pool runs as a ledger contract: a host keeps its storage, checks
//! signatures and moves tokens. This library holds every decision of the
//! contract as verified code over plain values. A call reads the stored state
//! out of an [`Env`], updates it, and appends to it the requests that the host
//! has to carry out, in order.

pub mod address;
pub mod balances;
pub mod contract;
pub mod env;
pub mod error;
pub mod history;
pub mod laws;
pub mod model;
pub mod operations;

pub use address::Address;
pub use balances::StakedBalances;
pub use contract::StakingContract;
pub use env::{Effect, Env, InstanceKey, Topic};
pub use error::StakingError;

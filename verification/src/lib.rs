//! A decentralized micro-insurance pool: members pay premiums into a shared
//! pool, file claims, vote on each other's claims within a voting window,
//! and approved claims are paid out of the pool.
pub mod laws;
mod lemmas;
pub mod model;
pub mod pool;
pub mod types;

pub use model::PoolView;
pub use pool::{Member, MicroInsurancePool, PoolConfig, PoolRecord, Vote};
pub use types::{Claim, ClaimOutcome, ClaimStatus, ContractError, TokenTransfer};

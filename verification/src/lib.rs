//! Crowdfunding escrow ledger: pledges toward a funding goal, per-donor
//! accounting, a project lifecycle, and settlement that releases escrowed
//! funds at most once.
//!
//! The ledger decides; the caller moves the money. Every operation that moves
//! funds comes as a pair: a read-only check that says which transfer is due,
//! and the operation itself, which takes the outcome of that transfer and
//! commits only when it was acknowledged.

pub mod errors;
pub mod storage_types;
pub mod ledger;
pub mod lifecycle;
pub mod contract;
pub mod laws;

pub use contract::CrowdfundingContract;
pub use errors::{u128_to_i128, ContractError};
pub use storage_types::{
    Address, DataKey, DonationData, Project, ProjectEntry, ProjectStatus, Record,
};

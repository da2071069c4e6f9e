//! Stake-weighted on-chain governance: proposals, votes, delegation opt-outs,
//! block-driven resolution, a DAO treasury and a curated-module whitelist.
use vstd::prelude::*;

pub mod config;
pub mod dao;
pub mod error;
pub mod laws;
pub mod pallet;
pub mod proposal;

verus! {

/// Identifier of an account on the network.
pub type AccountId = u64;

/// Identifier of a subnet.
pub type SubnetId = u16;

} // verus!

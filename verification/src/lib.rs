//! Shared-revenue ledgers: a registry of holders with fixed shares in basis
//! points, and the engine that splits a pool of value among them exactly.
//!
//! A ledger belongs to one administrator, who alone replaces its registry
//! and enables or disables it. A distribution pays every holder the part of
//! the pool that its share stands for, rounded down, and the first holder
//! what the rounding leaves over, so that the payouts add up to the pool.
//! The library decides and computes; moving the value is left to its caller.

pub mod account;
pub mod associated_token;
pub mod distribution;
pub mod instructions;
pub mod ledger;
pub mod pubkey;
pub mod shares;

pub use account::{ErrorCode, ShareHolder, ShareStorage, ShareStorageOps, SplShareStorage};
pub use instructions::{
    check_name, check_name_space, deposit_funds, disable_share_storage,
    disable_spl_share_storage, distribute_share, distribute_spl_share, enable_share_storage,
    enable_spl_share_storage, initialize_share_storage, initialize_spl_share_storage,
    replace_holders, set_holders, set_spl_holders,
};
pub use pubkey::Pubkey;

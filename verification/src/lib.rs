//! A multi-pool staking-reward accounting engine.
//!
//! Stakers deposit a fungible asset into a shared pool (a [`Farm`]) and earn
//! proportional yield from up to eight independently scheduled reward streams
//! ("crops"), each with its own rate, vault, and expiry. The engine keeps
//! time-weighted reward-per-share bookkeeping, per-position reward debt, and
//! lifecycle state for crops and stakes. All value transfers are returned to
//! the caller as [`ids::TokenTransfer`] requests; the surrounding host performs
//! them and persists the records.

use vstd::prelude::*;

pub mod accrual;
pub mod errors;
pub mod ids;
pub mod laws;
pub mod ops;
pub mod pda;
pub mod state;

pub use errors::FarmError;
pub use ids::{AccountId, TokenAccountInfo, TokenTransfer, TransferAuthority};
pub use ops::{
    add_crop, create_crop_vault, create_farm, create_stake, gather_rewards, remove_crop,
    stake_tokens, unstake_tokens, CROP_SLOT_CAP,
};
pub use accrual::update_reward_debt;
pub use pda::create_protocol;
pub use state::{Crop, Farm, Protocol, Stake, StakeSlot, SLOT_COUNT};

verus! {

/// Fixed-point scaler (2^63) used to retain fractional precision through the
/// integer division in per-share reward computation.
pub const PRECISION: u128 = 9223372036854775808;

/// The fixed-point scaler, as a function for callers that want one.
pub fn get_precision_scaler() -> (r: u128)
    ensures
        r == PRECISION,
{
    PRECISION
}

} // verus!


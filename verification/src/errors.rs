//! The typed failures an operation can report.
//!
//! Every precondition is checked eagerly at the start of an operation; a
//! failure aborts the whole operation with no mutation applied. Arithmetic
//! that would overflow or underflow is reported as [`FarmError::ArithmeticOverflow`]
//! instead of wrapping.

use vstd::prelude::*;

verus! {

#[derive(Clone, Copy, PartialEq, Eq, Structural, Debug)]
pub enum FarmError {
    /// Signer or owner mismatch, or a record bound to a different farm.
    Unauthorized,
    /// Wrong vault/asset pairing.
    AssetMismatch,
    /// Crop slot index at or beyond the cap.
    IndexOutOfRange,
    /// The target crop slot is already in use.
    SlotOccupied,
    /// The target crop slot is empty.
    SlotEmpty,
    /// Retirement attempted before the crop's schedule expired.
    CropActive,
    /// Retirement attempted while stakers have not settled this crop.
    SettlementIncomplete,
    /// Withdrawal exceeds the staked position.
    InsufficientStake,
    /// The value-transfer collaborator reported a failure.
    TransferFailed,
    /// An internal computation would overflow, underflow, or divide by zero.
    ArithmeticOverflow,
}

} // verus!

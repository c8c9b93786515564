//! Plain identifiers and value-transfer requests.
//!
//! The engine never verifies signatures or moves tokens itself: it compares
//! public identifiers and hands the host a description of each transfer to
//! perform. An [`AccountId`] stands for one on-ledger account address.

use vstd::prelude::*;

verus! {

/// An opaque on-ledger account address, compared only for equality.
#[derive(Clone, Copy, PartialEq, Eq, Structural, Debug)]
pub struct AccountId {
    pub id: u128,
}

/// What the engine reads of a token account: its address, the asset (mint)
/// it holds, the account's owner, and its current balance.
#[derive(Clone, Copy, PartialEq, Eq, Structural, Debug)]
pub struct TokenAccountInfo {
    pub key: AccountId,
    pub mint: AccountId,
    pub owner: AccountId,
    pub amount: u64,
}

/// Who must sign the requested transfer: the operation's caller, or the
/// protocol's derived signing identity (for vaults the protocol controls).
#[derive(Clone, Copy, PartialEq, Eq, Structural, Debug)]
pub enum TransferAuthority {
    Caller,
    Protocol,
}

/// A value transfer the host must perform on the engine's behalf.
#[derive(Clone, Copy, PartialEq, Eq, Structural, Debug)]
pub struct TokenTransfer {
    pub from: AccountId,
    pub to: AccountId,
    pub authority: TransferAuthority,
    pub amount: u64,
}

} // verus!

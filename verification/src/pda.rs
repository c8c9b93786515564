//! The protocol singleton and its derived signing identity.
//!
//! The protocol's authority over its vaults is a program-derived address: a
//! bump byte found by hashing the seed bytes and the program id. The
//! derivation itself is done by the ledger SDK; its outcome is named by the
//! uninterpreted functions [`pda_found`] (whether the search succeeds) and
//! [`pda_bump`] (the bump it finds), both functions of the seed bytes and
//! the program id alone.

use vstd::prelude::*;

use crate::state::Protocol;

verus! {

/// Whether program-address derivation finds a viable bump byte for the
/// given seed bytes and program id. The search is deterministic in those
/// arguments alone; it fails only in the statistically improbable event
/// that all 255 bump bytes land on the curve.
pub uninterp spec fn pda_found(seed: Seq<u8>, program_id: u128) -> bool;

/// The bump byte that program-address derivation finds for the given seed
/// bytes and program id. The derivation is a chain of SHA-256 hashes; only
/// its determinism is relied on, so the result is left uninterpreted.
pub uninterp spec fn pda_bump(seed: Seq<u8>, program_id: u128) -> u8;

/// The seed bytes of the protocol's signing identity: the ASCII bytes of
/// "protocol".
pub open spec fn protocol_seed() -> Seq<u8> {
    seq![112u8, 114u8, 111u8, 116u8, 111u8, 99u8, 111u8, 108u8]
}

/// Relies on `Pubkey::try_find_program_address` (re-exported by anchor_lang
/// from the ledger SDK): off-chain it searches bump bytes downward from 255,
/// hashing seeds, bump and program id, and its result depends on those
/// arguments alone — both whether a bump exists ([`pda_found`]) and which
/// one the search yields ([`pda_bump`]).
#[verifier::external_body]
fn find_pda_bump(seed: &Vec<u8>, program_id: u128) -> (r: Option<u8>)
    ensures
        r is Some <==> pda_found(seed@, program_id),
        r matches Some(b) ==> b == pda_bump(seed@, program_id),
{
    let mut bytes = [0u8; 32];
    bytes[..16].copy_from_slice(&program_id.to_le_bytes());
    let pid = anchor_lang::prelude::Pubkey::new_from_array(bytes);
    anchor_lang::prelude::Pubkey::try_find_program_address(&[seed.as_slice()], &pid).map(|p| p.1)
}

/// The protocol seed bytes as a vector.
fn protocol_seed_vec() -> (r: Vec<u8>)
    ensures
        r@ == protocol_seed(),
{
    let mut r: Vec<u8> = Vec::new();
    r.push(112);
    r.push(114);
    r.push(111);
    r.push(116);
    r.push(111);
    r.push(99);
    r.push(111);
    r.push(108);
    proof {
        assert(r@ =~= protocol_seed());
    }
    r
}

/// Create the protocol singleton for the program addressed by `program_id`:
/// its bump byte is the one found by program-address derivation over the
/// protocol seed. Succeeds exactly when the derivation finds a bump, which
/// it fails to do only in the statistically improbable event that no bump
/// byte yields a valid derived address.
pub fn create_protocol(program_id: u128) -> (r: Option<Protocol>)
    ensures
        r is Some <==> pda_found(protocol_seed(), program_id),
        r matches Some(p) ==> p.bump_seed == pda_bump(protocol_seed(), program_id),
{
    let seed = protocol_seed_vec();
    match find_pda_bump(&seed, program_id) {
        Some(b) => Some(Protocol { bump_seed: b }),
        None => None,
    }
}

} // verus!

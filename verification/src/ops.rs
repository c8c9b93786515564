//! The public operations: create the entities, fund and retire crops,
//! deposit, withdraw, and harvest.
//!
//! Every operation checks its preconditions first and returns a typed failure
//! with no mutation applied; on success it commits the new state and returns
//! the value transfer the host must perform. The checks and the resulting
//! states are specified by the `*_checks`, `*_arith_ok` and `*_post` spec
//! functions, which the contracts state exactly, error by error.

use vstd::prelude::*;

use crate::accrual::{
    accrue_arith_ok, accrued, engine_vals, lemma_accrue_upto_frame, rebaseline_arith_ok,
    rebaselined_slots, rebaselined_vec, settle_arith_ok, settled_slots,
};
use crate::errors::FarmError;
use crate::ids::{AccountId, TokenAccountInfo, TokenTransfer, TransferAuthority};
use crate::state::{
    crops_v, empty_crop_v, empty_slot_v, farm_wf, slots_v, stake_wf, Crop, CropV, Farm, FarmV,
    SlotV, Stake, StakeSlot, StakeV, SLOT_COUNT,
};

verus! {

/// Crops may only be funded or retired at slots below this cap, although a
/// farm physically holds eight slots.
pub const CROP_SLOT_CAP: usize = 5;

/// A vector of eight zeroed stake slots.
fn fresh_slots() -> (r: Vec<StakeSlot>)
    ensures
        r@.len() == SLOT_COUNT,
        forall|i: int| 0 <= i < SLOT_COUNT as int ==> #[trigger] r@[i]@ == empty_slot_v(),
{
    let mut r: Vec<StakeSlot> = Vec::new();
    let mut i: usize = 0;
    while i < SLOT_COUNT
        invariant
            0 <= i <= SLOT_COUNT,
            r@.len() == i,
            forall|k: int| 0 <= k < i as int ==> #[trigger] r@[k]@ == empty_slot_v(),
        decreases SLOT_COUNT - i,
    {
        r.push(StakeSlot { reward_debt: 0, last_gathered_at: 0, amount_owed: 0, finished: false });
        i += 1;
    }
    r
}

/// A vector of eight empty crop slots.
fn fresh_crops() -> (r: Vec<Crop>)
    ensures
        r@.len() == SLOT_COUNT,
        forall|i: int| 0 <= i < SLOT_COUNT as int ==> #[trigger] r@[i]@ == empty_crop_v(),
{
    let mut r: Vec<Crop> = Vec::new();
    let mut i: usize = 0;
    while i < SLOT_COUNT
        invariant
            0 <= i <= SLOT_COUNT,
            r@.len() == i,
            forall|k: int| 0 <= k < i as int ==> #[trigger] r@[k]@ == empty_crop_v(),
        decreases SLOT_COUNT - i,
    {
        r.push(
            Crop {
                vault: AccountId { id: 0 },
                rewards_per_second: 0,
                reward_per_token: 0,
                end_date: 0,
                created_at: 0,
                stakers_finished: 0,
            },
        );
        i += 1;
    }
    r
}

/// Create a staking pool owned by `owner`, holding assets of `stake_mint` in
/// `stake_vault`, with no stake and all eight crop slots empty.
pub fn create_farm(owner: AccountId, stake_mint: AccountId, stake_vault: AccountId, now: u64) -> (farm:
    Farm)
    ensures
        farm@.owner == owner,
        farm@.created_at == now as int,
        farm@.stake_vault == stake_vault,
        farm@.stake_mint == stake_mint,
        farm@.last_updated_at == now as int,
        farm@.total_staked_amount == 0,
        farm@.stakers == 0,
        forall|i: int| 0 <= i < SLOT_COUNT as int ==> #[trigger] farm@.crops[i] == empty_crop_v(),
        farm_wf(farm),
{
    let crops = fresh_crops();
    let farm = Farm {
        owner,
        created_at: now,
        stake_vault,
        stake_mint,
        last_updated_at: now,
        total_staked_amount: 0,
        stakers: 0,
        crops,
    };
    proof {
        assert forall|i: int| 0 <= i < SLOT_COUNT as int implies #[trigger] farm@.crops[i]
            == empty_crop_v() by {
            assert(farm@.crops[i] == farm.crops@[i]@);
        }
    }
    farm
}

/// Open a position for `owner` in the farm addressed by `farm_key`: all
/// counters and per-slot bookkeeping zeroed, and the farm's staker count
/// raised by one.
pub fn create_stake(farm: &mut Farm, farm_key: AccountId, owner: AccountId, now: u64) -> (stake:
    Stake)
    requires
        farm_wf(*old(farm)),
        old(farm).stakers < u64::MAX,
    ensures
        final(farm)@ == (FarmV { stakers: old(farm)@.stakers + 1, ..old(farm)@ }),
        farm_wf(*final(farm)),
        stake@.owner == owner,
        stake@.farm == farm_key,
        stake@.created_at == 0,
        stake@.amount_staked == 0,
        stake@.last_updated_at == now as int,
        forall|i: int| 0 <= i < SLOT_COUNT as int ==> #[trigger] stake@.slots[i] == empty_slot_v(),
        stake_wf(stake),
{
    farm.stakers = farm.stakers + 1;
    let slots = fresh_slots();
    let stake = Stake {
        owner,
        created_at: 0,
        amount_staked: 0,
        last_updated_at: now,
        farm: farm_key,
        slots,
    };
    proof {
        assert(farm@ =~= (FarmV { stakers: old(farm)@.stakers + 1, ..old(farm)@ }));
        assert forall|i: int| 0 <= i < SLOT_COUNT as int implies #[trigger] stake@.slots[i]
            == empty_slot_v() by {
            assert(stake@.slots[i] == stake.slots@[i]@);
        }
    }
    stake
}

/// The position after settlement of all owed balances, everything else
/// untouched.
pub open spec fn settled_stake(f: FarmV, s: StakeV, now: int) -> StakeV {
    StakeV { slots: settled_slots(f, s.amount_staked, s.slots, now), ..s }
}

/// The precondition checks of a deposit, in the order they are made; `None`
/// means they all pass.
pub open spec fn stake_tokens_checks(
    f: FarmV,
    s: StakeV,
    farm_key: AccountId,
    stake_vault: TokenAccountInfo,
    signer_token: TokenAccountInfo,
    signer: AccountId,
) -> Option<FarmError> {
    if s.farm != farm_key {
        Some(FarmError::Unauthorized)
    } else if f.stake_vault != stake_vault.key {
        Some(FarmError::AssetMismatch)
    } else if s.owner != signer {
        Some(FarmError::Unauthorized)
    } else if signer_token.mint != stake_vault.mint {
        Some(FarmError::AssetMismatch)
    } else if signer_token.owner != signer {
        Some(FarmError::Unauthorized)
    } else {
        None
    }
}

/// All arithmetic of a deposit stays within machine bounds.
pub open spec fn stake_tokens_arith_ok(f: FarmV, s: StakeV, amount: int, now: int) -> bool {
    &&& accrue_arith_ok(f, now)
    &&& settle_arith_ok(f, s.amount_staked, s.slots, now)
    &&& f.total_staked_amount + amount <= u64::MAX
    &&& s.amount_staked + amount <= u64::MAX
    &&& rebaseline_arith_ok(accrued(f, now).crops, s.amount_staked + amount)
}

/// The farm after a successful deposit: accrued to `now`, with the total
/// raised by the deposited amount.
pub open spec fn staked_farm_post(f: FarmV, amount: int, now: int) -> FarmV {
    let g = accrued(f, now);
    FarmV { total_staked_amount: g.total_staked_amount + amount, ..g }
}

/// The position after a successful deposit: settled, raised by the deposited
/// amount, stamped, and its reward debt re-baselined against the accrued
/// accumulators.
pub open spec fn staked_stake_post(f: FarmV, s: StakeV, amount: int, now: int) -> StakeV {
    let g = accrued(f, now);
    let s1 = settled_stake(f, s, now);
    let s2 = StakeV { amount_staked: s.amount_staked + amount, last_updated_at: now, ..s1 };
    StakeV { slots: rebaselined_slots(g.crops, s2.amount_staked, s2.slots), ..s2 }
}

/// Deposit `amount` into the pool: settle all pending rewards against the old
/// position first, then raise both totals and re-baseline the reward debt.
/// Returns the transfer of `amount` from the depositor's token account into
/// the stake vault, to be performed by the host.
pub fn stake_tokens(
    farm: &mut Farm,
    stake: &mut Stake,
    farm_key: AccountId,
    stake_vault: &TokenAccountInfo,
    signer_token: &TokenAccountInfo,
    signer: AccountId,
    amount: u64,
    now: u64,
) -> (r: Result<TokenTransfer, FarmError>)
    requires
        farm_wf(*old(farm)),
        stake_wf(*old(stake)),
        amount > 0,
    ensures
        match r {
            Ok(t) => {
                &&& stake_tokens_checks(
                    old(farm)@,
                    old(stake)@,
                    farm_key,
                    *stake_vault,
                    *signer_token,
                    signer,
                ) is None
                &&& stake_tokens_arith_ok(old(farm)@, old(stake)@, amount as int, now as int)
                &&& final(farm)@ == staked_farm_post(old(farm)@, amount as int, now as int)
                &&& final(stake)@ == staked_stake_post(
                    old(farm)@,
                    old(stake)@,
                    amount as int,
                    now as int,
                )
                &&& t == (TokenTransfer {
                    from: signer_token.key,
                    to: stake_vault.key,
                    authority: TransferAuthority::Caller,
                    amount,
                })
                &&& final(farm)@.total_staked_amount == old(farm)@.total_staked_amount
                    + amount as int
                &&& final(stake)@.amount_staked == old(stake)@.amount_staked + amount as int
                &&& forall|i: int|
                    0 <= i < SLOT_COUNT as int ==> (#[trigger] final(stake)@.slots[i]).reward_debt
                        == final(stake)@.amount_staked * final(farm)@.crops[i].reward_per_token
                &&& farm_wf(*final(farm))
                &&& stake_wf(*final(stake))
            },
            Err(e) => {
                &&& *final(farm) == *old(farm)
                &&& *final(stake) == *old(stake)
                &&& match stake_tokens_checks(
                    old(farm)@,
                    old(stake)@,
                    farm_key,
                    *stake_vault,
                    *signer_token,
                    signer,
                ) {
                    Some(err) => e == err,
                    None => e == FarmError::ArithmeticOverflow && !stake_tokens_arith_ok(
                        old(farm)@,
                        old(stake)@,
                        amount as int,
                        now as int,
                    ),
                }
            },
        },
{
    if stake.farm != farm_key {
        return Err(FarmError::Unauthorized);
    }
    if farm.stake_vault != stake_vault.key {
        return Err(FarmError::AssetMismatch);
    }
    if stake.owner != signer {
        return Err(FarmError::Unauthorized);
    }
    if signer_token.mint != stake_vault.mint {
        return Err(FarmError::AssetMismatch);
    }
    if signer_token.owner != signer {
        return Err(FarmError::Unauthorized);
    }
    let out = match engine_vals(farm, stake.amount_staked, &stake.slots, now) {
        Ok(v) => v,
        Err(e) => {
            return Err(e);
        },
    };
    let new_total = match farm.total_staked_amount.checked_add(amount) {
        Some(v) => v,
        None => {
            return Err(FarmError::ArithmeticOverflow);
        },
    };
    let new_amount = match stake.amount_staked.checked_add(amount) {
        Some(v) => v,
        None => {
            return Err(FarmError::ArithmeticOverflow);
        },
    };
    let new_slots = match rebaselined_vec(&out.crops, new_amount, &out.slots) {
        Ok(v) => v,
        Err(e) => {
            return Err(e);
        },
    };
    farm.crops = out.crops;
    farm.last_updated_at = out.last_updated_at;
    farm.total_staked_amount = new_total;
    stake.slots = new_slots;
    stake.amount_staked = new_amount;
    stake.last_updated_at = now;
    proof {
        let fv = old(farm)@;
        let sv = old(stake)@;
        let inow = now as int;
        lemma_accrue_upto_frame(fv, inow, SLOT_COUNT as int);
        assert(farm@ =~= staked_farm_post(fv, amount as int, inow));
        assert(stake@ =~= staked_stake_post(fv, sv, amount as int, inow));
        assert forall|i: int|
            0 <= i < SLOT_COUNT as int implies (#[trigger] stake@.slots[i]).reward_debt
            == stake@.amount_staked * farm@.crops[i].reward_per_token by {
            assert(stake@.slots[i] == rebaselined_slots(
                accrued(fv, inow).crops,
                new_amount as int,
                settled_stake(fv, sv, inow).slots,
            )[i]);
        }
    }
    Ok(
        TokenTransfer {
            from: signer_token.key,
            to: stake_vault.key,
            authority: TransferAuthority::Caller,
            amount,
        },
    )
}

/// The precondition checks of a withdrawal, in the order they are made; a
/// request for more than the staked amount fails with `InsufficientStake`.
pub open spec fn unstake_tokens_checks(
    f: FarmV,
    s: StakeV,
    farm_key: AccountId,
    stake_vault: TokenAccountInfo,
    signer_token: TokenAccountInfo,
    signer: AccountId,
    amount: int,
) -> Option<FarmError> {
    if s.farm != farm_key {
        Some(FarmError::Unauthorized)
    } else if f.stake_vault != stake_vault.key {
        Some(FarmError::AssetMismatch)
    } else if s.owner != signer {
        Some(FarmError::Unauthorized)
    } else if signer_token.mint != stake_vault.mint {
        Some(FarmError::AssetMismatch)
    } else if signer_token.owner != signer {
        Some(FarmError::Unauthorized)
    } else if amount > s.amount_staked {
        Some(FarmError::InsufficientStake)
    } else {
        None
    }
}

/// All arithmetic of a withdrawal stays within machine bounds; in particular
/// the farm's total must cover the withdrawn amount.
pub open spec fn unstake_tokens_arith_ok(f: FarmV, s: StakeV, amount: int, now: int) -> bool {
    &&& accrue_arith_ok(f, now)
    &&& settle_arith_ok(f, s.amount_staked, s.slots, now)
    &&& amount <= f.total_staked_amount
    &&& rebaseline_arith_ok(accrued(f, now).crops, s.amount_staked - amount)
}

/// The farm after a successful withdrawal: accrued to `now`, with the total
/// lowered by the withdrawn amount.
pub open spec fn unstaked_farm_post(f: FarmV, amount: int, now: int) -> FarmV {
    let g = accrued(f, now);
    FarmV { total_staked_amount: g.total_staked_amount - amount, ..g }
}

/// The position after a successful withdrawal: settled, lowered by the
/// withdrawn amount, stamped, and re-baselined.
pub open spec fn unstaked_stake_post(f: FarmV, s: StakeV, amount: int, now: int) -> StakeV {
    let g = accrued(f, now);
    let s1 = settled_stake(f, s, now);
    let s2 = StakeV { amount_staked: s.amount_staked - amount, last_updated_at: now, ..s1 };
    StakeV { slots: rebaselined_slots(g.crops, s2.amount_staked, s2.slots), ..s2 }
}

/// Withdraw `amount` from the pool: settle all pending rewards first, then
/// lower both totals and re-baseline the reward debt. Returns the transfer of
/// `amount` out of the stake vault back to the withdrawer, authorized by the
/// protocol's signing identity.
pub fn unstake_tokens(
    farm: &mut Farm,
    stake: &mut Stake,
    farm_key: AccountId,
    stake_vault: &TokenAccountInfo,
    signer_token: &TokenAccountInfo,
    signer: AccountId,
    amount: u64,
    now: u64,
) -> (r: Result<TokenTransfer, FarmError>)
    requires
        farm_wf(*old(farm)),
        stake_wf(*old(stake)),
        amount > 0,
    ensures
        match r {
            Ok(t) => {
                &&& unstake_tokens_checks(
                    old(farm)@,
                    old(stake)@,
                    farm_key,
                    *stake_vault,
                    *signer_token,
                    signer,
                    amount as int,
                ) is None
                &&& unstake_tokens_arith_ok(old(farm)@, old(stake)@, amount as int, now as int)
                &&& final(farm)@ == unstaked_farm_post(old(farm)@, amount as int, now as int)
                &&& final(stake)@ == unstaked_stake_post(
                    old(farm)@,
                    old(stake)@,
                    amount as int,
                    now as int,
                )
                &&& t == (TokenTransfer {
                    from: stake_vault.key,
                    to: signer_token.key,
                    authority: TransferAuthority::Protocol,
                    amount,
                })
                &&& final(farm)@.total_staked_amount == old(farm)@.total_staked_amount
                    - amount as int
                &&& final(stake)@.amount_staked == old(stake)@.amount_staked - amount as int
                &&& forall|i: int|
                    0 <= i < SLOT_COUNT as int ==> (#[trigger] final(stake)@.slots[i]).reward_debt
                        == final(stake)@.amount_staked * final(farm)@.crops[i].reward_per_token
                &&& farm_wf(*final(farm))
                &&& stake_wf(*final(stake))
            },
            Err(e) => {
                &&& *final(farm) == *old(farm)
                &&& *final(stake) == *old(stake)
                &&& match unstake_tokens_checks(
                    old(farm)@,
                    old(stake)@,
                    farm_key,
                    *stake_vault,
                    *signer_token,
                    signer,
                    amount as int,
                ) {
                    Some(err) => e == err,
                    None => e == FarmError::ArithmeticOverflow && !unstake_tokens_arith_ok(
                        old(farm)@,
                        old(stake)@,
                        amount as int,
                        now as int,
                    ),
                }
            },
        },
{
    if stake.farm != farm_key {
        return Err(FarmError::Unauthorized);
    }
    if farm.stake_vault != stake_vault.key {
        return Err(FarmError::AssetMismatch);
    }
    if stake.owner != signer {
        return Err(FarmError::Unauthorized);
    }
    if signer_token.mint != stake_vault.mint {
        return Err(FarmError::AssetMismatch);
    }
    if signer_token.owner != signer {
        return Err(FarmError::Unauthorized);
    }
    if amount > stake.amount_staked {
        return Err(FarmError::InsufficientStake);
    }
    let out = match engine_vals(farm, stake.amount_staked, &stake.slots, now) {
        Ok(v) => v,
        Err(e) => {
            return Err(e);
        },
    };
    let new_total = match farm.total_staked_amount.checked_sub(amount) {
        Some(v) => v,
        None => {
            return Err(FarmError::ArithmeticOverflow);
        },
    };
    let new_amount = stake.amount_staked - amount;
    let new_slots = match rebaselined_vec(&out.crops, new_amount, &out.slots) {
        Ok(v) => v,
        Err(e) => {
            return Err(e);
        },
    };
    farm.crops = out.crops;
    farm.last_updated_at = out.last_updated_at;
    farm.total_staked_amount = new_total;
    stake.slots = new_slots;
    stake.amount_staked = new_amount;
    stake.last_updated_at = now;
    proof {
        let fv = old(farm)@;
        let sv = old(stake)@;
        let inow = now as int;
        lemma_accrue_upto_frame(fv, inow, SLOT_COUNT as int);
        assert(farm@ =~= unstaked_farm_post(fv, amount as int, inow));
        assert(stake@ =~= unstaked_stake_post(fv, sv, amount as int, inow));
        assert forall|i: int|
            0 <= i < SLOT_COUNT as int implies (#[trigger] stake@.slots[i]).reward_debt
            == stake@.amount_staked * farm@.crops[i].reward_per_token by {
            assert(stake@.slots[i] == rebaselined_slots(
                accrued(fv, inow).crops,
                new_amount as int,
                settled_stake(fv, sv, inow).slots,
            )[i]);
        }
    }
    Ok(
        TokenTransfer {
            from: stake_vault.key,
            to: signer_token.key,
            authority: TransferAuthority::Protocol,
            amount,
        },
    )
}

/// The precondition checks of funding a crop, in the order they are made.
pub open spec fn add_crop_checks(
    f: FarmV,
    crop_index: int,
    crop_vault: TokenAccountInfo,
    signer_reward: TokenAccountInfo,
    signer: AccountId,
) -> Option<FarmError> {
    if f.owner != signer {
        Some(FarmError::Unauthorized)
    } else if crop_index >= CROP_SLOT_CAP as int {
        Some(FarmError::IndexOutOfRange)
    } else if crop_vault.mint != signer_reward.mint {
        Some(FarmError::AssetMismatch)
    } else if f.crops[crop_index].created_at != 0 {
        Some(FarmError::SlotOccupied)
    } else {
        None
    }
}

/// All arithmetic of funding a crop stays within machine bounds: the rate is
/// nonzero (the schedule length is `reward_amount / rate`) and the end date
/// fits in `u64`.
pub open spec fn add_crop_arith_ok(f: FarmV, reward_amount: int, rps: int, now: int) -> bool {
    &&& accrue_arith_ok(f, now)
    &&& rps > 0
    &&& now + reward_amount / rps <= u64::MAX
}

/// The farm after a crop is funded: accrued to `now`, the target slot
/// initialized with the new schedule, and the shared timestamp stamped to
/// `now`. The schedule runs until `now + reward_amount / rate`; the remainder
/// of the truncating division stays in the vault and is recoverable at
/// retirement.
pub open spec fn add_crop_farm_post(
    f: FarmV,
    crop_index: int,
    reward_amount: int,
    rps: int,
    vault: AccountId,
    now: int,
) -> FarmV {
    let g = accrued(f, now);
    FarmV {
        last_updated_at: now,
        crops: g.crops.update(
            crop_index,
            CropV {
                vault,
                rewards_per_second: rps,
                reward_per_token: 0,
                end_date: now + reward_amount / rps,
                created_at: now,
                stakers_finished: 0,
            },
        ),
        ..g
    }
}

/// Fund the crop slot `crop_index` with `reward_amount` of the reward asset,
/// distributed at `rewards_per_second`: accrue all slots first, then
/// initialize the slot. Returns the transfer of the funding amount from the
/// caller's token account into the crop vault.
pub fn add_crop(
    farm: &mut Farm,
    crop_index: u8,
    reward_amount: u64,
    rewards_per_second: u64,
    crop_vault: &TokenAccountInfo,
    signer_reward: &TokenAccountInfo,
    signer: AccountId,
    now: u64,
) -> (r: Result<TokenTransfer, FarmError>)
    requires
        farm_wf(*old(farm)),
    ensures
        match r {
            Ok(t) => {
                &&& add_crop_checks(
                    old(farm)@,
                    crop_index as int,
                    *crop_vault,
                    *signer_reward,
                    signer,
                ) is None
                &&& add_crop_arith_ok(
                    old(farm)@,
                    reward_amount as int,
                    rewards_per_second as int,
                    now as int,
                )
                &&& final(farm)@ == add_crop_farm_post(
                    old(farm)@,
                    crop_index as int,
                    reward_amount as int,
                    rewards_per_second as int,
                    crop_vault.key,
                    now as int,
                )
                &&& t == (TokenTransfer {
                    from: signer_reward.key,
                    to: crop_vault.key,
                    authority: TransferAuthority::Caller,
                    amount: reward_amount,
                })
                &&& farm_wf(*final(farm))
            },
            Err(e) => {
                &&& *final(farm) == *old(farm)
                &&& match add_crop_checks(
                    old(farm)@,
                    crop_index as int,
                    *crop_vault,
                    *signer_reward,
                    signer,
                ) {
                    Some(err) => e == err,
                    None => e == FarmError::ArithmeticOverflow && !add_crop_arith_ok(
                        old(farm)@,
                        reward_amount as int,
                        rewards_per_second as int,
                        now as int,
                    ),
                }
            },
        },
{
    if farm.owner != signer {
        return Err(FarmError::Unauthorized);
    }
    if crop_index as usize >= CROP_SLOT_CAP {
        return Err(FarmError::IndexOutOfRange);
    }
    if crop_vault.mint != signer_reward.mint {
        return Err(FarmError::AssetMismatch);
    }
    let ci = crop_index as usize;
    proof {
        assert(farm@.crops[ci as int] == farm.crops@[ci as int]@);
    }
    if farm.crops[ci].created_at != 0 {
        return Err(FarmError::SlotOccupied);
    }
    let zero_slots = fresh_slots();
    let out = match engine_vals(farm, 0, &zero_slots, now) {
        Ok(v) => v,
        Err(e) => {
            return Err(e);
        },
    };
    let active_time = match reward_amount.checked_div(rewards_per_second) {
        Some(v) => v,
        None => {
            return Err(FarmError::ArithmeticOverflow);
        },
    };
    let end_date = match now.checked_add(active_time) {
        Some(v) => v,
        None => {
            return Err(FarmError::ArithmeticOverflow);
        },
    };
    let mut new_crops = out.crops;
    new_crops.set(
        ci,
        Crop {
            vault: crop_vault.key,
            rewards_per_second,
            reward_per_token: 0,
            end_date,
            created_at: now,
            stakers_finished: 0,
        },
    );
    farm.crops = new_crops;
    farm.last_updated_at = now;
    proof {
        let fv = old(farm)@;
        let inow = now as int;
        lemma_accrue_upto_frame(fv, inow, SLOT_COUNT as int);
        assert(crops_v(new_crops@) =~= accrued(fv, inow).crops.update(
            ci as int,
            CropV {
                vault: crop_vault.key,
                rewards_per_second: rewards_per_second as int,
                reward_per_token: 0,
                end_date: end_date as int,
                created_at: inow,
                stakers_finished: 0,
            },
        ));
        assert(farm@ =~= add_crop_farm_post(
            fv,
            crop_index as int,
            reward_amount as int,
            rewards_per_second as int,
            crop_vault.key,
            inow,
        ));
    }
    Ok(
        TokenTransfer {
            from: signer_reward.key,
            to: crop_vault.key,
            authority: TransferAuthority::Caller,
            amount: reward_amount,
        },
    )
}

/// The precondition checks of retiring a crop, in the order they are made:
/// the caller owns the farm, the slot is in range and in use, the schedule
/// has expired, every staker has settled this crop, and the assets match.
pub open spec fn remove_crop_checks(
    f: FarmV,
    crop_index: int,
    crop_vault: TokenAccountInfo,
    signer_reward: TokenAccountInfo,
    signer: AccountId,
    now: int,
) -> Option<FarmError> {
    if f.owner != signer {
        Some(FarmError::Unauthorized)
    } else if crop_index >= CROP_SLOT_CAP as int {
        Some(FarmError::IndexOutOfRange)
    } else if f.crops[crop_index].created_at == 0 {
        Some(FarmError::SlotEmpty)
    } else if now <= f.crops[crop_index].end_date {
        Some(FarmError::CropActive)
    } else if f.stakers != f.crops[crop_index].stakers_finished {
        Some(FarmError::SettlementIncomplete)
    } else if crop_vault.mint != signer_reward.mint {
        Some(FarmError::AssetMismatch)
    } else {
        None
    }
}

/// The farm after a crop is retired: the slot's schedule and accumulator are
/// zeroed (its vault reference remains), everything else untouched.
pub open spec fn remove_crop_farm_post(f: FarmV, crop_index: int) -> FarmV {
    FarmV {
        crops: f.crops.update(
            crop_index,
            CropV {
                vault: f.crops[crop_index].vault,
                rewards_per_second: 0,
                reward_per_token: 0,
                end_date: 0,
                created_at: 0,
                stakers_finished: 0,
            },
        ),
        ..f
    }
}

/// Retire the expired crop at `crop_index`: wipe the slot and sweep the crop
/// vault's full remaining balance back to the caller. Fails with
/// `CropActive` before expiry and with `SettlementIncomplete` while any
/// staker has not settled this crop.
pub fn remove_crop(
    farm: &mut Farm,
    crop_index: u8,
    crop_vault: &TokenAccountInfo,
    signer_reward: &TokenAccountInfo,
    signer: AccountId,
    now: u64,
) -> (r: Result<TokenTransfer, FarmError>)
    requires
        farm_wf(*old(farm)),
    ensures
        match r {
            Ok(t) => {
                &&& remove_crop_checks(
                    old(farm)@,
                    crop_index as int,
                    *crop_vault,
                    *signer_reward,
                    signer,
                    now as int,
                ) is None
                &&& final(farm)@ == remove_crop_farm_post(old(farm)@, crop_index as int)
                &&& t == (TokenTransfer {
                    from: crop_vault.key,
                    to: signer_reward.key,
                    authority: TransferAuthority::Protocol,
                    amount: crop_vault.amount,
                })
                &&& farm_wf(*final(farm))
            },
            Err(e) => {
                &&& *final(farm) == *old(farm)
                &&& remove_crop_checks(
                    old(farm)@,
                    crop_index as int,
                    *crop_vault,
                    *signer_reward,
                    signer,
                    now as int,
                ) == Some(e)
            },
        },
{
    if farm.owner != signer {
        return Err(FarmError::Unauthorized);
    }
    if crop_index as usize >= CROP_SLOT_CAP {
        return Err(FarmError::IndexOutOfRange);
    }
    let ci = crop_index as usize;
    proof {
        assert(farm@.crops[ci as int] == farm.crops@[ci as int]@);
    }
    let c = farm.crops[ci];
    if c.created_at == 0 {
        return Err(FarmError::SlotEmpty);
    }
    if now <= c.end_date {
        return Err(FarmError::CropActive);
    }
    if farm.stakers != c.stakers_finished {
        return Err(FarmError::SettlementIncomplete);
    }
    if crop_vault.mint != signer_reward.mint {
        return Err(FarmError::AssetMismatch);
    }
    farm.crops.set(
        ci,
        Crop {
            vault: c.vault,
            rewards_per_second: 0,
            reward_per_token: 0,
            end_date: 0,
            created_at: 0,
            stakers_finished: 0,
        },
    );
    proof {
        assert(farm@ =~= remove_crop_farm_post(old(farm)@, crop_index as int));
    }
    Ok(
        TokenTransfer {
            from: crop_vault.key,
            to: signer_reward.key,
            authority: TransferAuthority::Protocol,
            amount: crop_vault.amount,
        },
    )
}

/// The precondition checks of a harvest, in the order they are made. The
/// farm's owner may harvest on a staker's behalf; the reward must land in a
/// token account of the right asset owned by the signer.
pub open spec fn gather_rewards_checks(
    f: FarmV,
    s: StakeV,
    crop_index: int,
    farm_key: AccountId,
    crop_vault: TokenAccountInfo,
    signer_reward: TokenAccountInfo,
    signer: AccountId,
) -> Option<FarmError> {
    if s.farm != farm_key {
        Some(FarmError::Unauthorized)
    } else if crop_index >= SLOT_COUNT as int {
        Some(FarmError::IndexOutOfRange)
    } else if f.crops[crop_index].vault != crop_vault.key {
        Some(FarmError::AssetMismatch)
    } else if signer_reward.mint != crop_vault.mint {
        Some(FarmError::AssetMismatch)
    } else if s.owner != signer && f.owner != signer {
        Some(FarmError::Unauthorized)
    } else if signer_reward.owner != signer {
        Some(FarmError::Unauthorized)
    } else {
        None
    }
}

/// Whether this harvest brings the position to rest on this crop and counts
/// it as finished: the position holds no stake, was not counted before, and
/// the finished counter has room below the farm's staker count.
pub open spec fn gather_newly_finished(f: FarmV, s: StakeV, crop_index: int, now: int) -> bool {
    &&& s.amount_staked == 0
    &&& !s.slots[crop_index].finished
    &&& accrued(f, now).crops[crop_index].stakers_finished < f.stakers
}

/// The amount a harvest of `crop_index` pays out: the position's owed
/// balance for that slot after settlement up to `now`.
pub open spec fn gather_earned(f: FarmV, s: StakeV, crop_index: int, now: int) -> int {
    settled_stake(f, s, now).slots[crop_index].amount_owed
}

/// The farm after a harvest: accrued to `now`, with the slot's finished
/// counter raised by one when this harvest brings the position to rest.
pub open spec fn gather_farm_post(f: FarmV, s: StakeV, crop_index: int, now: int) -> FarmV {
    let g = accrued(f, now);
    if gather_newly_finished(f, s, crop_index, now) {
        FarmV {
            crops: g.crops.update(
                crop_index,
                CropV {
                    stakers_finished: g.crops[crop_index].stakers_finished + 1,
                    ..g.crops[crop_index]
                },
            ),
            ..g
        }
    } else {
        g
    }
}

/// The position after a harvest: settled, the harvested slot's owed balance
/// zeroed and stamped, marked finished when the position came to rest, and
/// all reward debts re-baselined.
pub open spec fn gather_stake_post(f: FarmV, s: StakeV, crop_index: int, now: int) -> StakeV {
    let s1 = settled_stake(f, s, now);
    let sl2 = SlotV {
        last_gathered_at: now,
        amount_owed: 0,
        finished: s.slots[crop_index].finished || gather_newly_finished(f, s, crop_index, now),
        ..s1.slots[crop_index]
    };
    let s2 = StakeV { slots: s1.slots.update(crop_index, sl2), ..s1 };
    StakeV {
        slots: rebaselined_slots(
            gather_farm_post(f, s, crop_index, now).crops,
            s2.amount_staked,
            s2.slots,
        ),
        ..s2
    }
}

/// All arithmetic of a harvest stays within machine bounds.
pub open spec fn gather_arith_ok(f: FarmV, s: StakeV, crop_index: int, now: int) -> bool {
    &&& accrue_arith_ok(f, now)
    &&& settle_arith_ok(f, s.amount_staked, s.slots, now)
    &&& rebaseline_arith_ok(gather_farm_post(f, s, crop_index, now).crops, s.amount_staked)
}

/// Harvest the rewards of crop `crop_index`: settle all slots up to `now`,
/// pay out the owed balance of the harvested slot, stamp it, and re-baseline
/// every slot's reward debt. A position that has come to rest is counted
/// towards the slot's finished stakers. Returns the transfer of the owed
/// amount out of the crop vault, authorized by the protocol's signing
/// identity.
pub fn gather_rewards(
    farm: &mut Farm,
    stake: &mut Stake,
    crop_index: u8,
    farm_key: AccountId,
    crop_vault: &TokenAccountInfo,
    signer_reward: &TokenAccountInfo,
    signer: AccountId,
    now: u64,
) -> (r: Result<TokenTransfer, FarmError>)
    requires
        farm_wf(*old(farm)),
        stake_wf(*old(stake)),
    ensures
        match r {
            Ok(t) => {
                &&& gather_rewards_checks(
                    old(farm)@,
                    old(stake)@,
                    crop_index as int,
                    farm_key,
                    *crop_vault,
                    *signer_reward,
                    signer,
                ) is None
                &&& gather_arith_ok(old(farm)@, old(stake)@, crop_index as int, now as int)
                &&& final(farm)@ == gather_farm_post(
                    old(farm)@,
                    old(stake)@,
                    crop_index as int,
                    now as int,
                )
                &&& final(stake)@ == gather_stake_post(
                    old(farm)@,
                    old(stake)@,
                    crop_index as int,
                    now as int,
                )
                &&& t.from == crop_vault.key
                &&& t.to == signer_reward.key
                &&& t.authority == TransferAuthority::Protocol
                &&& t.amount as int == gather_earned(
                    old(farm)@,
                    old(stake)@,
                    crop_index as int,
                    now as int,
                )
                &&& final(farm)@.total_staked_amount == old(farm)@.total_staked_amount
                &&& final(stake)@.amount_staked == old(stake)@.amount_staked
                &&& forall|i: int|
                    0 <= i < SLOT_COUNT as int ==> (#[trigger] final(stake)@.slots[i]).reward_debt
                        == final(stake)@.amount_staked * final(farm)@.crops[i].reward_per_token
                &&& farm_wf(*final(farm))
                &&& stake_wf(*final(stake))
            },
            Err(e) => {
                &&& *final(farm) == *old(farm)
                &&& *final(stake) == *old(stake)
                &&& match gather_rewards_checks(
                    old(farm)@,
                    old(stake)@,
                    crop_index as int,
                    farm_key,
                    *crop_vault,
                    *signer_reward,
                    signer,
                ) {
                    Some(err) => e == err,
                    None => e == FarmError::ArithmeticOverflow && !gather_arith_ok(
                        old(farm)@,
                        old(stake)@,
                        crop_index as int,
                        now as int,
                    ),
                }
            },
        },
{
    if stake.farm != farm_key {
        return Err(FarmError::Unauthorized);
    }
    if crop_index as usize >= SLOT_COUNT {
        return Err(FarmError::IndexOutOfRange);
    }
    let ci = crop_index as usize;
    proof {
        assert(farm@.crops[ci as int] == farm.crops@[ci as int]@);
    }
    if farm.crops[ci].vault != crop_vault.key {
        return Err(FarmError::AssetMismatch);
    }
    if signer_reward.mint != crop_vault.mint {
        return Err(FarmError::AssetMismatch);
    }
    if stake.owner != signer && farm.owner != signer {
        return Err(FarmError::Unauthorized);
    }
    if signer_reward.owner != signer {
        return Err(FarmError::Unauthorized);
    }
    let out = match engine_vals(farm, stake.amount_staked, &stake.slots, now) {
        Ok(v) => v,
        Err(e) => {
            return Err(e);
        },
    };
    let ghost fv = old(farm)@;
    let ghost sv = old(stake)@;
    let ghost inow = now as int;
    proof {
        lemma_accrue_upto_frame(fv, inow, SLOT_COUNT as int);
        assert(slots_v(stake.slots@)[ci as int] == stake.slots@[ci as int]@);
    }
    let earned = out.slots[ci].amount_owed;
    let mut new_crops = out.crops;
    let mut new_slots = out.slots;
    let settled_ci = new_slots[ci];
    let newly = stake.amount_staked == 0 && !settled_ci.finished && new_crops[ci].stakers_finished
        < farm.stakers;
    new_slots.set(
        ci,
        StakeSlot {
            reward_debt: settled_ci.reward_debt,
            last_gathered_at: now,
            amount_owed: 0,
            finished: settled_ci.finished || newly,
        },
    );
    if newly {
        let c = new_crops[ci];
        new_crops.set(
            ci,
            Crop {
                vault: c.vault,
                rewards_per_second: c.rewards_per_second,
                reward_per_token: c.reward_per_token,
                end_date: c.end_date,
                created_at: c.created_at,
                stakers_finished: c.stakers_finished + 1,
            },
        );
    }
    proof {
        assert(newly == gather_newly_finished(fv, sv, ci as int, inow));
        assert(crops_v(new_crops@) =~= gather_farm_post(fv, sv, ci as int, inow).crops);
    }
    let rebased = match rebaselined_vec(&new_crops, stake.amount_staked, &new_slots) {
        Ok(v) => v,
        Err(e) => {
            return Err(e);
        },
    };
    farm.crops = new_crops;
    farm.last_updated_at = out.last_updated_at;
    stake.slots = rebased;
    proof {
        assert(farm@ =~= gather_farm_post(fv, sv, ci as int, inow));
        assert(slots_v(new_slots@) =~= settled_stake(fv, sv, inow).slots.update(
            ci as int,
            SlotV {
                last_gathered_at: inow,
                amount_owed: 0,
                finished: sv.slots[ci as int].finished || gather_newly_finished(
                    fv,
                    sv,
                    ci as int,
                    inow,
                ),
                ..settled_stake(fv, sv, inow).slots[ci as int]
            },
        ));
        assert(stake@ =~= gather_stake_post(fv, sv, ci as int, inow));
        assert forall|i: int|
            0 <= i < SLOT_COUNT as int implies (#[trigger] stake@.slots[i]).reward_debt
            == stake@.amount_staked * farm@.crops[i].reward_per_token by {
            assert(stake@.slots[i] == rebaselined_slots(
                crops_v(new_crops@),
                sv.amount_staked,
                slots_v(new_slots@),
            )[i]);
        }
    }
    Ok(
        TokenTransfer {
            from: crop_vault.key,
            to: signer_reward.key,
            authority: TransferAuthority::Protocol,
            amount: earned,
        },
    )
}

/// Authorize the creation of a crop vault for this farm: only the farm's
/// owner may do so. The vault account itself is created by the storage
/// collaborator.
pub fn create_crop_vault(farm: &Farm, signer: AccountId) -> (r: Result<(), FarmError>)
    ensures
        match r {
            Ok(_) => farm@.owner == signer,
            Err(e) => farm@.owner != signer && e == FarmError::Unauthorized,
        },
{
    if farm.owner != signer {
        return Err(FarmError::Unauthorized);
    }
    Ok(())
}

} // verus!

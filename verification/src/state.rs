//! The three persistent entities: `Protocol`, `Farm` and `Stake`.
//!
//! A `Farm` owns the aggregate stake total and eight crop slots; a `Stake` is
//! one staker's position in a farm, with per-slot settlement bookkeeping; the
//! `Protocol` singleton holds the derived signing credential used to authorize
//! transfers out of protocol-owned vaults.
//!
//! Each executable type has a mathematical view (`FarmV`, `StakeV`, ...) with
//! unbounded integer fields; every contract in this crate speaks about those
//! views.

use vstd::prelude::*;

use crate::ids::AccountId;

verus! {

/// Number of crop slots a farm holds.
pub const SLOT_COUNT: usize = 8;

/// The protocol singleton: only the bump byte of its derived signing identity.
#[derive(Clone, Copy, PartialEq, Eq, Structural, Debug)]
pub struct Protocol {
    pub bump_seed: u8,
}

/// One reward schedule: a funding vault, a rate, an expiry, and the
/// cumulative reward-per-share accumulator at fixed-point scale.
/// A slot with `created_at == 0` is empty.
#[derive(Clone, Copy, PartialEq, Eq, Structural, Debug)]
pub struct Crop {
    pub vault: AccountId,
    pub rewards_per_second: u64,
    pub reward_per_token: u128,
    pub end_date: u64,
    pub created_at: u64,
    pub stakers_finished: u64,
}

/// One staking pool: aggregate totals and eight crop slots.
#[derive(Clone, Debug)]
pub struct Farm {
    pub owner: AccountId,
    pub created_at: u64,
    pub stake_vault: AccountId,
    pub stake_mint: AccountId,
    pub last_updated_at: u64,
    pub total_staked_amount: u64,
    pub stakers: u64,
    pub crops: Vec<Crop>,
}

/// Per-crop-slot bookkeeping of one position: the reward-debt baseline, the
/// accrued-but-unclaimed amount, the last harvest time, and whether this
/// position has been counted as finished with the slot's crop.
#[derive(Clone, Copy, PartialEq, Eq, Structural, Debug)]
pub struct StakeSlot {
    pub reward_debt: u128,
    pub last_gathered_at: u64,
    pub amount_owed: u64,
    pub finished: bool,
}

/// One staker's position within a farm.
#[derive(Clone, Debug)]
pub struct Stake {
    pub owner: AccountId,
    pub created_at: u64,
    pub amount_staked: u64,
    pub last_updated_at: u64,
    pub farm: AccountId,
    pub slots: Vec<StakeSlot>,
}

/// Mathematical view of a crop slot.
pub struct CropV {
    pub vault: AccountId,
    pub rewards_per_second: int,
    pub reward_per_token: int,
    pub end_date: int,
    pub created_at: int,
    pub stakers_finished: int,
}

/// Mathematical view of a farm.
#[verifier::ext_equal]
pub struct FarmV {
    pub owner: AccountId,
    pub created_at: int,
    pub stake_vault: AccountId,
    pub stake_mint: AccountId,
    pub last_updated_at: int,
    pub total_staked_amount: int,
    pub stakers: int,
    pub crops: Seq<CropV>,
}

/// Mathematical view of one stake slot.
pub struct SlotV {
    pub reward_debt: int,
    pub last_gathered_at: int,
    pub amount_owed: int,
    pub finished: bool,
}

/// Mathematical view of a stake.
#[verifier::ext_equal]
pub struct StakeV {
    pub owner: AccountId,
    pub created_at: int,
    pub amount_staked: int,
    pub last_updated_at: int,
    pub farm: AccountId,
    pub slots: Seq<SlotV>,
}

/// The views of a sequence of crop slots.
pub open spec fn crops_v(cs: Seq<Crop>) -> Seq<CropV> {
    cs.map_values(|c: Crop| c@)
}

/// The views of a sequence of stake slots.
pub open spec fn slots_v(ss: Seq<StakeSlot>) -> Seq<SlotV> {
    ss.map_values(|s: StakeSlot| s@)
}

impl View for Crop {
    type V = CropV;

    open spec fn view(&self) -> CropV {
        CropV {
            vault: self.vault,
            rewards_per_second: self.rewards_per_second as int,
            reward_per_token: self.reward_per_token as int,
            end_date: self.end_date as int,
            created_at: self.created_at as int,
            stakers_finished: self.stakers_finished as int,
        }
    }
}

impl View for Farm {
    type V = FarmV;

    open spec fn view(&self) -> FarmV {
        FarmV {
            owner: self.owner,
            created_at: self.created_at as int,
            stake_vault: self.stake_vault,
            stake_mint: self.stake_mint,
            last_updated_at: self.last_updated_at as int,
            total_staked_amount: self.total_staked_amount as int,
            stakers: self.stakers as int,
            crops: crops_v(self.crops@),
        }
    }
}

impl View for StakeSlot {
    type V = SlotV;

    open spec fn view(&self) -> SlotV {
        SlotV {
            reward_debt: self.reward_debt as int,
            last_gathered_at: self.last_gathered_at as int,
            amount_owed: self.amount_owed as int,
            finished: self.finished,
        }
    }
}

impl View for Stake {
    type V = StakeV;

    open spec fn view(&self) -> StakeV {
        StakeV {
            owner: self.owner,
            created_at: self.created_at as int,
            amount_staked: self.amount_staked as int,
            last_updated_at: self.last_updated_at as int,
            farm: self.farm,
            slots: slots_v(self.slots@),
        }
    }
}

/// A crop-slot view whose numeric fields lie in their machine ranges.
pub open spec fn crop_v_wf(c: CropV) -> bool {
    &&& 0 <= c.rewards_per_second <= u64::MAX
    &&& 0 <= c.reward_per_token <= u128::MAX
    &&& 0 <= c.end_date <= u64::MAX
    &&& 0 <= c.created_at <= u64::MAX
    &&& 0 <= c.stakers_finished <= u64::MAX
}

/// A farm view with eight slots and all numeric fields in machine ranges.
pub open spec fn farm_v_wf(f: FarmV) -> bool {
    &&& f.crops.len() == SLOT_COUNT
    &&& forall|i: int| 0 <= i < SLOT_COUNT as int ==> crop_v_wf(#[trigger] f.crops[i])
    &&& 0 <= f.created_at <= u64::MAX
    &&& 0 <= f.last_updated_at <= u64::MAX
    &&& 0 <= f.total_staked_amount <= u64::MAX
    &&& 0 <= f.stakers <= u64::MAX
}

/// A stake-slot view whose numeric fields lie in their machine ranges.
pub open spec fn slot_v_wf(s: SlotV) -> bool {
    &&& 0 <= s.reward_debt <= u128::MAX
    &&& 0 <= s.last_gathered_at <= u64::MAX
    &&& 0 <= s.amount_owed <= u64::MAX
}

/// A stake view with eight slots and all numeric fields in machine ranges.
pub open spec fn stake_v_wf(s: StakeV) -> bool {
    &&& s.slots.len() == SLOT_COUNT
    &&& forall|i: int| 0 <= i < SLOT_COUNT as int ==> slot_v_wf(#[trigger] s.slots[i])
    &&& 0 <= s.created_at <= u64::MAX
    &&& 0 <= s.amount_staked <= u64::MAX
    &&& 0 <= s.last_updated_at <= u64::MAX
}

/// The executable well-formedness of a farm: it holds exactly eight slots.
pub open spec fn farm_wf(f: Farm) -> bool {
    f.crops@.len() == SLOT_COUNT
}

/// The executable well-formedness of a stake: it holds exactly eight slots.
pub open spec fn stake_wf(s: Stake) -> bool {
    s.slots@.len() == SLOT_COUNT
}

/// A well-formed farm's view is well-formed.
pub proof fn lemma_farm_view_wf(f: &Farm)
    requires
        farm_wf(*f),
    ensures
        farm_v_wf(f@),
{
    assert forall|i: int| 0 <= i < SLOT_COUNT as int implies crop_v_wf(#[trigger] f@.crops[i]) by {
        assert(f@.crops[i] == f.crops@[i]@);
    }
}

/// A well-formed stake's view is well-formed.
pub proof fn lemma_stake_view_wf(s: &Stake)
    requires
        stake_wf(*s),
    ensures
        stake_v_wf(s@),
{
    assert forall|i: int| 0 <= i < SLOT_COUNT as int implies slot_v_wf(#[trigger] s@.slots[i]) by {
        assert(s@.slots[i] == s.slots@[i]@);
    }
}

/// The view of an empty (unused) crop slot.
pub open spec fn empty_crop_v() -> CropV {
    CropV {
        vault: AccountId { id: 0 },
        rewards_per_second: 0,
        reward_per_token: 0,
        end_date: 0,
        created_at: 0,
        stakers_finished: 0,
    }
}

/// The view of a freshly zeroed stake slot.
pub open spec fn empty_slot_v() -> SlotV {
    SlotV { reward_debt: 0, last_gathered_at: 0, amount_owed: 0, finished: false }
}

} // verus!

//! The accrual engine's mathematical model.
//!
//! Every mutating operation first brings the farm's per-slot cumulative
//! reward-per-share up to the current time and, when a stake is involved,
//! settles the position's owed balances against it. The loop walks the eight
//! slots in order and advances the farm's single shared `last_updated_at` as
//! it goes, so a later slot sees the timestamp already advanced by an earlier
//! one; the spec functions here mirror that slot-by-slot evolution exactly.

use vstd::prelude::*;

use crate::errors::FarmError;
use crate::state::{crops_v, slots_v, Crop, CropV, Farm, FarmV, SlotV, Stake, StakeSlot, StakeV};
use crate::state::{farm_wf, stake_wf, SLOT_COUNT};
use crate::PRECISION;

verus! {

/// Whether the accrual loop processes slot `i` of farm state `f`: the slot is
/// in use, its schedule has not already fully lapsed, and there are shares to
/// distribute against.
pub open spec fn slot_live(f: FarmV, i: int) -> bool {
    &&& f.crops[i].created_at != 0
    &&& f.last_updated_at <= f.crops[i].end_date
    &&& f.total_staked_amount != 0
}

/// The effective time slot `i` accrues up to: `now`, clamped to the slot's
/// end date.
pub open spec fn slot_time(f: FarmV, i: int, now: int) -> int {
    if now <= f.crops[i].end_date {
        now
    } else {
        f.crops[i].end_date
    }
}

/// The raw reward emitted by slot `i` since the farm was last updated.
pub open spec fn slot_raw_reward(f: FarmV, i: int, now: int) -> int {
    (slot_time(f, i, now) - f.last_updated_at) * f.crops[i].rewards_per_second
}

/// The fixed-point reward-per-share increment of slot `i`.
pub open spec fn slot_share_delta(f: FarmV, i: int, now: int) -> int {
    slot_raw_reward(f, i, now) * (PRECISION as int) / f.total_staked_amount
}

/// One step of the accrual loop: update slot `i`'s accumulator and advance
/// the shared timestamp, or leave the farm unchanged if the slot is skipped.
pub open spec fn accrue_slot(f: FarmV, i: int, now: int) -> FarmV {
    if slot_live(f, i) {
        FarmV {
            last_updated_at: slot_time(f, i, now),
            crops: f.crops.update(
                i,
                CropV {
                    reward_per_token: f.crops[i].reward_per_token + slot_share_delta(f, i, now),
                    ..f.crops[i]
                },
            ),
            ..f
        }
    } else {
        f
    }
}

/// The farm after the accrual loop has processed slots `0 .. n`.
pub open spec fn accrue_upto(f: FarmV, now: int, n: int) -> FarmV
    decreases n,
{
    if n <= 0 {
        f
    } else {
        accrue_slot(accrue_upto(f, now, n - 1), n - 1, now)
    }
}

/// The farm with every slot accrued up to `now`.
pub open spec fn accrued(f: FarmV, now: int) -> FarmV {
    accrue_upto(f, now, SLOT_COUNT as int)
}

/// The machine-arithmetic side conditions of the step that processes slot `i`
/// of intermediate state `f`: the elapsed time is non-negative, the raw
/// reward fits in `u64` (the source multiplies rate and elapsed time at that
/// width), and the accumulator does not overflow `u128`.
pub open spec fn slot_arith_ok(f: FarmV, i: int, now: int) -> bool {
    slot_live(f, i) ==> {
        &&& f.last_updated_at <= slot_time(f, i, now)
        &&& slot_raw_reward(f, i, now) <= u64::MAX
        &&& f.crops[i].reward_per_token + slot_share_delta(f, i, now) <= u128::MAX
    }
}

/// All eight accrual steps stay within machine arithmetic.
pub open spec fn accrue_arith_ok(f: FarmV, now: int) -> bool {
    forall|i: int|
        0 <= i < SLOT_COUNT as int ==> slot_arith_ok(
            #[trigger] accrue_upto(f, now, i),
            i,
            now,
        )
}

/// The newly accrued, not yet credited reward of one position for slot `i`:
/// the position's share of the just-updated accumulator, measured against its
/// reward-debt baseline and scaled back down. Zero for a skipped slot or an
/// empty position.
pub open spec fn slot_pending(f: FarmV, amount: int, debt: int, now: int, i: int) -> int {
    let g = accrue_upto(f, now, i);
    if slot_live(g, i) && amount != 0 {
        (amount * accrue_slot(g, i, now).crops[i].reward_per_token - debt) / (PRECISION as int)
    } else {
        0
    }
}

/// One stake slot after settlement against farm `f` at time `now`.
pub open spec fn settled_slot(f: FarmV, amount: int, sl: SlotV, now: int, i: int) -> SlotV {
    SlotV { amount_owed: sl.amount_owed + slot_pending(f, amount, sl.reward_debt, now, i), ..sl }
}

/// All stake slots after settlement.
pub open spec fn settled_slots(f: FarmV, amount: int, slots: Seq<SlotV>, now: int) -> Seq<SlotV> {
    Seq::new(slots.len(), |i: int| settled_slot(f, amount, slots[i], now, i))
}

/// The machine-arithmetic side conditions of settling slot `i`: the share
/// product fits in `u128`, the debt baseline does not exceed it, and the
/// pending amount and the credited total fit in `u64`.
pub open spec fn slot_settle_ok(f: FarmV, amount: int, sl: SlotV, now: int, i: int) -> bool {
    let g = accrue_upto(f, now, i);
    (slot_live(g, i) && amount != 0) ==> {
        let rpt = accrue_slot(g, i, now).crops[i].reward_per_token;
        &&& amount * rpt <= u128::MAX
        &&& sl.reward_debt <= amount * rpt
        &&& (amount * rpt - sl.reward_debt) / (PRECISION as int) <= u64::MAX
        &&& sl.amount_owed + (amount * rpt - sl.reward_debt) / (PRECISION as int) <= u64::MAX
    }
}

/// All eight settlement steps stay within machine arithmetic.
pub open spec fn settle_arith_ok(f: FarmV, amount: int, slots: Seq<SlotV>, now: int) -> bool {
    forall|i: int|
        0 <= i < SLOT_COUNT as int ==> slot_settle_ok(f, amount, #[trigger] slots[i], now, i)
}

/// One stake slot after its reward debt is re-baselined against crops `cs`.
pub open spec fn rebaselined_slot(cs: Seq<CropV>, amount: int, sl: SlotV, i: int) -> SlotV {
    SlotV { reward_debt: amount * cs[i].reward_per_token, ..sl }
}

/// All stake slots after the reward-debt re-baseline: for every slot,
/// `reward_debt == amount * reward_per_token`, at full fixed-point scale.
pub open spec fn rebaselined_slots(cs: Seq<CropV>, amount: int, slots: Seq<SlotV>) -> Seq<SlotV> {
    Seq::new(slots.len(), |i: int| rebaselined_slot(cs, amount, slots[i], i))
}

/// The re-baseline products all fit in `u128`.
pub open spec fn rebaseline_arith_ok(cs: Seq<CropV>, amount: int) -> bool {
    forall|i: int|
        0 <= i < SLOT_COUNT as int ==> amount * (#[trigger] cs[i]).reward_per_token <= u128::MAX
}

/// Accrual never touches anything but the shared timestamp and the per-slot
/// accumulators: every other farm field and crop field is preserved, and the
/// slots at or beyond `n` are untouched entirely.
pub proof fn lemma_accrue_upto_frame(f: FarmV, now: int, n: int)
    requires
        0 <= n <= SLOT_COUNT as int,
        f.crops.len() == SLOT_COUNT,
    ensures
        accrue_upto(f, now, n).owner == f.owner,
        accrue_upto(f, now, n).created_at == f.created_at,
        accrue_upto(f, now, n).stake_vault == f.stake_vault,
        accrue_upto(f, now, n).stake_mint == f.stake_mint,
        accrue_upto(f, now, n).total_staked_amount == f.total_staked_amount,
        accrue_upto(f, now, n).stakers == f.stakers,
        accrue_upto(f, now, n).crops.len() == SLOT_COUNT,
        forall|k: int|
            n <= k < SLOT_COUNT as int ==> accrue_upto(f, now, n).crops[k] == #[trigger] f.crops[k],
        forall|k: int|
            0 <= k < SLOT_COUNT as int ==> {
                &&& (#[trigger] accrue_upto(f, now, n).crops[k]).vault == f.crops[k].vault
                &&& accrue_upto(f, now, n).crops[k].rewards_per_second
                    == f.crops[k].rewards_per_second
                &&& accrue_upto(f, now, n).crops[k].end_date == f.crops[k].end_date
                &&& accrue_upto(f, now, n).crops[k].created_at == f.crops[k].created_at
                &&& accrue_upto(f, now, n).crops[k].stakers_finished == f.crops[k].stakers_finished
            },
    decreases n,
{
    if n > 0 {
        lemma_accrue_upto_frame(f, now, n - 1);
    }
}

/// While `now` has not been passed, the shared timestamp never exceeds `now`
/// and never moves backwards as the loop advances.
pub proof fn lemma_accrue_upto_last(f: FarmV, now: int, n: int)
    requires
        0 <= n <= SLOT_COUNT as int,
        f.crops.len() == SLOT_COUNT,
        f.last_updated_at <= now,
    ensures
        accrue_upto(f, now, n).last_updated_at <= now,
        f.last_updated_at <= accrue_upto(f, now, n).last_updated_at,
    decreases n,
{
    if n > 0 {
        lemma_accrue_upto_last(f, now, n - 1);
    }
}

/// The shared timestamp is monotone between loop prefixes.
pub proof fn lemma_accrue_upto_last_mono(f: FarmV, now: int, m: int, n: int)
    requires
        0 <= m <= n <= SLOT_COUNT as int,
        f.crops.len() == SLOT_COUNT,
        f.last_updated_at <= now,
    ensures
        accrue_upto(f, now, m).last_updated_at <= accrue_upto(f, now, n).last_updated_at,
    decreases n - m,
{
    if m < n {
        lemma_accrue_upto_last_mono(f, now, m, n - 1);
        lemma_accrue_upto_last(f, now, n - 1);
    }
}

/// What one engine run produces: the accrued crop slots, the advanced shared
/// timestamp, and the settled stake slots.
pub(crate) struct EngineOut {
    pub crops: Vec<Crop>,
    pub last_updated_at: u64,
    pub slots: Vec<StakeSlot>,
}

/// The accrual engine: walk the eight slots in order, updating each live
/// slot's accumulator and the shared timestamp, and settle the position's
/// owed balance for each live slot against the just-updated accumulator.
/// Nothing is mutated; the new values are returned so a caller can commit
/// them only once every computation has succeeded.
pub(crate) fn engine_vals(farm: &Farm, stake_amount: u64, slots: &Vec<StakeSlot>, now: u64) -> (r:
    Result<EngineOut, FarmError>)
    requires
        farm_wf(*farm),
        slots@.len() == SLOT_COUNT,
    ensures
        match r {
            Ok(out) => {
                &&& accrue_arith_ok(farm@, now as int)
                &&& settle_arith_ok(farm@, stake_amount as int, slots_v(slots@), now as int)
                &&& out.crops@.len() == SLOT_COUNT
                &&& out.slots@.len() == SLOT_COUNT
                &&& crops_v(out.crops@) == accrued(farm@, now as int).crops
                &&& out.last_updated_at as int == accrued(farm@, now as int).last_updated_at
                &&& slots_v(out.slots@) == settled_slots(
                    farm@,
                    stake_amount as int,
                    slots_v(slots@),
                    now as int,
                )
            },
            Err(e) => {
                &&& e == FarmError::ArithmeticOverflow
                &&& !(accrue_arith_ok(farm@, now as int) && settle_arith_ok(
                    farm@,
                    stake_amount as int,
                    slots_v(slots@),
                    now as int,
                ))
            },
        },
{
    let ghost fv = farm@;
    let ghost inow = now as int;
    let mut new_crops: Vec<Crop> = Vec::new();
    let mut new_slots: Vec<StakeSlot> = Vec::new();
    let mut last: u64 = farm.last_updated_at;
    let mut i: usize = 0;
    while i < SLOT_COUNT
        invariant
            0 <= i <= SLOT_COUNT,
            farm_wf(*farm),
            slots@.len() == SLOT_COUNT,
            fv == farm@,
            inow == now as int,
            new_crops@.len() == i,
            new_slots@.len() == i,
            last as int == accrue_upto(fv, inow, i as int).last_updated_at,
            forall|k: int|
                0 <= k < i as int ==> new_crops@[k]@ == accrue_upto(fv, inow, i as int).crops[k],
            forall|k: int|
                0 <= k < i as int ==> new_slots@[k]@ == settled_slot(
                    fv,
                    stake_amount as int,
                    slots@[k]@,
                    inow,
                    k,
                ),
            forall|k: int|
                0 <= k < i as int ==> slot_arith_ok(#[trigger] accrue_upto(fv, inow, k), k, inow),
            forall|k: int|
                0 <= k < i as int ==> slot_settle_ok(
                    fv,
                    stake_amount as int,
                    #[trigger] slots@[k]@,
                    inow,
                    k,
                ),
        decreases SLOT_COUNT - i,
    {
        let ghost h = accrue_upto(fv, inow, i as int);
        proof {
            lemma_accrue_upto_frame(fv, inow, i as int);
            assert(accrue_upto(fv, inow, i as int + 1) == accrue_slot(h, i as int, inow));
        }
        let c = farm.crops[i];
        let sl = slots[i];
        proof {
            assert(c@ == h.crops[i as int]);
        }
        if c.created_at != 0 && last <= c.end_date && farm.total_staked_amount != 0 {
            proof {
                assert(slot_live(h, i as int));
            }
            let t = if now <= c.end_date {
                now
            } else {
                c.end_date
            };
            proof {
                assert(t as int == slot_time(h, i as int, inow));
            }
            let elapsed = match t.checked_sub(last) {
                Some(d) => d,
                None => {
                    proof {
                        assert(!slot_arith_ok(h, i as int, inow));
                        assert(!accrue_arith_ok(fv, inow));
                    }
                    return Err(FarmError::ArithmeticOverflow);
                },
            };
            let raw = match elapsed.checked_mul(c.rewards_per_second) {
                Some(v) => v,
                None => {
                    proof {
                        assert(!slot_arith_ok(h, i as int, inow));
                        assert(!accrue_arith_ok(fv, inow));
                    }
                    return Err(FarmError::ArithmeticOverflow);
                },
            };
            proof {
                assert(raw as int == slot_raw_reward(h, i as int, inow));
                vstd::arithmetic::mul::lemma_mul_inequality(
                    raw as int,
                    u64::MAX as int,
                    PRECISION as int,
                );
                assert(u64::MAX as int * (PRECISION as int) <= u128::MAX as int) by (nonlinear_arith);
            }
            let scaled: u128 = (raw as u128) * PRECISION;
            let delta: u128 = scaled / (farm.total_staked_amount as u128);
            proof {
                assert(delta as int == slot_share_delta(h, i as int, inow));
            }
            let new_rpt = match c.reward_per_token.checked_add(delta) {
                Some(v) => v,
                None => {
                    proof {
                        assert(!slot_arith_ok(h, i as int, inow));
                        assert(!accrue_arith_ok(fv, inow));
                    }
                    return Err(FarmError::ArithmeticOverflow);
                },
            };
            proof {
                assert(accrue_slot(h, i as int, inow).crops[i as int].reward_per_token == new_rpt as int);
            }
            new_crops.push(
                Crop {
                    vault: c.vault,
                    rewards_per_second: c.rewards_per_second,
                    reward_per_token: new_rpt,
                    end_date: c.end_date,
                    created_at: c.created_at,
                    stakers_finished: c.stakers_finished,
                },
            );
            last = t;
            if stake_amount != 0 {
                let prod = match (stake_amount as u128).checked_mul(new_rpt) {
                    Some(v) => v,
                    None => {
                        proof {
                            assert(!slot_settle_ok(
                                fv,
                                stake_amount as int,
                                slots@[i as int]@,
                                inow,
                                i as int,
                            ));
                            assert(slots_v(slots@)[i as int] == slots@[i as int]@);
                            assert(!settle_arith_ok(fv, stake_amount as int, slots_v(slots@), inow));
                        }
                        return Err(FarmError::ArithmeticOverflow);
                    },
                };
                let diff = match prod.checked_sub(sl.reward_debt) {
                    Some(v) => v,
                    None => {
                        proof {
                            assert(!slot_settle_ok(
                                fv,
                                stake_amount as int,
                                slots@[i as int]@,
                                inow,
                                i as int,
                            ));
                            assert(slots_v(slots@)[i as int] == slots@[i as int]@);
                            assert(!settle_arith_ok(fv, stake_amount as int, slots_v(slots@), inow));
                        }
                        return Err(FarmError::ArithmeticOverflow);
                    },
                };
                let pending128: u128 = diff / PRECISION;
                if pending128 > u64::MAX as u128 {
                    proof {
                        assert(!slot_settle_ok(
                            fv,
                            stake_amount as int,
                            slots@[i as int]@,
                            inow,
                            i as int,
                        ));
                        assert(slots_v(slots@)[i as int] == slots@[i as int]@);
                        assert(!settle_arith_ok(fv, stake_amount as int, slots_v(slots@), inow));
                    }
                    return Err(FarmError::ArithmeticOverflow);
                }
                let pending: u64 = pending128 as u64;
                let new_owed = match sl.amount_owed.checked_add(pending) {
                    Some(v) => v,
                    None => {
                        proof {
                            assert(!slot_settle_ok(
                                fv,
                                stake_amount as int,
                                slots@[i as int]@,
                                inow,
                                i as int,
                            ));
                            assert(slots_v(slots@)[i as int] == slots@[i as int]@);
                            assert(!settle_arith_ok(fv, stake_amount as int, slots_v(slots@), inow));
                        }
                        return Err(FarmError::ArithmeticOverflow);
                    },
                };
                new_slots.push(
                    StakeSlot {
                        reward_debt: sl.reward_debt,
                        last_gathered_at: sl.last_gathered_at,
                        amount_owed: new_owed,
                        finished: sl.finished,
                    },
                );
                proof {
                    assert(new_slots@[i as int]@ == settled_slot(
                        fv,
                        stake_amount as int,
                        slots@[i as int]@,
                        inow,
                        i as int,
                    ));
                }
            } else {
                new_slots.push(sl);
                proof {
                    assert(new_slots@[i as int]@ == settled_slot(
                        fv,
                        stake_amount as int,
                        slots@[i as int]@,
                        inow,
                        i as int,
                    ));
                }
            }
        } else {
            proof {
                assert(!slot_live(h, i as int));
            }
            new_crops.push(c);
            new_slots.push(sl);
            proof {
                assert(new_slots@[i as int]@ == settled_slot(
                    fv,
                    stake_amount as int,
                    slots@[i as int]@,
                    inow,
                    i as int,
                ));
            }
        }
        proof {
            let h2 = accrue_upto(fv, inow, i as int + 1);
            assert forall|k: int| 0 <= k < i as int + 1 implies new_crops@[k]@ == h2.crops[k] by {
                if k < i as int {
                    assert(new_crops@[k]@ == h.crops[k]);
                }
            }
        }
        i += 1;
    }
    proof {
        lemma_accrue_upto_frame(fv, inow, SLOT_COUNT as int);
        assert forall|k: int| 0 <= k < SLOT_COUNT as int implies crops_v(new_crops@)[k] == accrued(
            fv,
            inow,
        ).crops[k] by {
            assert(crops_v(new_crops@)[k] == new_crops@[k]@);
        }
        assert(crops_v(new_crops@) =~= accrued(fv, inow).crops);
        assert forall|k: int| 0 <= k < SLOT_COUNT as int implies slots_v(new_slots@)[k]
            == settled_slots(fv, stake_amount as int, slots_v(slots@), inow)[k] by {
            assert(slots_v(new_slots@)[k] == new_slots@[k]@);
            assert(slots_v(slots@)[k] == slots@[k]@);
        }
        assert(slots_v(new_slots@) =~= settled_slots(fv, stake_amount as int, slots_v(slots@), inow));
        assert forall|k: int| 0 <= k < SLOT_COUNT as int implies slot_settle_ok(
            fv,
            stake_amount as int,
            #[trigger] slots_v(slots@)[k],
            inow,
            k,
        ) by {
            assert(slots_v(slots@)[k] == slots@[k]@);
        }
        assert(settle_arith_ok(fv, stake_amount as int, slots_v(slots@), inow));
        assert(accrue_arith_ok(fv, inow));
    }
    Ok(EngineOut { crops: new_crops, last_updated_at: last, slots: new_slots })
}

/// Compute the re-baselined stake slots: each slot's reward debt becomes
/// `amount * reward_per_token` at full fixed-point scale. Nothing is mutated.
pub(crate) fn rebaselined_vec(crops: &Vec<Crop>, amount: u64, slots: &Vec<StakeSlot>) -> (r: Result<
    Vec<StakeSlot>,
    FarmError,
>)
    requires
        crops@.len() == SLOT_COUNT,
        slots@.len() == SLOT_COUNT,
    ensures
        match r {
            Ok(ns) => {
                &&& rebaseline_arith_ok(crops_v(crops@), amount as int)
                &&& ns@.len() == SLOT_COUNT
                &&& slots_v(ns@) == rebaselined_slots(crops_v(crops@), amount as int, slots_v(slots@))
            },
            Err(e) => {
                &&& e == FarmError::ArithmeticOverflow
                &&& !rebaseline_arith_ok(crops_v(crops@), amount as int)
            },
        },
{
    let mut ns: Vec<StakeSlot> = Vec::new();
    let mut i: usize = 0;
    while i < SLOT_COUNT
        invariant
            0 <= i <= SLOT_COUNT,
            crops@.len() == SLOT_COUNT,
            slots@.len() == SLOT_COUNT,
            ns@.len() == i,
            forall|k: int|
                0 <= k < i as int ==> ns@[k]@ == rebaselined_slot(
                    crops_v(crops@),
                    amount as int,
                    slots@[k]@,
                    k,
                ),
            forall|k: int|
                0 <= k < i as int ==> (amount as int) * (#[trigger] crops_v(crops@)[k]).reward_per_token
                    <= u128::MAX,
        decreases SLOT_COUNT - i,
    {
        let c = crops[i];
        let sl = slots[i];
        proof {
            assert(crops_v(crops@)[i as int] == c@);
        }
        let debt = match (amount as u128).checked_mul(c.reward_per_token) {
            Some(v) => v,
            None => {
                proof {
                    assert(!rebaseline_arith_ok(crops_v(crops@), amount as int));
                }
                return Err(FarmError::ArithmeticOverflow);
            },
        };
        ns.push(
            StakeSlot {
                reward_debt: debt,
                last_gathered_at: sl.last_gathered_at,
                amount_owed: sl.amount_owed,
                finished: sl.finished,
            },
        );
        i += 1;
    }
    proof {
        assert forall|k: int| 0 <= k < SLOT_COUNT as int implies slots_v(ns@)[k] == rebaselined_slots(
            crops_v(crops@),
            amount as int,
            slots_v(slots@),
        )[k] by {
            assert(slots_v(ns@)[k] == ns@[k]@);
            assert(slots_v(slots@)[k] == slots@[k]@);
        }
        assert(slots_v(ns@) =~= rebaselined_slots(crops_v(crops@), amount as int, slots_v(slots@)));
    }
    Ok(ns)
}

/// Re-baseline a position's reward debt against its farm: afterwards, for
/// every slot, `reward_debt == amount_staked * reward_per_token` exactly.
/// On overflow nothing is changed and `ArithmeticOverflow` is reported.
pub fn update_reward_debt(farm: &Farm, stake: &mut Stake) -> (r: Result<(), FarmError>)
    requires
        farm_wf(*farm),
        stake_wf(*old(stake)),
    ensures
        match r {
            Ok(_) => {
                &&& rebaseline_arith_ok(farm@.crops, old(stake)@.amount_staked)
                &&& final(stake)@ == (StakeV {
                    slots: rebaselined_slots(
                        farm@.crops,
                        old(stake)@.amount_staked,
                        old(stake)@.slots,
                    ),
                    ..old(stake)@
                })
                &&& stake_wf(*final(stake))
            },
            Err(e) => {
                &&& e == FarmError::ArithmeticOverflow
                &&& !rebaseline_arith_ok(farm@.crops, old(stake)@.amount_staked)
                &&& *final(stake) == *old(stake)
            },
        },
{
    let ns = match rebaselined_vec(&farm.crops, stake.amount_staked, &stake.slots) {
        Ok(v) => v,
        Err(e) => {
            return Err(e);
        },
    };
    stake.slots = ns;
    proof {
        assert(stake@ =~= (StakeV {
            slots: rebaselined_slots(farm@.crops, old(stake)@.amount_staked, old(stake)@.slots),
            ..old(stake)@
        }));
    }
    Ok(())
}

} // verus!

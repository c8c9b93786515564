//! The engine's global guarantees, stated and proved once for all inputs:
//! conservation of the staked total, idempotence of accrual and settlement,
//! and monotonicity of the reward-per-share accumulators.

use vstd::prelude::*;

use crate::accrual::{
    accrue_slot, accrue_upto, accrued, lemma_accrue_upto_frame, lemma_accrue_upto_last,
    lemma_accrue_upto_last_mono, rebaselined_slots, settled_slots, slot_live, slot_pending,
    slot_raw_reward, slot_share_delta, slot_time,
};
use crate::ops::{
    add_crop_farm_post, gather_earned, gather_farm_post, gather_newly_finished, gather_stake_post,
    staked_farm_post, staked_stake_post, remove_crop_farm_post, unstaked_farm_post,
    unstaked_stake_post,
};
use crate::state::{farm_v_wf, stake_v_wf, FarmV, SlotV, StakeV, SLOT_COUNT};

verus! {

/// The sum of all positions' staked amounts.
pub open spec fn stakes_total(stakes: Seq<StakeV>) -> int
    decreases stakes.len(),
{
    if stakes.len() == 0 {
        0
    } else {
        stakes_total(stakes.drop_last()) + stakes.last().amount_staked
    }
}

/// Conservation: the farm's recorded total equals the sum of all positions'
/// staked amounts.
pub open spec fn conserved(f: FarmV, stakes: Seq<StakeV>) -> bool {
    f.total_staked_amount == stakes_total(stakes)
}

/// Replacing one position changes the sum by exactly the change of that
/// position's staked amount.
proof fn lemma_stakes_total_update(stakes: Seq<StakeV>, k: int, s2: StakeV)
    requires
        0 <= k < stakes.len(),
    ensures
        stakes_total(stakes.update(k, s2)) == stakes_total(stakes) - stakes[k].amount_staked
            + s2.amount_staked,
    decreases stakes.len(),
{
    let up = stakes.update(k, s2);
    if k == stakes.len() - 1 {
        assert(up.drop_last() =~= stakes.drop_last());
    } else {
        assert(up.drop_last() =~= stakes.drop_last().update(k, s2));
        lemma_stakes_total_update(stakes.drop_last(), k, s2);
    }
}

/// Appending a position adds its staked amount to the sum.
proof fn lemma_stakes_total_push(stakes: Seq<StakeV>, s: StakeV)
    ensures
        stakes_total(stakes.push(s)) == stakes_total(stakes) + s.amount_staked,
{
    assert(stakes.push(s).drop_last() =~= stakes);
}

/// Conservation is preserved by opening a position: the new position holds
/// nothing, and the farm's total is untouched.
pub proof fn lemma_conservation_create_stake(f: FarmV, stakes: Seq<StakeV>, s: StakeV)
    requires
        conserved(f, stakes),
        s.amount_staked == 0,
    ensures
        conserved(FarmV { stakers: f.stakers + 1, ..f }, stakes.push(s)),
{
    lemma_stakes_total_push(stakes, s);
}

/// Conservation is preserved by a deposit: the farm's total and the one
/// position both grow by the deposited amount.
pub proof fn lemma_conservation_stake_tokens(
    f: FarmV,
    stakes: Seq<StakeV>,
    k: int,
    amount: int,
    now: int,
)
    requires
        conserved(f, stakes),
        0 <= k < stakes.len(),
        f.crops.len() == SLOT_COUNT,
    ensures
        conserved(
            staked_farm_post(f, amount, now),
            stakes.update(k, staked_stake_post(f, stakes[k], amount, now)),
        ),
{
    lemma_accrue_upto_frame(f, now, SLOT_COUNT as int);
    lemma_stakes_total_update(stakes, k, staked_stake_post(f, stakes[k], amount, now));
}

/// Conservation is preserved by a withdrawal: the farm's total and the one
/// position both shrink by the withdrawn amount.
pub proof fn lemma_conservation_unstake_tokens(
    f: FarmV,
    stakes: Seq<StakeV>,
    k: int,
    amount: int,
    now: int,
)
    requires
        conserved(f, stakes),
        0 <= k < stakes.len(),
        f.crops.len() == SLOT_COUNT,
    ensures
        conserved(
            unstaked_farm_post(f, amount, now),
            stakes.update(k, unstaked_stake_post(f, stakes[k], amount, now)),
        ),
{
    lemma_accrue_upto_frame(f, now, SLOT_COUNT as int);
    lemma_stakes_total_update(stakes, k, unstaked_stake_post(f, stakes[k], amount, now));
}

/// Conservation is preserved by a harvest: neither the farm's total nor any
/// position's staked amount changes.
pub proof fn lemma_conservation_gather_rewards(
    f: FarmV,
    stakes: Seq<StakeV>,
    k: int,
    crop_index: int,
    now: int,
)
    requires
        conserved(f, stakes),
        0 <= k < stakes.len(),
        f.crops.len() == SLOT_COUNT,
    ensures
        conserved(
            gather_farm_post(f, stakes[k], crop_index, now),
            stakes.update(k, gather_stake_post(f, stakes[k], crop_index, now)),
        ),
{
    lemma_accrue_upto_frame(f, now, SLOT_COUNT as int);
    lemma_stakes_total_update(stakes, k, gather_stake_post(f, stakes[k], crop_index, now));
}

/// Conservation is preserved by funding a crop: no stake moves.
pub proof fn lemma_conservation_add_crop(
    f: FarmV,
    stakes: Seq<StakeV>,
    crop_index: int,
    reward_amount: int,
    rps: int,
    vault: crate::ids::AccountId,
    now: int,
)
    requires
        conserved(f, stakes),
        f.crops.len() == SLOT_COUNT,
    ensures
        conserved(add_crop_farm_post(f, crop_index, reward_amount, rps, vault, now), stakes),
{
    lemma_accrue_upto_frame(f, now, SLOT_COUNT as int);
}

/// Conservation is preserved by retiring a crop: no stake moves.
pub proof fn lemma_conservation_remove_crop(f: FarmV, stakes: Seq<StakeV>, crop_index: int)
    requires
        conserved(f, stakes),
    ensures
        conserved(remove_crop_farm_post(f, crop_index), stakes),
{
}

proof fn lemma_accrue_without_stake_upto(f: FarmV, now: int, n: int)
    requires
        f.total_staked_amount == 0,
        0 <= n <= SLOT_COUNT as int,
    ensures
        accrue_upto(f, now, n) == f,
    decreases n,
{
    if n > 0 {
        lemma_accrue_without_stake_upto(f, now, n - 1);
    }
}

/// With no shares to distribute against, accrual changes nothing: the
/// accumulators and the shared timestamp stay put, and the funded rewards
/// simply remain in their vaults.
pub proof fn lemma_accrue_without_stake(f: FarmV, now: int)
    requires
        f.total_staked_amount == 0,
    ensures
        accrued(f, now) == f,
{
    lemma_accrue_without_stake_upto(f, now, SLOT_COUNT as int);
}

/// A reward-per-share accumulator never decreases while a prefix of the
/// accrual loop runs.
proof fn lemma_rpt_monotone_upto(f: FarmV, now: int, i: int, n: int)
    requires
        farm_v_wf(f),
        f.last_updated_at <= now,
        0 <= i < SLOT_COUNT as int,
        0 <= n <= SLOT_COUNT as int,
    ensures
        f.crops[i].reward_per_token <= accrue_upto(f, now, n).crops[i].reward_per_token,
    decreases n,
{
    if n > 0 {
        lemma_rpt_monotone_upto(f, now, i, n - 1);
        let g = accrue_upto(f, now, n - 1);
        lemma_accrue_upto_frame(f, now, n - 1);
        lemma_accrue_upto_last(f, now, n - 1);
        if n - 1 == i && slot_live(g, i) {
            let elapsed = slot_time(g, i, now) - g.last_updated_at;
            assert(elapsed >= 0);
            vstd::arithmetic::mul::lemma_mul_nonnegative(
                elapsed,
                g.crops[i].rewards_per_second,
            );
            vstd::arithmetic::mul::lemma_mul_nonnegative(
                elapsed * g.crops[i].rewards_per_second,
                crate::PRECISION as int,
            );
            vstd::arithmetic::div_mod::lemma_div_pos_is_pos(
                elapsed * g.crops[i].rewards_per_second * (crate::PRECISION as int),
                g.total_staked_amount,
            );
        }
    }
}

/// Monotonic reward-per-share: accruing a farm up to any time never lowers
/// any slot's cumulative reward-per-share accumulator.
pub proof fn lemma_reward_per_share_monotone(f: FarmV, now: int, i: int)
    requires
        farm_v_wf(f),
        f.last_updated_at <= now,
        0 <= i < SLOT_COUNT as int,
    ensures
        f.crops[i].reward_per_token <= accrued(f, now).crops[i].reward_per_token,
{
    lemma_rpt_monotone_upto(f, now, i, SLOT_COUNT as int);
}

/// In a fully accrued farm, every live slot's effective time equals the
/// shared timestamp, so accruing again adds nothing.
proof fn lemma_accrued_slot_time(f: FarmV, now: int, i: int)
    requires
        farm_v_wf(f),
        f.last_updated_at <= now,
        0 <= i < SLOT_COUNT as int,
        slot_live(accrued(f, now), i),
    ensures
        slot_time(accrued(f, now), i, now) == accrued(f, now).last_updated_at,
{
    let g = accrued(f, now);
    let h = accrue_upto(f, now, i);
    lemma_accrue_upto_frame(f, now, i);
    lemma_accrue_upto_frame(f, now, SLOT_COUNT as int);
    lemma_accrue_upto_last(f, now, i);
    lemma_accrue_upto_last(f, now, SLOT_COUNT as int);
    lemma_accrue_upto_last_mono(f, now, i, SLOT_COUNT as int);
    // The slot was live when the loop reached it, so the loop advanced the
    // shared timestamp at least to this slot's effective time.
    assert(h.last_updated_at <= g.last_updated_at);
    assert(slot_live(h, i));
    assert(accrue_upto(f, now, i + 1) == accrue_slot(h, i, now));
    assert(accrue_upto(f, now, i + 1).last_updated_at == slot_time(h, i, now));
    lemma_accrue_upto_last_mono(f, now, i + 1, SLOT_COUNT as int);
    assert(slot_time(h, i, now) <= g.last_updated_at);
    assert(slot_time(h, i, now) == slot_time(g, i, now));
}

/// The condition that makes a farm a fixed point of accrual at `now`:
/// every live slot's effective time already equals the shared timestamp.
spec fn settled_times(g: FarmV, now: int) -> bool {
    forall|i: int|
        0 <= i < SLOT_COUNT as int ==> (#[trigger] slot_live(g, i) ==> slot_time(g, i, now)
            == g.last_updated_at)
}

/// One accrual step changes nothing on a farm whose live slots have already
/// reached their effective times.
proof fn lemma_fixed_point_slot(g: FarmV, now: int, i: int)
    requires
        g.crops.len() == SLOT_COUNT,
        settled_times(g, now),
        0 <= i < SLOT_COUNT as int,
    ensures
        accrue_slot(g, i, now) == g,
{
    if slot_live(g, i) {
        assert(slot_time(g, i, now) - g.last_updated_at == 0);
        vstd::arithmetic::div_mod::lemma_div_of0(g.total_staked_amount);
        assert(g.crops[i].reward_per_token + (0 * g.crops[i].rewards_per_second) * (
        crate::PRECISION as int) / g.total_staked_amount == g.crops[i].reward_per_token);
        assert(g.crops.update(i, g.crops[i]) =~= g.crops);
        assert(accrue_slot(g, i, now) =~= g);
    }
}

/// A whole accrual pass changes nothing on such a farm.
proof fn lemma_fixed_point_upto(g: FarmV, now: int, n: int)
    requires
        g.crops.len() == SLOT_COUNT,
        settled_times(g, now),
        0 <= n <= SLOT_COUNT as int,
    ensures
        accrue_upto(g, now, n) == g,
    decreases n,
{
    if n > 0 {
        lemma_fixed_point_upto(g, now, n - 1);
        lemma_fixed_point_slot(g, now, n - 1);
    }
}

/// A fully accrued farm satisfies the fixed-point condition.
proof fn lemma_accrued_settled_times(f: FarmV, now: int)
    requires
        farm_v_wf(f),
        f.last_updated_at <= now,
    ensures
        settled_times(accrued(f, now), now),
{
    let g = accrued(f, now);
    assert forall|i: int|
        0 <= i < SLOT_COUNT as int implies (#[trigger] slot_live(g, i) ==> slot_time(g, i, now)
        == g.last_updated_at) by {
        if slot_live(g, i) {
            lemma_accrued_slot_time(f, now, i);
        }
    }
}

/// A whole second accrual pass on a fully accrued farm changes nothing.
proof fn lemma_accrued_fixed_upto(f: FarmV, now: int, n: int)
    requires
        farm_v_wf(f),
        f.last_updated_at <= now,
        0 <= n <= SLOT_COUNT as int,
    ensures
        accrue_upto(accrued(f, now), now, n) == accrued(f, now),
{
    lemma_accrue_upto_frame(f, now, SLOT_COUNT as int);
    lemma_accrued_settled_times(f, now);
    lemma_fixed_point_upto(accrued(f, now), now, n);
}

/// No double accrual, farm part: accruing a farm twice at the same time is
/// the same as accruing it once.
pub proof fn lemma_accrue_idempotent(f: FarmV, now: int)
    requires
        farm_v_wf(f),
        f.last_updated_at <= now,
    ensures
        accrued(accrued(f, now), now) == accrued(f, now),
{
    lemma_accrued_fixed_upto(f, now, SLOT_COUNT as int);
}

/// No double accrual, position part: after one settlement followed by the
/// reward-debt re-baseline — the pair every operation performs — running the
/// engine again at the same time adds nothing: settlement leaves every owed
/// balance unchanged and the re-baseline leaves every debt unchanged.
pub proof fn lemma_settle_rebaseline_idempotent(f: FarmV, s: StakeV, now: int)
    requires
        farm_v_wf(f),
        stake_v_wf(s),
        f.last_updated_at <= now,
    ensures
        ({
            let g = accrued(f, now);
            let once = rebaselined_slots(
                g.crops,
                s.amount_staked,
                settled_slots(f, s.amount_staked, s.slots, now),
            );
            &&& settled_slots(g, s.amount_staked, once, now) == once
            &&& rebaselined_slots(g.crops, s.amount_staked, once) == once
        }),
{
    let g = accrued(f, now);
    let amount = s.amount_staked;
    let once = rebaselined_slots(g.crops, amount, settled_slots(f, amount, s.slots, now));
    lemma_accrue_upto_frame(f, now, SLOT_COUNT as int);
    assert forall|i: int| 0 <= i < SLOT_COUNT as int implies slot_pending(
        g,
        amount,
        once[i].reward_debt,
        now,
        i,
    ) == 0 by {
        lemma_accrued_fixed_upto(f, now, i);
        lemma_accrued_settled_times(f, now);
        lemma_fixed_point_slot(g, now, i);
        if slot_live(g, i) && amount != 0 {
            assert(accrue_slot(accrue_upto(g, now, i), i, now).crops[i].reward_per_token
                == g.crops[i].reward_per_token);
            assert(once[i].reward_debt == amount * g.crops[i].reward_per_token);
            assert((amount * g.crops[i].reward_per_token - amount * g.crops[i].reward_per_token)
                / (crate::PRECISION as int) == 0);
        }
    }
    assert(settled_slots(g, amount, once, now) =~= once);
    assert forall|i: int| 0 <= i < SLOT_COUNT as int implies rebaselined_slots(
        g.crops,
        amount,
        once,
    )[i] == once[i] by {
        assert(once[i].reward_debt == amount * g.crops[i].reward_per_token);
    }
    assert(rebaselined_slots(g.crops, amount, once) =~= once);
}

/// No double accrual at the operation surface: a harvest repeated at the
/// same time with no intervening state change pays zero and leaves both
/// records — every accumulator, the shared timestamp, every reward debt and
/// every owed balance — exactly as the first call left them.
pub proof fn lemma_gather_rewards_repeat(f: FarmV, s: StakeV, crop_index: int, now: int)
    requires
        farm_v_wf(f),
        stake_v_wf(s),
        f.last_updated_at <= now,
        0 <= crop_index < SLOT_COUNT as int,
    ensures
        ({
            let f1 = gather_farm_post(f, s, crop_index, now);
            let s1 = gather_stake_post(f, s, crop_index, now);
            &&& gather_earned(f1, s1, crop_index, now) == 0
            &&& gather_farm_post(f1, s1, crop_index, now) == f1
            &&& gather_stake_post(f1, s1, crop_index, now) == s1
        }),
{
    let ci = crop_index;
    let g = accrued(f, now);
    let f1 = gather_farm_post(f, s, ci, now);
    let s1 = gather_stake_post(f, s, ci, now);
    let amount = s.amount_staked;
    lemma_accrue_upto_frame(f, now, SLOT_COUNT as int);
    lemma_accrued_settled_times(f, now);

    // The first call's farm differs from the plain accrued farm at most in
    // one finished-staker counter, which accrual never reads; so the
    // fixed-point condition carries over and the farm stays put.
    assert(f1.crops.len() == SLOT_COUNT);
    assert forall|i: int|
        0 <= i < SLOT_COUNT as int implies (#[trigger] slot_live(f1, i) ==> slot_time(f1, i, now)
        == f1.last_updated_at) by {
        if slot_live(f1, i) {
            assert(slot_live(g, i));
        }
    }
    assert(settled_times(f1, now));
    lemma_fixed_point_upto(f1, now, SLOT_COUNT as int);

    // The first call left every reward debt exactly re-baselined and the
    // harvested slot's owed balance zeroed and stamped.
    assert(s1.amount_staked == amount);
    assert(s1.slots.len() == SLOT_COUNT);
    assert forall|i: int|
        0 <= i < SLOT_COUNT as int implies (#[trigger] s1.slots[i]).reward_debt == amount
        * f1.crops[i].reward_per_token by {}
    assert(s1.slots[ci].amount_owed == 0);
    assert(s1.slots[ci].last_gathered_at == now);

    // Second settlement: every pending amount is zero.
    assert forall|i: int| 0 <= i < SLOT_COUNT as int implies slot_pending(
        f1,
        s1.amount_staked,
        (#[trigger] s1.slots[i]).reward_debt,
        now,
        i,
    ) == 0 by {
        lemma_fixed_point_upto(f1, now, i);
        lemma_fixed_point_slot(f1, now, i);
        if slot_live(f1, i) && amount != 0 {
            assert(accrue_slot(accrue_upto(f1, now, i), i, now).crops[i].reward_per_token
                == f1.crops[i].reward_per_token);
            assert((amount * f1.crops[i].reward_per_token - amount * f1.crops[i].reward_per_token)
                / (crate::PRECISION as int) == 0);
        }
    }
    assert(settled_slots(f1, s1.amount_staked, s1.slots, now) =~= s1.slots);
    assert(gather_earned(f1, s1, ci, now) == 0);

    // The position cannot be counted as finished a second time.
    assert(!gather_newly_finished(f1, s1, ci, now)) by {
        if gather_newly_finished(f1, s1, ci, now) {
            assert(amount == 0);
            assert(!s.slots[ci].finished && !gather_newly_finished(f, s, ci, now));
            assert(g.crops[ci].stakers_finished >= f.stakers);
            assert(f1 == g);
            assert(accrued(f1, now) == f1);
        }
    }
    assert(gather_farm_post(f1, s1, ci, now) == f1);

    // The repeated call rewrites the harvested slot and every debt with the
    // values they already hold.
    let sl = s1.slots[ci];
    assert((SlotV {
        last_gathered_at: now,
        amount_owed: 0,
        finished: sl.finished || gather_newly_finished(f1, s1, ci, now),
        ..sl
    }) == sl);
    assert(s1.slots.update(ci, sl) =~= s1.slots);
    assert forall|i: int| 0 <= i < SLOT_COUNT as int implies rebaselined_slots(
        f1.crops,
        s1.amount_staked,
        s1.slots,
    )[i] == s1.slots[i] by {}
    assert(rebaselined_slots(f1.crops, s1.amount_staked, s1.slots) =~= s1.slots);
    assert(gather_stake_post(f1, s1, ci, now) =~= s1);
}

/// With a freshly re-baselined reward debt, settlement credits exactly the
/// position's share of the slot's accumulator step, scaled back down:
/// `amount * delta / PRECISION`.
pub proof fn lemma_pending_is_share(f: FarmV, amount: int, now: int, i: int)
    requires
        f.crops.len() == SLOT_COUNT,
        0 <= i < SLOT_COUNT as int,
        amount != 0,
    ensures
        ({
            let g = accrue_upto(f, now, i);
            slot_live(g, i) ==> slot_pending(f, amount, amount * g.crops[i].reward_per_token, now, i)
                == amount * slot_share_delta(g, i, now) / (crate::PRECISION as int)
        }),
{
    let g = accrue_upto(f, now, i);
    lemma_accrue_upto_frame(f, now, i);
    if slot_live(g, i) {
        assert(accrue_slot(g, i, now).crops[i].reward_per_token == g.crops[i].reward_per_token
            + slot_share_delta(g, i, now));
        vstd::arithmetic::mul::lemma_mul_is_distributive_add(
            amount,
            g.crops[i].reward_per_token,
            slot_share_delta(g, i, now),
        );
    }
}

/// One interval's emission splits proportionally: equal stakes receive
/// equal shares of a slot's accumulator step, and the shares of two
/// positions holding the whole pool between them never sum to more than the
/// raw reward the interval emitted — the fixed-point rounding can only lose
/// value, never create it.
pub proof fn lemma_proportional_split(f: FarmV, i: int, now: int, a: int, b: int)
    requires
        f.crops.len() == SLOT_COUNT,
        0 <= i < SLOT_COUNT as int,
        slot_live(f, i),
        f.last_updated_at <= slot_time(f, i, now),
        0 <= f.crops[i].rewards_per_second,
        0 <= a,
        0 <= b,
        a + b == f.total_staked_amount,
    ensures
        a == b ==> a * slot_share_delta(f, i, now) / (crate::PRECISION as int) == b
            * slot_share_delta(f, i, now) / (crate::PRECISION as int),
        a * slot_share_delta(f, i, now) / (crate::PRECISION as int) + b * slot_share_delta(
            f,
            i,
            now,
        ) / (crate::PRECISION as int) <= slot_raw_reward(f, i, now),
{
    let p = crate::PRECISION as int;
    let t = f.total_staked_amount;
    let raw = slot_raw_reward(f, i, now);
    let x = raw * p;
    let d = slot_share_delta(f, i, now);
    let qa = a * d / p;
    let qb = b * d / p;
    // The interval's emission and the accumulator step are non-negative.
    vstd::arithmetic::mul::lemma_mul_nonnegative(
        slot_time(f, i, now) - f.last_updated_at,
        f.crops[i].rewards_per_second,
    );
    vstd::arithmetic::mul::lemma_mul_nonnegative(raw, p);
    vstd::arithmetic::div_mod::lemma_div_pos_is_pos(x, t);
    // The two rounded shares sum to at most the whole pool's share.
    vstd::arithmetic::mul::lemma_mul_nonnegative(a, d);
    vstd::arithmetic::mul::lemma_mul_nonnegative(b, d);
    vstd::arithmetic::div_mod::lemma_fundamental_div_mod(a * d, p);
    vstd::arithmetic::div_mod::lemma_fundamental_div_mod(b * d, p);
    vstd::arithmetic::div_mod::lemma_mod_bound(a * d, p);
    vstd::arithmetic::div_mod::lemma_mod_bound(b * d, p);
    vstd::arithmetic::mul::lemma_mul_is_distributive_add(p, qa, qb);
    vstd::arithmetic::mul::lemma_mul_is_distributive_add_other_way(d, a, b);
    assert(p * (qa + qb) <= t * d);
    vstd::arithmetic::div_mod::lemma_div_multiples_vanish(qa + qb, p);
    vstd::arithmetic::div_mod::lemma_div_is_ordered(p * (qa + qb), t * d, p);
    // The whole pool's share is the emission, rounded down by the division
    // through the pool total and back.
    vstd::arithmetic::div_mod::lemma_fundamental_div_mod(x, t);
    vstd::arithmetic::div_mod::lemma_mod_bound(x, t);
    assert(t * d <= x);
    vstd::arithmetic::div_mod::lemma_div_is_ordered(t * d, x, p);
    vstd::arithmetic::mul::lemma_mul_is_commutative(raw, p);
    vstd::arithmetic::div_mod::lemma_div_multiples_vanish(raw, p);
    assert(x / p == raw);
}

} // verus!

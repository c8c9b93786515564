//! Per-operation tests: constructors, each error variant, the debt
//! re-baseline, and the conservation, idempotence and monotonicity laws on
//! concrete values.

use farm::{
    add_crop, create_crop_vault, create_farm, create_stake, gather_rewards, get_precision_scaler,
    remove_crop, stake_tokens, unstake_tokens, update_reward_debt, AccountId, FarmError,
    TokenAccountInfo, TransferAuthority, PRECISION, SLOT_COUNT,
};

fn key(id: u128) -> AccountId {
    AccountId { id }
}

fn token_account(key_id: u128, mint_id: u128, owner_id: u128, amount: u64) -> TokenAccountInfo {
    TokenAccountInfo { key: key(key_id), mint: key(mint_id), owner: key(owner_id), amount }
}

const OWNER: u128 = 1;
const STAKE_MINT: u128 = 2;
const STAKE_VAULT: u128 = 3;
const REWARD_MINT: u128 = 4;
const CROP_VAULT: u128 = 5;
const FARM_KEY: u128 = 6;
const STAKER: u128 = 7;
const OUTSIDER: u128 = 9;

#[test]
fn precision_scaler_is_two_to_the_63() {
    assert_eq!(get_precision_scaler(), 1u128 << 63);
    assert_eq!(PRECISION, 9223372036854775808);
}

#[test]
fn create_farm_starts_empty() {
    let farm = create_farm(key(OWNER), key(STAKE_MINT), key(STAKE_VAULT), 42);
    assert_eq!(farm.owner, key(OWNER));
    assert_eq!(farm.created_at, 42);
    assert_eq!(farm.last_updated_at, 42);
    assert_eq!(farm.total_staked_amount, 0);
    assert_eq!(farm.stakers, 0);
    assert_eq!(farm.crops.len(), SLOT_COUNT);
    for c in &farm.crops {
        assert_eq!(c.created_at, 0);
        assert_eq!(c.rewards_per_second, 0);
        assert_eq!(c.reward_per_token, 0);
        assert_eq!(c.end_date, 0);
    }
}

#[test]
fn create_stake_zeroed_and_counts_staker() {
    let mut farm = create_farm(key(OWNER), key(STAKE_MINT), key(STAKE_VAULT), 42);
    let stake = create_stake(&mut farm, key(FARM_KEY), key(STAKER), 50);
    assert_eq!(farm.stakers, 1);
    assert_eq!(stake.owner, key(STAKER));
    assert_eq!(stake.farm, key(FARM_KEY));
    assert_eq!(stake.created_at, 0);
    assert_eq!(stake.amount_staked, 0);
    assert_eq!(stake.last_updated_at, 50);
    assert_eq!(stake.slots.len(), SLOT_COUNT);
    for s in &stake.slots {
        assert_eq!(s.reward_debt, 0);
        assert_eq!(s.amount_owed, 0);
        assert_eq!(s.last_gathered_at, 0);
        assert!(!s.finished);
    }
}

#[test]
fn create_crop_vault_checks_owner() {
    let farm = create_farm(key(OWNER), key(STAKE_MINT), key(STAKE_VAULT), 42);
    assert_eq!(create_crop_vault(&farm, key(OWNER)), Ok(()));
    assert_eq!(create_crop_vault(&farm, key(OUTSIDER)), Err(FarmError::Unauthorized));
}

#[test]
fn add_crop_unauthorized() {
    let mut farm = create_farm(key(OWNER), key(STAKE_MINT), key(STAKE_VAULT), 1000);
    let crop_vault = token_account(CROP_VAULT, REWARD_MINT, OWNER, 0);
    let funder = token_account(20, REWARD_MINT, OUTSIDER, 500);
    let r = add_crop(&mut farm, 0, 500, 5, &crop_vault, &funder, key(OUTSIDER), 1000);
    assert_eq!(r, Err(FarmError::Unauthorized));
}

#[test]
fn add_crop_index_capped_at_five() {
    let mut farm = create_farm(key(OWNER), key(STAKE_MINT), key(STAKE_VAULT), 1000);
    let crop_vault = token_account(CROP_VAULT, REWARD_MINT, OWNER, 0);
    let funder = token_account(20, REWARD_MINT, OWNER, 500);
    let r = add_crop(&mut farm, 5, 500, 5, &crop_vault, &funder, key(OWNER), 1000);
    assert_eq!(r, Err(FarmError::IndexOutOfRange));
    let ok = add_crop(&mut farm, 4, 500, 5, &crop_vault, &funder, key(OWNER), 1000);
    assert!(ok.is_ok());
}

#[test]
fn add_crop_wrong_mint() {
    let mut farm = create_farm(key(OWNER), key(STAKE_MINT), key(STAKE_VAULT), 1000);
    let crop_vault = token_account(CROP_VAULT, REWARD_MINT, OWNER, 0);
    let funder = token_account(20, STAKE_MINT, OWNER, 500);
    let r = add_crop(&mut farm, 0, 500, 5, &crop_vault, &funder, key(OWNER), 1000);
    assert_eq!(r, Err(FarmError::AssetMismatch));
}

#[test]
fn add_crop_slot_occupied() {
    let mut farm = create_farm(key(OWNER), key(STAKE_MINT), key(STAKE_VAULT), 1000);
    let crop_vault = token_account(CROP_VAULT, REWARD_MINT, OWNER, 0);
    let funder = token_account(20, REWARD_MINT, OWNER, 500);
    add_crop(&mut farm, 0, 500, 5, &crop_vault, &funder, key(OWNER), 1000).unwrap();
    let r = add_crop(&mut farm, 0, 500, 5, &crop_vault, &funder, key(OWNER), 1001);
    assert_eq!(r, Err(FarmError::SlotOccupied));
}

#[test]
fn add_crop_zero_rate_is_arithmetic_failure() {
    let mut farm = create_farm(key(OWNER), key(STAKE_MINT), key(STAKE_VAULT), 1000);
    let crop_vault = token_account(CROP_VAULT, REWARD_MINT, OWNER, 0);
    let funder = token_account(20, REWARD_MINT, OWNER, 500);
    let r = add_crop(&mut farm, 0, 500, 0, &crop_vault, &funder, key(OWNER), 1000);
    assert_eq!(r, Err(FarmError::ArithmeticOverflow));
    assert_eq!(farm.crops[0].created_at, 0);
}

#[test]
fn add_crop_end_date_truncates() {
    let mut farm = create_farm(key(OWNER), key(STAKE_MINT), key(STAKE_VAULT), 1000);
    let crop_vault = token_account(CROP_VAULT, REWARD_MINT, OWNER, 0);
    let funder = token_account(20, REWARD_MINT, OWNER, 505);
    add_crop(&mut farm, 2, 505, 10, &crop_vault, &funder, key(OWNER), 1000).unwrap();
    // 505 / 10 truncates to 50 seconds; the leftover 5 stays in the vault.
    assert_eq!(farm.crops[2].end_date, 1050);
    assert_eq!(farm.crops[2].created_at, 1000);
    assert_eq!(farm.crops[2].rewards_per_second, 10);
    assert_eq!(farm.crops[2].stakers_finished, 0);
    assert_eq!(farm.crops[2].vault, key(CROP_VAULT));
}

#[test]
fn stake_tokens_checks_in_order() {
    let mut farm = create_farm(key(OWNER), key(STAKE_MINT), key(STAKE_VAULT), 1000);
    let mut stake = create_stake(&mut farm, key(FARM_KEY), key(STAKER), 1000);
    let stake_vault = token_account(STAKE_VAULT, STAKE_MINT, OWNER, 0);
    let token = token_account(21, STAKE_MINT, STAKER, 100);

    // Stake bound to another farm.
    let r = stake_tokens(&mut farm, &mut stake, key(99), &stake_vault, &token, key(STAKER), 10, 1000);
    assert_eq!(r, Err(FarmError::Unauthorized));
    // Wrong stake vault.
    let wrong_vault = token_account(98, STAKE_MINT, OWNER, 0);
    let r = stake_tokens(&mut farm, &mut stake, key(FARM_KEY), &wrong_vault, &token, key(STAKER), 10, 1000);
    assert_eq!(r, Err(FarmError::AssetMismatch));
    // Signer is not the stake's owner.
    let r = stake_tokens(&mut farm, &mut stake, key(FARM_KEY), &stake_vault, &token, key(OUTSIDER), 10, 1000);
    assert_eq!(r, Err(FarmError::Unauthorized));
    // Wrong mint on the source account.
    let wrong_mint = token_account(21, REWARD_MINT, STAKER, 100);
    let r = stake_tokens(&mut farm, &mut stake, key(FARM_KEY), &stake_vault, &wrong_mint, key(STAKER), 10, 1000);
    assert_eq!(r, Err(FarmError::AssetMismatch));
    // Source account not owned by the signer.
    let not_owned = token_account(21, STAKE_MINT, OUTSIDER, 100);
    let r = stake_tokens(&mut farm, &mut stake, key(FARM_KEY), &stake_vault, &not_owned, key(STAKER), 10, 1000);
    assert_eq!(r, Err(FarmError::Unauthorized));
    // All checks pass.
    let t = stake_tokens(&mut farm, &mut stake, key(FARM_KEY), &stake_vault, &token, key(STAKER), 10, 1000)
        .unwrap();
    assert_eq!(t.from, key(21));
    assert_eq!(t.to, key(STAKE_VAULT));
    assert!(matches!(t.authority, TransferAuthority::Caller));
    assert_eq!(t.amount, 10);
}

#[test]
fn stake_overflow_is_reported() {
    let mut farm = create_farm(key(OWNER), key(STAKE_MINT), key(STAKE_VAULT), 1000);
    let mut stake = create_stake(&mut farm, key(FARM_KEY), key(STAKER), 1000);
    let stake_vault = token_account(STAKE_VAULT, STAKE_MINT, OWNER, 0);
    let token = token_account(21, STAKE_MINT, STAKER, 0);
    stake_tokens(&mut farm, &mut stake, key(FARM_KEY), &stake_vault, &token, key(STAKER), u64::MAX, 1000)
        .unwrap();
    let r = stake_tokens(&mut farm, &mut stake, key(FARM_KEY), &stake_vault, &token, key(STAKER), 1, 1001);
    assert_eq!(r, Err(FarmError::ArithmeticOverflow));
    assert_eq!(farm.total_staked_amount, u64::MAX);
    assert_eq!(stake.amount_staked, u64::MAX);
}

#[test]
fn remove_crop_errors_in_order() {
    let t0: u64 = 1000;
    let mut farm = create_farm(key(OWNER), key(STAKE_MINT), key(STAKE_VAULT), t0);
    let crop_vault = token_account(CROP_VAULT, REWARD_MINT, OWNER, 77);
    let sweep_to = token_account(20, REWARD_MINT, OWNER, 0);

    // Empty slot.
    let r = remove_crop(&mut farm, 0, &crop_vault, &sweep_to, key(OWNER), t0 + 500);
    assert_eq!(r, Err(FarmError::SlotEmpty));
    // Index at the cap.
    let r = remove_crop(&mut farm, 5, &crop_vault, &sweep_to, key(OWNER), t0 + 500);
    assert_eq!(r, Err(FarmError::IndexOutOfRange));
    // Wrong signer.
    let r = remove_crop(&mut farm, 0, &crop_vault, &sweep_to, key(OUTSIDER), t0 + 500);
    assert_eq!(r, Err(FarmError::Unauthorized));

    add_crop(&mut farm, 0, 500, 5, &crop_vault, &sweep_to, key(OWNER), t0).unwrap();
    // Not yet expired: end date is t0 + 100.
    let r = remove_crop(&mut farm, 0, &crop_vault, &sweep_to, key(OWNER), t0 + 100);
    assert_eq!(r, Err(FarmError::CropActive));

    // A staker who never settles blocks retirement.
    let _stake = create_stake(&mut farm, key(FARM_KEY), key(STAKER), t0);
    let r = remove_crop(&mut farm, 0, &crop_vault, &sweep_to, key(OWNER), t0 + 101);
    assert_eq!(r, Err(FarmError::SettlementIncomplete));
}

#[test]
fn remove_crop_wrong_mint_and_sweep() {
    let t0: u64 = 1000;
    let mut farm = create_farm(key(OWNER), key(STAKE_MINT), key(STAKE_VAULT), t0);
    let crop_vault = token_account(CROP_VAULT, REWARD_MINT, OWNER, 77);
    let funder = token_account(20, REWARD_MINT, OWNER, 500);
    add_crop(&mut farm, 0, 500, 5, &crop_vault, &funder, key(OWNER), t0).unwrap();

    let wrong_mint = token_account(20, STAKE_MINT, OWNER, 0);
    let r = remove_crop(&mut farm, 0, &crop_vault, &wrong_mint, key(OWNER), t0 + 101);
    assert_eq!(r, Err(FarmError::AssetMismatch));

    // With no stakers the guard passes once the schedule has lapsed; the
    // whole remaining vault balance is swept back.
    let sweep = remove_crop(&mut farm, 0, &crop_vault, &funder, key(OWNER), t0 + 101).unwrap();
    assert_eq!(sweep.amount, 77);
    assert!(matches!(sweep.authority, TransferAuthority::Protocol));
    assert_eq!(farm.crops[0].created_at, 0);
    assert_eq!(farm.crops[0].rewards_per_second, 0);
    assert_eq!(farm.crops[0].reward_per_token, 0);
    assert_eq!(farm.crops[0].end_date, 0);
}

#[test]
fn gather_rewards_index_and_vault_checks() {
    let t0: u64 = 1000;
    let mut farm = create_farm(key(OWNER), key(STAKE_MINT), key(STAKE_VAULT), t0);
    let mut stake = create_stake(&mut farm, key(FARM_KEY), key(STAKER), t0);
    let crop_vault = token_account(CROP_VAULT, REWARD_MINT, OWNER, 0);
    let reward_to = token_account(22, REWARD_MINT, STAKER, 0);

    let r = gather_rewards(&mut farm, &mut stake, 8, key(FARM_KEY), &crop_vault, &reward_to, key(STAKER), t0);
    assert_eq!(r, Err(FarmError::IndexOutOfRange));
    // The slot's recorded vault (still zero) does not match this vault.
    let r = gather_rewards(&mut farm, &mut stake, 0, key(FARM_KEY), &crop_vault, &reward_to, key(STAKER), t0);
    assert_eq!(r, Err(FarmError::AssetMismatch));
}

/// The farm's owner may harvest on the staker's behalf, but only into an
/// account the signer owns.
#[test]
fn gather_rewards_signer_rules() {
    let t0: u64 = 1000;
    let mut farm = create_farm(key(OWNER), key(STAKE_MINT), key(STAKE_VAULT), t0);
    let crop_vault = token_account(CROP_VAULT, REWARD_MINT, OWNER, 0);
    let funder = token_account(20, REWARD_MINT, OWNER, 500);
    add_crop(&mut farm, 0, 500, 5, &crop_vault, &funder, key(OWNER), t0).unwrap();
    let mut stake = create_stake(&mut farm, key(FARM_KEY), key(STAKER), t0);

    let outsider_reward = token_account(22, REWARD_MINT, OUTSIDER, 0);
    let r = gather_rewards(&mut farm, &mut stake, 0, key(FARM_KEY), &crop_vault, &outsider_reward, key(OUTSIDER), t0);
    assert_eq!(r, Err(FarmError::Unauthorized));

    let owner_reward = token_account(23, REWARD_MINT, OWNER, 0);
    let r = gather_rewards(&mut farm, &mut stake, 0, key(FARM_KEY), &crop_vault, &owner_reward, key(OWNER), t0);
    assert!(r.is_ok());

    let staker_reward_not_owned = token_account(24, REWARD_MINT, OUTSIDER, 0);
    let r = gather_rewards(&mut farm, &mut stake, 0, key(FARM_KEY), &crop_vault, &staker_reward_not_owned, key(STAKER), t0);
    assert_eq!(r, Err(FarmError::Unauthorized));
}

/// Debt re-baseline correctness: immediately after a deposit, a withdrawal
/// or a harvest, every slot's reward debt equals `amount_staked *
/// reward_per_token` exactly.
#[test]
fn debt_rebaseline_after_each_operation() {
    let t0: u64 = 1000;
    let mut farm = create_farm(key(OWNER), key(STAKE_MINT), key(STAKE_VAULT), t0);
    let crop_vault = token_account(CROP_VAULT, REWARD_MINT, OWNER, 0);
    let funder = token_account(20, REWARD_MINT, OWNER, 1000);
    add_crop(&mut farm, 0, 1000, 10, &crop_vault, &funder, key(OWNER), t0).unwrap();
    let mut stake = create_stake(&mut farm, key(FARM_KEY), key(STAKER), t0);
    let stake_vault = token_account(STAKE_VAULT, STAKE_MINT, OWNER, 0);
    let token = token_account(21, STAKE_MINT, STAKER, 100);

    stake_tokens(&mut farm, &mut stake, key(FARM_KEY), &stake_vault, &token, key(STAKER), 40, t0)
        .unwrap();
    for i in 0..SLOT_COUNT {
        assert_eq!(stake.slots[i].reward_debt, 40u128 * farm.crops[i].reward_per_token);
    }

    stake_tokens(&mut farm, &mut stake, key(FARM_KEY), &stake_vault, &token, key(STAKER), 10, t0 + 7)
        .unwrap();
    for i in 0..SLOT_COUNT {
        assert_eq!(stake.slots[i].reward_debt, 50u128 * farm.crops[i].reward_per_token);
    }

    unstake_tokens(&mut farm, &mut stake, key(FARM_KEY), &stake_vault, &token, key(STAKER), 20, t0 + 13)
        .unwrap();
    for i in 0..SLOT_COUNT {
        assert_eq!(stake.slots[i].reward_debt, 30u128 * farm.crops[i].reward_per_token);
    }

    let reward_to = token_account(22, REWARD_MINT, STAKER, 0);
    gather_rewards(&mut farm, &mut stake, 0, key(FARM_KEY), &crop_vault, &reward_to, key(STAKER), t0 + 21)
        .unwrap();
    for i in 0..SLOT_COUNT {
        assert_eq!(stake.slots[i].reward_debt, 30u128 * farm.crops[i].reward_per_token);
    }
}

/// Explicit re-baseline through the public entry point.
#[test]
fn update_reward_debt_rebaselines() {
    let t0: u64 = 1000;
    let mut farm = create_farm(key(OWNER), key(STAKE_MINT), key(STAKE_VAULT), t0);
    let crop_vault = token_account(CROP_VAULT, REWARD_MINT, OWNER, 0);
    let funder = token_account(20, REWARD_MINT, OWNER, 1000);
    add_crop(&mut farm, 1, 1000, 10, &crop_vault, &funder, key(OWNER), t0).unwrap();
    let mut stake = create_stake(&mut farm, key(FARM_KEY), key(STAKER), t0);
    let stake_vault = token_account(STAKE_VAULT, STAKE_MINT, OWNER, 0);
    let token = token_account(21, STAKE_MINT, STAKER, 100);
    stake_tokens(&mut farm, &mut stake, key(FARM_KEY), &stake_vault, &token, key(STAKER), 25, t0)
        .unwrap();

    // Disturb the debt, then re-baseline.
    stake.slots[1].reward_debt = 123;
    assert_eq!(update_reward_debt(&farm, &mut stake), Ok(()));
    for i in 0..SLOT_COUNT {
        assert_eq!(stake.slots[i].reward_debt, 25u128 * farm.crops[i].reward_per_token);
    }
}

/// Conservation on a concrete run: the farm's total always equals the sum of
/// the stakers' amounts.
#[test]
fn conservation_across_operations() {
    let t0: u64 = 1000;
    let mut farm = create_farm(key(OWNER), key(STAKE_MINT), key(STAKE_VAULT), t0);
    let stake_vault = token_account(STAKE_VAULT, STAKE_MINT, OWNER, 0);
    let mut stake_a = create_stake(&mut farm, key(FARM_KEY), key(STAKER), t0);
    let mut stake_b = create_stake(&mut farm, key(FARM_KEY), key(OUTSIDER), t0);
    let token_a = token_account(21, STAKE_MINT, STAKER, 100);
    let token_b = token_account(23, STAKE_MINT, OUTSIDER, 100);

    stake_tokens(&mut farm, &mut stake_a, key(FARM_KEY), &stake_vault, &token_a, key(STAKER), 30, t0)
        .unwrap();
    assert_eq!(farm.total_staked_amount, stake_a.amount_staked + stake_b.amount_staked);
    stake_tokens(&mut farm, &mut stake_b, key(FARM_KEY), &stake_vault, &token_b, key(OUTSIDER), 50, t0 + 1)
        .unwrap();
    assert_eq!(farm.total_staked_amount, stake_a.amount_staked + stake_b.amount_staked);
    unstake_tokens(&mut farm, &mut stake_a, key(FARM_KEY), &stake_vault, &token_a, key(STAKER), 12, t0 + 2)
        .unwrap();
    assert_eq!(farm.total_staked_amount, stake_a.amount_staked + stake_b.amount_staked);
    assert_eq!(farm.total_staked_amount, 68);
}

/// No double accrual on concrete values: a second harvest at the same time
/// pays nothing and leaves the accumulator unchanged.
#[test]
fn second_harvest_at_same_time_pays_zero() {
    let t0: u64 = 1000;
    let mut farm = create_farm(key(OWNER), key(STAKE_MINT), key(STAKE_VAULT), t0);
    let crop_vault = token_account(CROP_VAULT, REWARD_MINT, OWNER, 0);
    let funder = token_account(20, REWARD_MINT, OWNER, 1000);
    add_crop(&mut farm, 0, 1000, 10, &crop_vault, &funder, key(OWNER), t0).unwrap();
    let mut stake = create_stake(&mut farm, key(FARM_KEY), key(STAKER), t0);
    let stake_vault = token_account(STAKE_VAULT, STAKE_MINT, OWNER, 0);
    let token = token_account(21, STAKE_MINT, STAKER, 100);
    stake_tokens(&mut farm, &mut stake, key(FARM_KEY), &stake_vault, &token, key(STAKER), 50, t0)
        .unwrap();

    let reward_to = token_account(22, REWARD_MINT, STAKER, 0);
    let first = gather_rewards(&mut farm, &mut stake, 0, key(FARM_KEY), &crop_vault, &reward_to, key(STAKER), t0 + 30)
        .unwrap();
    assert_eq!(first.amount, 300);
    let rpt_after_first = farm.crops[0].reward_per_token;

    let second = gather_rewards(&mut farm, &mut stake, 0, key(FARM_KEY), &crop_vault, &reward_to, key(STAKER), t0 + 30)
        .unwrap();
    assert_eq!(second.amount, 0);
    assert_eq!(farm.crops[0].reward_per_token, rpt_after_first);
}

/// Monotonic reward-per-share on concrete values: the accumulator never
/// decreases as time advances over an active, staked crop.
#[test]
fn reward_per_share_never_decreases() {
    let t0: u64 = 1000;
    let mut farm = create_farm(key(OWNER), key(STAKE_MINT), key(STAKE_VAULT), t0);
    let crop_vault = token_account(CROP_VAULT, REWARD_MINT, OWNER, 0);
    let funder = token_account(20, REWARD_MINT, OWNER, 1000);
    add_crop(&mut farm, 0, 1000, 10, &crop_vault, &funder, key(OWNER), t0).unwrap();
    let mut stake = create_stake(&mut farm, key(FARM_KEY), key(STAKER), t0);
    let stake_vault = token_account(STAKE_VAULT, STAKE_MINT, OWNER, 0);
    let token = token_account(21, STAKE_MINT, STAKER, 100);
    stake_tokens(&mut farm, &mut stake, key(FARM_KEY), &stake_vault, &token, key(STAKER), 7, t0)
        .unwrap();

    let mut previous = farm.crops[0].reward_per_token;
    for step in 1..6u64 {
        stake_tokens(&mut farm, &mut stake, key(FARM_KEY), &stake_vault, &token, key(STAKER), 1, t0 + step * 13)
            .unwrap();
        assert!(farm.crops[0].reward_per_token >= previous);
        previous = farm.crops[0].reward_per_token;
    }
    // Past the end date the accumulator stays put.
    stake_tokens(&mut farm, &mut stake, key(FARM_KEY), &stake_vault, &token, key(STAKER), 1, t0 + 400)
        .unwrap();
    assert!(farm.crops[0].reward_per_token >= previous);
    let frozen = farm.crops[0].reward_per_token;
    stake_tokens(&mut farm, &mut stake, key(FARM_KEY), &stake_vault, &token, key(STAKER), 1, t0 + 500)
        .unwrap();
    assert_eq!(farm.crops[0].reward_per_token, frozen);
}

/// Retirement waits for every staker: harvesting to rest counts the staker
/// as finished, after which the crop can be retired.
#[test]
fn retirement_after_all_stakers_finish() {
    let t0: u64 = 1000;
    let mut farm = create_farm(key(OWNER), key(STAKE_MINT), key(STAKE_VAULT), t0);
    let crop_vault = token_account(CROP_VAULT, REWARD_MINT, OWNER, 200);
    let funder = token_account(20, REWARD_MINT, OWNER, 1000);
    add_crop(&mut farm, 0, 1000, 10, &crop_vault, &funder, key(OWNER), t0).unwrap();
    let mut stake = create_stake(&mut farm, key(FARM_KEY), key(STAKER), t0);
    let stake_vault = token_account(STAKE_VAULT, STAKE_MINT, OWNER, 0);
    let token = token_account(21, STAKE_MINT, STAKER, 100);
    stake_tokens(&mut farm, &mut stake, key(FARM_KEY), &stake_vault, &token, key(STAKER), 50, t0)
        .unwrap();

    // Still staked: the harvest settles but does not finish the position.
    let reward_to = token_account(22, REWARD_MINT, STAKER, 0);
    gather_rewards(&mut farm, &mut stake, 0, key(FARM_KEY), &crop_vault, &reward_to, key(STAKER), t0 + 150)
        .unwrap();
    assert_eq!(farm.crops[0].stakers_finished, 0);
    let r = remove_crop(&mut farm, 0, &crop_vault, &funder, key(OWNER), t0 + 150);
    assert_eq!(r, Err(FarmError::SettlementIncomplete));

    // Withdraw everything, then harvest to rest.
    unstake_tokens(&mut farm, &mut stake, key(FARM_KEY), &stake_vault, &token, key(STAKER), 50, t0 + 150)
        .unwrap();
    gather_rewards(&mut farm, &mut stake, 0, key(FARM_KEY), &crop_vault, &reward_to, key(STAKER), t0 + 151)
        .unwrap();
    assert!(stake.slots[0].finished);
    assert_eq!(farm.crops[0].stakers_finished, 1);

    let sweep = remove_crop(&mut farm, 0, &crop_vault, &funder, key(OWNER), t0 + 151).unwrap();
    assert_eq!(sweep.amount, 200);
    assert_eq!(farm.crops[0].created_at, 0);
}

/// The farm keeps one shared `last_updated_at` across all crop slots and
/// advances it inside the per-slot loop, so a slot processed after another
/// live slot in the same pass sees the already-advanced timestamp and
/// accrues nothing for the skipped interval. This couples concurrent crops
/// to the first live slot; the engine reproduces that behavior exactly.
#[test]
fn shared_timestamp_couples_concurrent_crops() {
    let t0: u64 = 1000;
    let mut farm = create_farm(key(OWNER), key(STAKE_MINT), key(STAKE_VAULT), t0);
    let crop_vault_0 = token_account(CROP_VAULT, REWARD_MINT, OWNER, 0);
    let crop_vault_1 = token_account(25, REWARD_MINT, OWNER, 0);
    let funder = token_account(20, REWARD_MINT, OWNER, 2000);
    add_crop(&mut farm, 0, 1000, 10, &crop_vault_0, &funder, key(OWNER), t0).unwrap();
    add_crop(&mut farm, 1, 500, 10, &crop_vault_1, &funder, key(OWNER), t0).unwrap();

    let mut stake = create_stake(&mut farm, key(FARM_KEY), key(STAKER), t0);
    let stake_vault = token_account(STAKE_VAULT, STAKE_MINT, OWNER, 0);
    let token = token_account(21, STAKE_MINT, STAKER, 100);
    stake_tokens(&mut farm, &mut stake, key(FARM_KEY), &stake_vault, &token, key(STAKER), 100, t0)
        .unwrap();

    let reward_to = token_account(22, REWARD_MINT, STAKER, 0);
    // Slot 0 advances the shared timestamp to t0+40 first; slot 1 then sees
    // zero elapsed time in the same pass and accrues nothing.
    let pay0 = gather_rewards(&mut farm, &mut stake, 0, key(FARM_KEY), &crop_vault_0, &reward_to, key(STAKER), t0 + 40)
        .unwrap();
    assert_eq!(pay0.amount, 400);
    assert_eq!(farm.crops[1].reward_per_token, 0);
    let pay1 = gather_rewards(&mut farm, &mut stake, 1, key(FARM_KEY), &crop_vault_1, &reward_to, key(STAKER), t0 + 40)
        .unwrap();
    assert_eq!(pay1.amount, 0);
}

/// A retired slot can be funded again: the settlement guard only passes once
/// every position is at rest, which leaves all debts for the slot at zero.
#[test]
fn crop_slot_reuse_after_retirement() {
    let t0: u64 = 1000;
    let mut farm = create_farm(key(OWNER), key(STAKE_MINT), key(STAKE_VAULT), t0);
    let crop_vault = token_account(CROP_VAULT, REWARD_MINT, OWNER, 1000);
    let funder = token_account(20, REWARD_MINT, OWNER, 2000);
    add_crop(&mut farm, 0, 1000, 10, &crop_vault, &funder, key(OWNER), t0).unwrap();
    remove_crop(&mut farm, 0, &crop_vault, &funder, key(OWNER), t0 + 101).unwrap();

    add_crop(&mut farm, 0, 500, 5, &crop_vault, &funder, key(OWNER), t0 + 200).unwrap();
    assert_eq!(farm.crops[0].created_at, t0 + 200);
    assert_eq!(farm.crops[0].end_date, t0 + 300);
    assert_eq!(farm.crops[0].reward_per_token, 0);

    let mut stake = create_stake(&mut farm, key(FARM_KEY), key(STAKER), t0 + 200);
    let stake_vault = token_account(STAKE_VAULT, STAKE_MINT, OWNER, 0);
    let token = token_account(21, STAKE_MINT, STAKER, 100);
    stake_tokens(&mut farm, &mut stake, key(FARM_KEY), &stake_vault, &token, key(STAKER), 10, t0 + 200)
        .unwrap();
    let reward_to = token_account(22, REWARD_MINT, STAKER, 0);
    let pay = gather_rewards(&mut farm, &mut stake, 0, key(FARM_KEY), &crop_vault, &reward_to, key(STAKER), t0 + 250)
        .unwrap();
    assert_eq!(pay.amount, 250);
}

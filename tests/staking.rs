use staking::accrual::{calculate_claimable_rewards, calculate_daily_reward};
use staking::address::{derive_stake_address, u64_le_bytes};
use staking::claim::{calculate_total_rewards_for_claim_all, claim_all, get_total_claimable_rewards, StakeAccount};
use staking::lifecycle::{
    calculate_unstake_penalty, check_deposit, check_stake, check_withdrawal, claim, close_program, initialize, penalty_rate, stake,
    unstake, update_daily_rate_at_index, update_normalization_k,
};
use staking::pool::{get_available_rewards, update_daily_rate};
use staking::schedule::{
    calculate_base_apy, get_day_index, get_months_elapsed, get_week_number, unlocked_rewards, MAX_DAILY_RATES,
    TOTAL_REWARD_POOL,
};
use staking::state::{Address, StakeEntry, StakingPool, UserStakingAccount};
use staking::StakingError;

const T0: i64 = 1_700_000_000;
const DAY: i64 = 86_400;

fn addr(b: u8) -> Address {
    Address::new([b; 32])
}

fn new_pool() -> StakingPool {
    initialize(addr(1), addr(2), addr(3), T0 + 400 * DAY, T0).unwrap()
}

fn empty_summary() -> UserStakingAccount {
    UserStakingAccount { owner: Address::zero(), stake_count: 0, total_staked: 0, total_claimed: 0 }
}

/// Makes `user`'s next stake of `amount` for `months` at `now`.
fn deposit(pool: &mut StakingPool, acct: &mut UserStakingAccount, user: &Address, amount: u64, months: u8, now: i64) -> StakeEntry {
    let index = if acct.owner == Address::zero() { 0 } else { acct.stake_count };
    let key = derive_stake_address(user, &addr(9), index, &addr(8)).unwrap();
    stake(pool, acct, user, &addr(9), &addr(8), &key, amount, 500, 500 + amount, months, now).unwrap()
}

#[test]
fn months_elapsed_counts_thirty_day_months() {
    assert_eq!(get_months_elapsed(T0, T0), Ok(0));
    assert_eq!(get_months_elapsed(T0, T0 + 30 * DAY - 1), Ok(0));
    assert_eq!(get_months_elapsed(T0, T0 + 30 * DAY), Ok(1));
    assert_eq!(get_months_elapsed(T0, T0 - 1), Err(StakingError::Underflow));
}

#[test]
fn week_number_counts_whole_weeks() {
    assert_eq!(get_week_number(T0, T0), Ok(0));
    assert_eq!(get_week_number(T0 + 7 * DAY - 1, T0), Ok(0));
    assert_eq!(get_week_number(T0 + 7 * DAY, T0), Ok(1));
    assert_eq!(get_week_number(T0 + 13 * DAY, T0), Ok(1));
    assert_eq!(get_week_number(T0 + 14 * DAY, T0), Ok(2));
    assert_eq!(get_week_number(i64::MAX, i64::MIN), Ok(30_500_568_904_943));
    assert_eq!(get_week_number(T0 - 1, T0), Err(StakingError::Underflow));
}

#[test]
fn day_index_is_bounded_by_the_table() {
    assert_eq!(get_day_index(T0 + 369 * DAY, T0), Ok(369));
    assert_eq!(get_day_index(T0 + 370 * DAY, T0), Err(StakingError::DayIndexOutOfBounds));
    assert_eq!(get_day_index(T0 - DAY, T0), Err(StakingError::Underflow));
}

#[test]
fn release_schedule_steps_and_caps() {
    assert_eq!(unlocked_rewards(0), 20_833_333_000_000_000);
    assert_eq!(unlocked_rewards(5), 125_000_000_000_000_000);
    assert_eq!(unlocked_rewards(10), 229_166_667_000_000_000);
    assert_eq!(unlocked_rewards(11), TOTAL_REWARD_POOL);
    assert_eq!(unlocked_rewards(1000), TOTAL_REWARD_POOL);
}

#[test]
fn base_apy_formula() {
    assert_eq!(calculate_base_apy(1_000_000_000, 20_833_333_000_000_000), Ok(208_333_320_000));
    assert_eq!(calculate_base_apy(1, 20_833_333_000_000_000), Err(StakingError::Overflow));
    assert_eq!(calculate_base_apy(0, 7), Ok(70_000));
    assert_eq!(calculate_base_apy(u64::MAX, 7), Ok(0));
    assert_eq!(calculate_base_apy(u64::MAX - 1, u64::MAX), Ok(10_000));
    assert_eq!(calculate_base_apy(0, 1_844_674_407_370_955), Ok(18_446_744_073_709_550_000));
    assert_eq!(calculate_base_apy(0, 1_844_674_407_370_956), Err(StakingError::Overflow));
}

#[test]
fn available_rewards_of_pool() {
    let mut pool = new_pool();
    assert_eq!(get_available_rewards(&pool, T0), Ok(20_833_333_000_000_000));
    assert_eq!(get_available_rewards(&pool, T0 + 400 * DAY), Ok(TOTAL_REWARD_POOL));
    pool.total_rewards_distributed = 833_333_000_000_000;
    assert_eq!(get_available_rewards(&pool, T0), Ok(20_000_000_000_000_000));
    assert_eq!(get_available_rewards(&pool, T0 - 1), Err(StakingError::Underflow));
    pool.total_rewards_distributed = 20_833_333_000_000_001;
    assert_eq!(get_available_rewards(&pool, T0), Err(StakingError::Underflow));
}

#[test]
fn available_rewards_non_increasing_in_distributed() {
    let mut pool = new_pool();
    let mut last = get_available_rewards(&pool, T0 + 45 * DAY).unwrap();
    for paid in [1u64, 1_000, 1_000_000_000, 41_666_667_000_000_000] {
        pool.total_rewards_distributed = paid;
        let now = get_available_rewards(&pool, T0 + 45 * DAY).unwrap();
        assert!(now <= last);
        last = now;
    }
    assert_eq!(last, 0);
}

#[test]
fn initialize_sets_day_zero_rate() {
    let pool = new_pool();
    assert_eq!(pool.daily_rates.len(), MAX_DAILY_RATES);
    assert_eq!(pool.daily_rates[0], u64::MAX);
    assert!(pool.daily_rates[1..].iter().all(|r| *r == 0));
    assert_eq!(pool.normalization_k, 250);
    assert_eq!(pool.program_start_time, T0);
    assert_eq!(pool.total_staked, 0);
}

#[test]
fn daily_reward_tiers_and_cap() {
    assert_eq!(calculate_daily_reward(1_000_000_000, 1_000, 3, 250), Ok(11_111));
    assert_eq!(calculate_daily_reward(1_000_000_000, 1_000, 6, 250), Ok(16_666));
    assert_eq!(calculate_daily_reward(1_000_000_000, 1_000, 9, 250), Ok(22_222));
    assert_eq!(calculate_daily_reward(1_000_000_000, 1_000, 12, 250), Ok(33_333));
    assert_eq!(calculate_daily_reward(1_000_000_000, 25_000_000, 3, 250), Ok(277_777_777));
    assert_eq!(calculate_daily_reward(1_000_000_000, u64::MAX, 12, 1), Ok(277_777_777));
    assert_eq!(calculate_daily_reward(1_000_000_000, 0, 3, 250), Ok(0));
}

#[test]
fn daily_reward_errors() {
    assert_eq!(calculate_daily_reward(1, 1, 4, 250), Err(StakingError::InvalidDuration));
    assert_eq!(calculate_daily_reward(1, 1, 3, 0), Err(StakingError::DivisionByZero));
}

#[test]
fn update_daily_rate_writes_today() {
    let mut pool = new_pool();
    pool.total_staked = 1_000_000_000;
    update_daily_rate(&mut pool, T0 + 3 * DAY + 5).unwrap();
    assert_eq!(pool.daily_rates[3], 208_333_320_000);
    assert_eq!(pool.last_update_time, T0 + 3 * DAY + 5);
    assert_eq!(update_daily_rate(&mut pool, T0 + 370 * DAY), Err(StakingError::DayIndexOutOfBounds));
    assert_eq!(pool.last_update_time, T0 + 3 * DAY + 5);
}

#[test]
fn update_daily_rate_extends_short_table() {
    let mut pool = new_pool();
    pool.daily_rates.truncate(2);
    pool.total_staked = 1_000_000_000;
    update_daily_rate(&mut pool, T0 + 5 * DAY).unwrap();
    assert_eq!(pool.daily_rates.len(), 6);
    assert_eq!(&pool.daily_rates[2..5], &[0, 0, 0]);
    assert_eq!(pool.daily_rates[5], 208_333_320_000);
}

#[test]
fn update_daily_rate_is_idempotent() {
    let mut pool = new_pool();
    pool.total_staked = 5_000;
    update_daily_rate(&mut pool, T0 + 2 * DAY).unwrap();
    let once = pool.daily_rates.clone();
    update_daily_rate(&mut pool, T0 + 2 * DAY).unwrap();
    assert_eq!(pool.daily_rates, once);
}

#[test]
fn stake_address_derivation_is_deterministic_and_indexed() {
    let a0 = derive_stake_address(&addr(4), &addr(9), 0, &addr(8)).unwrap();
    let again = derive_stake_address(&addr(4), &addr(9), 0, &addr(8)).unwrap();
    let a1 = derive_stake_address(&addr(4), &addr(9), 1, &addr(8)).unwrap();
    let other = derive_stake_address(&addr(5), &addr(9), 0, &addr(8)).unwrap();
    assert!(a0 == again);
    assert!(!(a0 == a1));
    assert!(!(a0 == other));
    assert!(!(a0 == addr(4)));
}

#[test]
fn little_endian_index_bytes() {
    assert_eq!(u64_le_bytes(0x0102_0304_0506_0708), vec![8, 7, 6, 5, 4, 3, 2, 1]);
    assert_eq!(u64_le_bytes(0), vec![0; 8]);
}

#[test]
fn transfer_checks_compare_balance_change_with_request() {
    assert_eq!(check_deposit(150, 100, 250), Ok(()));
    assert_eq!(check_deposit(150, 100, 249), Err(StakingError::TransferMismatch));
    assert_eq!(check_deposit(0, 250, 100), Err(StakingError::TransferMismatch));
    assert_eq!(check_withdrawal(150, 250, 100), Ok(()));
    assert_eq!(check_withdrawal(150, 250, 101), Err(StakingError::TransferMismatch));
    assert_eq!(check_withdrawal(0, 100, 250), Err(StakingError::TransferMismatch));
}

#[test]
fn stake_rejects_short_transfer() {
    let mut pool = new_pool();
    let mut acct = empty_summary();
    let user = addr(4);
    let key = derive_stake_address(&user, &addr(9), 0, &addr(8)).unwrap();
    let r = stake(&mut pool, &mut acct, &user, &addr(9), &addr(8), &key, 1_000, 0, 999, 3, T0);
    assert_eq!(r.map(|e| e.amount), Err(StakingError::TransferMismatch));
    assert_eq!(pool.total_staked, 0);
    assert_eq!(acct.stake_count, 0);
}

#[test]
fn stake_rejects_all_zero_user() {
    let mut pool = new_pool();
    let mut acct = empty_summary();
    let user = Address::zero();
    let key = derive_stake_address(&user, &addr(9), 0, &addr(8)).unwrap();
    let r = stake(&mut pool, &mut acct, &user, &addr(9), &addr(8), &key, 1_000, 0, 1_000, 3, T0);
    assert_eq!(r.map(|e| e.amount), Err(StakingError::Unauthorized));
}

#[test]
fn rate_refresh_on_a_nearly_empty_pool_overflows() {
    let mut pool = new_pool();
    pool.total_staked = 10;
    assert_eq!(update_daily_rate(&mut pool, T0 + DAY), Err(StakingError::Overflow));
    assert_eq!(pool.daily_rates[1], 0);
    pool.total_staked = 12;
    assert_eq!(update_daily_rate(&mut pool, T0 + DAY), Ok(()));
    assert_eq!(pool.daily_rates[1], 16_025_640_769_230_760_000);
}

#[test]
fn check_stake_rejects_bad_duration() {
    let pool = new_pool();
    assert_eq!(check_stake(&pool, 4, T0), Err(StakingError::InvalidDuration));
    assert_eq!(check_stake(&pool, 12, T0), Ok(()));
}

#[test]
fn check_stake_rejects_exhausted_pool() {
    let mut pool = new_pool();
    pool.total_rewards_distributed = 20_833_333_000_000_000;
    assert_eq!(check_stake(&pool, 3, T0), Err(StakingError::RewardPoolExhausted));
}

#[test]
fn stake_creates_position_and_updates_totals() {
    let mut pool = new_pool();
    let mut acct = empty_summary();
    let user = addr(4);
    let entry = deposit(&mut pool, &mut acct, &user, 1_000_000_000, 3, T0);
    assert!(entry.owner == user);
    assert_eq!(entry.stake_index, 0);
    assert_eq!(entry.amount, 1_000_000_000);
    assert_eq!(entry.last_claim_week, 0);
    assert!(entry.is_active);
    assert_eq!(entry.total_claimed, 0);
    assert!(acct.owner == user);
    assert_eq!(acct.stake_count, 1);
    assert_eq!(acct.total_staked, 1_000_000_000);
    assert_eq!(pool.total_staked, 1_000_000_000);
    assert_eq!(pool.daily_rates[0], 208_333_320_000);
}

#[test]
fn two_deposits_get_indices_zero_and_one() {
    let mut pool = new_pool();
    let mut acct = empty_summary();
    let user = addr(4);
    let first = deposit(&mut pool, &mut acct, &user, 1_000, 3, T0);
    let second = deposit(&mut pool, &mut acct, &user, 2_000, 6, T0 + DAY);
    assert_eq!(first.stake_index, 0);
    assert_eq!(second.stake_index, 1);
    assert_eq!(acct.stake_count, 2);
    assert_eq!(acct.total_staked, 3_000);
    assert_eq!(pool.total_staked, 3_000);
}

#[test]
fn stake_rejects_wrong_record_address() {
    let mut pool = new_pool();
    let mut acct = empty_summary();
    let user = addr(4);
    let wrong = derive_stake_address(&user, &addr(9), 1, &addr(8)).unwrap();
    let before = pool.clone();
    let r = stake(&mut pool, &mut acct, &user, &addr(9), &addr(8), &wrong, 10, 0, 10, 3, T0);
    assert_eq!(r.map(|e| e.amount), Err(StakingError::InvalidStakeIndex));
    assert_eq!(acct.stake_count, 0);
    assert_eq!(pool.total_staked, before.total_staked);
    assert_eq!(pool.daily_rates, before.daily_rates);
}

#[test]
fn stake_after_rate_horizon_fails_and_changes_nothing() {
    let mut pool = new_pool();
    let mut acct = empty_summary();
    let user = addr(4);
    let key = derive_stake_address(&user, &addr(9), 0, &addr(8)).unwrap();
    let r = stake(&mut pool, &mut acct, &user, &addr(9), &addr(8), &key, 10, 0, 10, 3, T0 + 371 * DAY);
    assert_eq!(r.map(|e| e.amount), Err(StakingError::DayIndexOutOfBounds));
    assert_eq!(pool.total_staked, 0);
    assert_eq!(acct.stake_count, 0);
}

#[test]
fn claim_after_two_weeks_pays_fourteen_days() {
    let mut pool = new_pool();
    let mut acct = empty_summary();
    let user = addr(4);
    let mut entry = deposit(&mut pool, &mut acct, &user, 1_000_000_000, 3, T0);
    assert_eq!(calculate_claimable_rewards(&entry, &pool, T0 + 14 * DAY, false), Ok(3_888_888_878));
    let paid = claim(&mut pool, &mut acct, &mut entry, &user, T0 + 14 * DAY).unwrap();
    assert_eq!(paid, 3_888_888_878);
    assert_eq!(entry.last_claim_week, 2);
    assert_eq!(entry.total_claimed, 3_888_888_878);
    assert_eq!(acct.total_claimed, 3_888_888_878);
    assert_eq!(pool.total_rewards_distributed, 3_888_888_878);
}

#[test]
fn claim_mid_week_does_not_pay_the_current_week() {
    let mut pool = new_pool();
    let mut acct = empty_summary();
    let user = addr(4);
    let mut entry = deposit(&mut pool, &mut acct, &user, 1_000_000_000, 3, T0);
    let paid = claim(&mut pool, &mut acct, &mut entry, &user, T0 + 17 * DAY).unwrap();
    assert_eq!(paid, 3_888_888_878);
    assert_eq!(entry.last_claim_week, 2);
    assert_eq!(claim(&mut pool, &mut acct, &mut entry, &user, T0 + 18 * DAY), Ok(0));
    assert_eq!(entry.last_claim_week, 2);
    assert_eq!(entry.total_claimed, 3_888_888_878);
}

#[test]
fn claim_in_the_middle_of_a_day_pays_whole_weeks_only() {
    let mut pool = new_pool();
    let mut acct = empty_summary();
    let user = addr(4);
    let mut entry = deposit(&mut pool, &mut acct, &user, 1_000_000_000, 3, T0);
    let paid = claim(&mut pool, &mut acct, &mut entry, &user, T0 + 13 * DAY + DAY / 2).unwrap();
    assert_eq!(paid, 7 * 277_777_777);
    assert_eq!(entry.last_claim_week, 1);
    assert_eq!(claim(&mut pool, &mut acct, &mut entry, &user, T0 + 13 * DAY + DAY / 2), Ok(0));
}

#[test]
fn claimable_when_unstaking_stops_a_week_short() {
    let mut pool = new_pool();
    let mut acct = empty_summary();
    let user = addr(4);
    let entry = deposit(&mut pool, &mut acct, &user, 1_000_000_000, 3, T0);
    assert_eq!(calculate_claimable_rewards(&entry, &pool, T0 + 14 * DAY, true), Ok(1_944_444_439));
    assert_eq!(calculate_claimable_rewards(&entry, &pool, T0 + 3 * DAY, true), Ok(0));
    assert_eq!(calculate_claimable_rewards(&entry, &pool, T0 - 1, false), Err(StakingError::Underflow));
}

#[test]
fn claimable_carries_forward_last_nonzero_rate() {
    let mut pool = new_pool();
    for r in pool.daily_rates.iter_mut() {
        *r = 0;
    }
    pool.daily_rates[1] = 1_000;
    pool.daily_rates[3] = 2_000;
    let entry = StakeEntry {
        owner: addr(4),
        stake_index: 0,
        amount: 1_000_000_000,
        start_time: T0,
        duration_months: 3,
        last_claim_time: T0,
        last_claim_week: 0,
        is_active: true,
        total_claimed: 0,
    };
    // day 0: rate 0; days 1-2: 1000; days 3-6: 2000.
    assert_eq!(calculate_claimable_rewards(&entry, &pool, T0 + 7 * DAY, false), Ok(2 * 11_111 + 4 * 22_222));
    assert_eq!(calculate_claimable_rewards(&entry, &pool, T0 + 7 * DAY - 1, false), Ok(0));
}

#[test]
fn claim_rejects_other_user_and_inactive_stake() {
    let mut pool = new_pool();
    let mut acct = empty_summary();
    let user = addr(4);
    let mut entry = deposit(&mut pool, &mut acct, &user, 1_000, 3, T0);
    assert_eq!(claim(&mut pool, &mut acct, &mut entry, &addr(5), T0 + 7 * DAY), Err(StakingError::Unauthorized));
    entry.is_active = false;
    assert_eq!(claim(&mut pool, &mut acct, &mut entry, &user, T0 + 7 * DAY), Err(StakingError::StakeNotActive));
}

#[test]
fn penalty_at_day_five_of_three_months() {
    assert_eq!(penalty_rate(3, 5), 18);
    assert_eq!(calculate_unstake_penalty(1_000_000_000, 3, T0, T0 + 5 * DAY), Ok((180_000_000, 820_000_000)));
}

#[test]
fn penalty_decays_to_zero() {
    assert_eq!(penalty_rate(3, 0), 20);
    assert_eq!(penalty_rate(3, 45), 10);
    assert_eq!(penalty_rate(3, 89), 0);
    assert_eq!(penalty_rate(3, 90), 0);
    assert_eq!(penalty_rate(12, 0), 20);
    let mut last = 20;
    for d in 0..400 {
        let r = penalty_rate(6, d);
        assert!(r <= last);
        last = r;
    }
    assert_eq!(calculate_unstake_penalty(1_000, 3, T0, T0 + 90 * DAY), Ok((0, 1_000)));
    assert_eq!(calculate_unstake_penalty(1_000, 3, T0, T0 - 1), Err(StakingError::Underflow));
    assert_eq!(calculate_unstake_penalty(u64::MAX, 3, T0, T0), Err(StakingError::Overflow));
}

#[test]
fn penalty_plus_payout_is_principal() {
    for amount in [1u64, 7, 999, 1_000_000_007] {
        for day in [0i64, 1, 5, 44, 89, 120] {
            let (p, u) = calculate_unstake_penalty(amount, 9, T0, T0 + day * DAY).unwrap();
            assert_eq!(p + u, amount);
        }
    }
}

#[test]
fn unstake_at_day_five_applies_eighteen_percent() {
    let mut pool = new_pool();
    let mut other = empty_summary();
    deposit(&mut pool, &mut other, &addr(6), 1_000_000_000, 3, T0);
    let mut acct = empty_summary();
    let user = addr(4);
    let mut entry = deposit(&mut pool, &mut acct, &user, 1_000_000_000, 3, T0);
    let out = unstake(&mut pool, &mut acct, &mut entry, &user, T0 + 5 * DAY).unwrap();
    assert_eq!(out.penalty_amount, 180_000_000);
    assert_eq!(out.user_receive_amount, 820_000_000);
    assert_eq!(out.rewards, 0);
    assert!(!entry.is_active);
    assert_eq!(pool.total_staked, 1_000_000_000);
    assert_eq!(acct.total_staked, 0);
    assert_eq!(unstake(&mut pool, &mut acct, &mut entry, &user, T0 + 6 * DAY), Err(StakingError::StakeNotActive));
}

#[test]
fn unstake_pays_rewards_up_to_previous_week() {
    let mut pool = new_pool();
    let mut other = empty_summary();
    deposit(&mut pool, &mut other, &addr(6), 1_000_000_000, 3, T0);
    let mut acct = empty_summary();
    let user = addr(4);
    let mut entry = deposit(&mut pool, &mut acct, &user, 1_000_000_000, 3, T0);
    let out = unstake(&mut pool, &mut acct, &mut entry, &user, T0 + 14 * DAY).unwrap();
    assert_eq!(out.rewards, 1_944_444_439);
    assert_eq!(entry.total_claimed, 1_944_444_439);
    assert_eq!(acct.total_claimed, 1_944_444_439);
    assert_eq!(pool.total_rewards_distributed, 1_944_444_439);
    assert_eq!(penalty_rate(3, 14), 16);
    assert_eq!(out.penalty_amount, 160_000_000);
}

#[test]
fn unstaking_the_only_stake_early_fails_on_the_rate_refresh() {
    let mut pool = new_pool();
    let mut acct = empty_summary();
    let user = addr(4);
    let mut entry = deposit(&mut pool, &mut acct, &user, 1_000_000_000, 3, T0);
    let r = unstake(&mut pool, &mut acct, &mut entry, &user, T0 + 5 * DAY);
    assert_eq!(r.map(|o| o.rewards), Err(StakingError::Overflow));
    assert!(entry.is_active);
    assert_eq!(pool.total_staked, 1_000_000_000);
}

#[test]
fn unstake_by_other_user_is_unauthorized() {
    let mut pool = new_pool();
    let mut acct = empty_summary();
    let mut entry = deposit(&mut pool, &mut acct, &addr(4), 1_000, 3, T0);
    assert_eq!(unstake(&mut pool, &mut acct, &mut entry, &addr(5), T0 + DAY), Err(StakingError::Unauthorized));
    assert!(entry.is_active);
}

fn two_stake_batch() -> (StakingPool, UserStakingAccount, Vec<StakeAccount>) {
    let mut pool = new_pool();
    let mut acct = empty_summary();
    let user = addr(4);
    let e0 = deposit(&mut pool, &mut acct, &user, 1_000_000_000, 3, T0);
    let e1 = deposit(&mut pool, &mut acct, &user, 1_000_000_000, 12, T0);
    let k0 = derive_stake_address(&user, &addr(9), 0, &addr(8)).unwrap();
    let k1 = derive_stake_address(&user, &addr(9), 1, &addr(8)).unwrap();
    (pool, acct, vec![StakeAccount { index: 0, key: k0, entry: e0 }, StakeAccount { index: 1, key: k1, entry: e1 }])
}

#[test]
fn claim_all_total_is_sum_of_claimables() {
    let (mut pool, mut acct, mut accounts) = two_stake_batch();
    let now = T0 + 14 * DAY;
    let c0 = calculate_claimable_rewards(&accounts[0].entry, &pool, now, false).unwrap();
    let c1 = calculate_claimable_rewards(&accounts[1].entry, &pool, now, false).unwrap();
    assert!(c0 > 0 && c1 > 0);
    let (total, idx) = calculate_total_rewards_for_claim_all(&accounts, &addr(4), &pool, &addr(9), &addr(8), now).unwrap();
    assert_eq!(total, c0 + c1);
    assert_eq!(idx, vec![0, 1]);
    assert_eq!(get_total_claimable_rewards(&accounts, &addr(4), &pool, &addr(9), &addr(8), now), Ok(c0 + c1));
    let (paid, count) = claim_all(&mut pool, &mut acct, &mut accounts, &addr(4), &addr(9), &addr(8), now).unwrap();
    assert_eq!(paid, c0 + c1);
    assert_eq!(count, 2);
    assert_eq!(accounts[0].entry.total_claimed, c0);
    assert_eq!(accounts[1].entry.total_claimed, c1);
    assert_eq!(accounts[0].entry.last_claim_week, 2);
    assert_eq!(acct.total_claimed, c0 + c1);
    assert_eq!(pool.total_rewards_distributed, c0 + c1);
}

#[test]
fn claim_all_skips_inactive_and_fails_when_nothing_to_claim() {
    let (mut pool, mut acct, mut accounts) = two_stake_batch();
    accounts[1].entry.is_active = false;
    let now = T0 + 14 * DAY;
    let c0 = calculate_claimable_rewards(&accounts[0].entry, &pool, now, false).unwrap();
    let (paid, count) = claim_all(&mut pool, &mut acct, &mut accounts, &addr(4), &addr(9), &addr(8), now).unwrap();
    assert_eq!((paid, count), (c0, 1));
    assert_eq!(accounts[1].entry.total_claimed, 0);
    let r = claim_all(&mut pool, &mut acct, &mut accounts, &addr(4), &addr(9), &addr(8), now + DAY);
    assert_eq!(r, Err(StakingError::NoRewardsAvailable));
}

#[test]
fn claim_all_rejects_misplaced_record() {
    let (mut pool, mut acct, mut accounts) = two_stake_batch();
    accounts.swap(0, 1);
    let r = claim_all(&mut pool, &mut acct, &mut accounts, &addr(4), &addr(9), &addr(8), T0 + 14 * DAY);
    assert_eq!(r, Err(StakingError::InvalidStakeIndex));
    assert_eq!(pool.total_rewards_distributed, 0);
    assert_eq!(accounts[0].entry.total_claimed, 0);
}

#[test]
fn claim_all_rejects_repeated_record() {
    let (mut pool, mut acct, mut accounts) = two_stake_batch();
    accounts[1] = accounts[0];
    let r = claim_all(&mut pool, &mut acct, &mut accounts, &addr(4), &addr(9), &addr(8), T0 + 14 * DAY);
    assert_eq!(r, Err(StakingError::InvalidStakeIndex));
}

#[test]
fn claim_all_rejects_record_at_wrong_address() {
    let (mut pool, mut acct, mut accounts) = two_stake_batch();
    accounts[1].key = addr(3);
    let r = claim_all(&mut pool, &mut acct, &mut accounts, &addr(4), &addr(9), &addr(8), T0 + 14 * DAY);
    assert_eq!(r, Err(StakingError::InvalidStakeIndex));
}

#[test]
fn claim_all_accepts_a_subset_of_stakes() {
    let (mut pool, mut acct, accounts) = two_stake_batch();
    let now = T0 + 14 * DAY;
    let c1 = calculate_claimable_rewards(&accounts[1].entry, &pool, now, false).unwrap();
    let mut only_second = vec![accounts[1]];
    let r = claim_all(&mut pool, &mut acct, &mut only_second, &addr(4), &addr(9), &addr(8), now);
    assert_eq!(r, Ok((c1, 1)));
    assert_eq!(only_second[0].entry.total_claimed, c1);
}

#[test]
fn claim_all_twice_at_the_same_time_pays_once() {
    let (mut pool, mut acct, mut accounts) = two_stake_batch();
    let now = T0 + 14 * DAY + 3_600;
    assert!(claim_all(&mut pool, &mut acct, &mut accounts, &addr(4), &addr(9), &addr(8), now).is_ok());
    let r = claim_all(&mut pool, &mut acct, &mut accounts, &addr(4), &addr(9), &addr(8), now);
    assert_eq!(r, Err(StakingError::NoRewardsAvailable));
}

#[test]
fn claim_all_rejects_foreign_record() {
    let (pool, _acct, mut accounts) = two_stake_batch();
    accounts[0].entry.owner = addr(5);
    let r = calculate_total_rewards_for_claim_all(&accounts, &addr(4), &pool, &addr(9), &addr(8), T0 + 14 * DAY);
    assert_eq!(r, Err(StakingError::Unauthorized));
}

#[test]
fn close_program_waits_for_end_date() {
    let pool = new_pool();
    assert_eq!(close_program(&pool, &addr(1), T0 + DAY), Err(StakingError::ProgramNotEnded));
    assert_eq!(close_program(&pool, &addr(1), T0 + 400 * DAY), Ok(()));
    assert_eq!(close_program(&pool, &addr(7), T0 + 400 * DAY), Err(StakingError::Unauthorized));
}

#[test]
fn normalization_k_zero_is_rejected() {
    let mut pool = new_pool();
    let rates = pool.daily_rates.clone();
    assert_eq!(update_normalization_k(&mut pool, &addr(1), 0, T0 + DAY), Err(StakingError::InvalidNormalizationK));
    assert_eq!(pool.normalization_k, 250);
    assert_eq!(pool.daily_rates, rates);
}

#[test]
fn normalization_k_update() {
    let mut pool = new_pool();
    pool.total_staked = 1_000_000_000;
    assert_eq!(update_normalization_k(&mut pool, &addr(7), 500, T0 + DAY), Err(StakingError::Unauthorized));
    assert_eq!(update_normalization_k(&mut pool, &addr(1), 500, T0 + DAY), Ok(()));
    assert_eq!(pool.normalization_k, 500);
    assert_eq!(pool.last_update_time, T0 + DAY);
    assert_eq!(pool.daily_rates[1], 208_333_320_000);
}

#[test]
fn daily_rate_override() {
    let mut pool = new_pool();
    pool.total_staked = 1_000_000_000;
    assert_eq!(update_daily_rate_at_index(&mut pool, &addr(1), 3, 42, T0 + 5 * DAY), Ok(()));
    assert_eq!(pool.daily_rates[5], 208_333_320_000);
    assert_eq!(pool.daily_rates[3], 42);
    assert_eq!(update_daily_rate_at_index(&mut pool, &addr(1), 370, 42, T0 + 5 * DAY), Err(StakingError::DayIndexOutOfBounds));
    assert_eq!(update_daily_rate_at_index(&mut pool, &addr(7), 3, 1, T0 + 5 * DAY), Err(StakingError::Unauthorized));
    assert_eq!(pool.daily_rates[3], 42);
}

#[test]
fn error_messages() {
    assert_eq!(StakingError::InvalidNormalizationK.message(), "Invalid normalization K value");
    assert_eq!(StakingError::NoRewardsAvailable.message(), "No rewards available");
}

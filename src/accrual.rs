use vstd::prelude::*;
use crate::error::StakingError;
use crate::schedule::{elapsed_ok, get_week_number, week_number_spec, MAX_DAILY_RATES, PRECISION};
use crate::state::{StakeEntry, StakingPool};

verus! {

/// Rate cap: 100% annualized, at the scale of `PRECISION` cubed.
pub const MAX_WEIGHTED_RATE: u128 = 100 * PRECISION * PRECISION * PRECISION;

/// The supported lock durations, in months.
pub open spec fn is_tier(duration_months: u8) -> bool {
    duration_months == 3 || duration_months == 6 || duration_months == 9 || duration_months == 12
}

/// Duration multiplier in tenths: 1.0x, 1.5x, 2.0x and 3.0x.
pub open spec fn multiplier_spec(duration_months: u8) -> int {
    if duration_months == 3 { 10 }
    else if duration_months == 6 { 15 }
    else if duration_months == 9 { 20 }
    else { 30 }
}

/// Daily rate weighted by duration and normalization, capped at 100%.
pub open spec fn weighted_rate_spec(daily_rate: u64, duration_months: u8, normalization_k: u128) -> int {
    let weight_factor = multiplier_spec(duration_months) * PRECISION / normalization_k as int;
    let w = daily_rate as int * weight_factor * PRECISION;
    if w > MAX_WEIGHTED_RATE { MAX_WEIGHTED_RATE as int } else { w }
}

/// Reward of one day for `stake_amount` at a valid tier and positive `normalization_k`.
pub open spec fn daily_reward_spec(stake_amount: u64, daily_rate: u64, duration_months: u8, normalization_k: u128) -> int {
    stake_amount as int * weighted_rate_spec(daily_rate, duration_months, normalization_k)
        / 360 / PRECISION as int / PRECISION as int / PRECISION as int
}

/// Reward of one day for `stake_amount` at base rate `daily_rate`, weighted by
/// the lock duration and normalized by `normalization_k`.
pub fn calculate_daily_reward(
    stake_amount: u64,
    daily_rate: u64,
    duration_months: u8,
    normalization_k: u128,
) -> (r: Result<u64, StakingError>)
    ensures
        !is_tier(duration_months) ==> r == Err::<u64, StakingError>(StakingError::InvalidDuration),
        is_tier(duration_months) && normalization_k == 0 ==> r == Err::<u64, StakingError>(StakingError::DivisionByZero),
        is_tier(duration_months) && normalization_k > 0 ==> r == Ok::<u64, StakingError>(
            daily_reward_spec(stake_amount, daily_rate, duration_months, normalization_k) as u64),
        is_tier(duration_months) && normalization_k > 0 ==>
            daily_reward_spec(stake_amount, daily_rate, duration_months, normalization_k) <= u64::MAX,
{
    let weight_multiplier: u128 = match duration_months {
        3 => 10,
        6 => 15,
        9 => 20,
        12 => 30,
        _ => return Err(StakingError::InvalidDuration),
    };
    if normalization_k == 0 {
        return Err(StakingError::DivisionByZero);
    }
    let weight_factor = weight_multiplier * PRECISION / normalization_k;
    assert(weight_factor <= 300000) by (nonlinear_arith)
        requires weight_factor as int == (weight_multiplier as int * 10000) / normalization_k as int, weight_multiplier <= 30, normalization_k >= 1;
    let rate = daily_rate as u128;
    assert(rate * weight_factor * PRECISION <= 300000 * 10000 * 0xFFFF_FFFF_FFFF_FFFF) by (nonlinear_arith)
        requires rate <= 0xFFFF_FFFF_FFFF_FFFF, weight_factor <= 300000, PRECISION == 10000;
    let mut daily_rate_with_weight = rate * weight_factor * PRECISION;
    if daily_rate_with_weight > MAX_WEIGHTED_RATE {
        daily_rate_with_weight = MAX_WEIGHTED_RATE;
    }
    let amount = stake_amount as u128;
    assert(amount * daily_rate_with_weight <= 0xFFFF_FFFF_FFFF_FFFF * 100_000_000_000_000) by (nonlinear_arith)
        requires amount <= 0xFFFF_FFFF_FFFF_FFFF, daily_rate_with_weight <= 100_000_000_000_000;
    let product = amount * daily_rate_with_weight;
    let daily_reward = product / 360 / PRECISION / PRECISION / PRECISION;
    assert(daily_reward <= u64::MAX) by (nonlinear_arith)
        requires product <= 0xFFFF_FFFF_FFFF_FFFF * 100_000_000_000_000,
            daily_reward as int == product as int / 360 / 10000 / 10000 / 10000;
    Ok(daily_reward as u64)
}


/// Stored rate of `day`; a day outside the table counts as unset (zero).
pub open spec fn rate_at(rates: Seq<u64>, day: int) -> u64 {
    if 0 <= day < rates.len() { rates[day] } else { 0u64 }
}

/// The rate that applies on `day` when accrual starts at `first_day`: the
/// last non-zero rate stored in `[first_day, day]`, or zero if there is none.
pub open spec fn carried_rate(rates: Seq<u64>, first_day: int, day: int) -> u64
    decreases day - first_day + 1,
{
    if day < first_day {
        0u64
    } else if rate_at(rates, day) > 0 {
        rate_at(rates, day)
    } else {
        carried_rate(rates, first_day, day - 1)
    }
}

/// Sum of the daily rewards of the days in `[first_day, end_day)`.
pub open spec fn accrued_spec(
    rates: Seq<u64>,
    stake_amount: u64,
    duration_months: u8,
    normalization_k: u128,
    first_day: int,
    end_day: int,
) -> int
    decreases end_day - first_day,
{
    if end_day <= first_day {
        0
    } else {
        accrued_spec(rates, stake_amount, duration_months, normalization_k, first_day, end_day - 1)
            + daily_reward_spec(stake_amount, carried_rate(rates, first_day, end_day - 1), duration_months, normalization_k)
    }
}

/// The last week whose rewards may be settled: the current one when
/// claiming, the one before it when unstaking.
pub open spec fn claim_horizon(current_week: int, is_unstaking: bool) -> int {
    if is_unstaking {
        if current_week > 0 { current_week - 1 } else { 0 }
    } else {
        current_week
    }
}

/// First day whose rewards a stake has not yet received.
pub open spec fn first_unpaid_day(stake: StakeEntry) -> int {
    stake.last_claim_week as int * 7
}

/// End (exclusive) of the days payable up to `horizon` weeks, clipped to the table horizon.
pub open spec fn payable_end_day(horizon: int) -> int {
    if horizon * 7 < MAX_DAILY_RATES { horizon * 7 } else { MAX_DAILY_RATES as int }
}

/// Rewards accrued by `stake` over the days from its cursor to the end of
/// the claim horizon at `now`.
pub open spec fn accrued_for(stake: StakeEntry, pool: StakingPool, now: i64, is_unstaking: bool) -> int {
    let horizon = claim_horizon(week_number_spec(pool.program_start_time, now), is_unstaking);
    accrued_spec(
        pool.daily_rates@,
        stake.amount,
        stake.duration_months,
        pool.normalization_k,
        first_unpaid_day(stake),
        payable_end_day(horizon),
    )
}

/// What `calculate_claimable_rewards` returns for a well-formed pool.
pub open spec fn claimable_spec(stake: StakeEntry, pool: StakingPool, now: i64, is_unstaking: bool) -> Result<u64, StakingError> {
    if !elapsed_ok(pool.program_start_time, now) {
        Err(StakingError::Underflow)
    } else {
        let horizon = claim_horizon(week_number_spec(pool.program_start_time, now), is_unstaking);
        if horizon <= stake.last_claim_week || first_unpaid_day(stake) >= payable_end_day(horizon) {
            Ok(0u64)
        } else if !is_tier(stake.duration_months) {
            Err(StakingError::InvalidDuration)
        } else if accrued_for(stake, pool, now, is_unstaking) > u64::MAX {
            Err(StakingError::Overflow)
        } else {
            Ok(accrued_for(stake, pool, now, is_unstaking) as u64)
        }
    }
}

/// Accrual only grows as more days are counted.
pub proof fn lemma_accrued_monotone(
    rates: Seq<u64>,
    stake_amount: u64,
    duration_months: u8,
    normalization_k: u128,
    first_day: int,
    end1: int,
    end2: int,
)
    requires
        end1 <= end2,
        normalization_k > 0,
    ensures
        accrued_spec(rates, stake_amount, duration_months, normalization_k, first_day, end1)
            <= accrued_spec(rates, stake_amount, duration_months, normalization_k, first_day, end2),
    decreases end2 - end1,
{
    if end1 < end2 {
        lemma_accrued_monotone(rates, stake_amount, duration_months, normalization_k, first_day, end1, end2 - 1);
        if end2 > first_day {
            lemma_daily_reward_nonneg(stake_amount, carried_rate(rates, first_day, end2 - 1), duration_months, normalization_k);
        }
    }
}

pub proof fn lemma_daily_reward_nonneg(stake_amount: u64, daily_rate: u64, duration_months: u8, normalization_k: u128)
    requires
        normalization_k > 0,
    ensures
        daily_reward_spec(stake_amount, daily_rate, duration_months, normalization_k) >= 0,
{
    let wf = multiplier_spec(duration_months) * PRECISION / normalization_k as int;
    assert(wf >= 0) by (nonlinear_arith)
        requires wf == multiplier_spec(duration_months) * 10000 / normalization_k as int,
            multiplier_spec(duration_months) >= 0, normalization_k > 0;
    let w = daily_rate as int * wf * PRECISION;
    assert(w >= 0) by (nonlinear_arith) requires w == daily_rate as int * wf * 10000, wf >= 0, daily_rate >= 0;
    let c = weighted_rate_spec(daily_rate, duration_months, normalization_k);
    assert(stake_amount as int * c >= 0) by (nonlinear_arith) requires c >= 0, stake_amount >= 0;
}

/// Rewards that `stake_entry` can settle at `current_time`. The days from the
/// stake's week cursor up to the claim horizon (the current week, or the one
/// before it when unstaking), clipped to the table horizon, each contribute
/// the daily reward at the last non-zero rate seen since the cursor.
pub fn calculate_claimable_rewards(
    stake_entry: &StakeEntry,
    staking_pool: &StakingPool,
    current_time: i64,
    is_unstaking: bool,
) -> (r: Result<u64, StakingError>)
    requires
        staking_pool.wf(),
    ensures
        r == claimable_spec(*stake_entry, *staking_pool, current_time, is_unstaking),
{
    let current_week = get_week_number(current_time, staking_pool.program_start_time)?;
    let last_claimed_week = stake_entry.last_claim_week;
    let claimable_up_to_week = if is_unstaking {
        current_week.saturating_sub(1)
    } else {
        current_week
    };
    if claimable_up_to_week <= last_claimed_week {
        return Ok(0);
    }
    assert(current_week <= 0xFFFF_FFFF_FFFF_FFFFint / 604800);
    let start_day: u64 = last_claimed_week * 7;
    let end_day: u64 = claimable_up_to_week * 7;
    let end_clipped: u64 = if end_day < MAX_DAILY_RATES as u64 { end_day } else { MAX_DAILY_RATES as u64 };
    assert(end_clipped == payable_end_day(claimable_up_to_week as int));
    assert(claimable_up_to_week == claim_horizon(current_week as int, is_unstaking));
    let ghost rates = staking_pool.daily_rates@;
    let ghost amount = stake_entry.amount;
    let ghost dur = stake_entry.duration_months;
    let ghost k = staking_pool.normalization_k;

    let mut total_rewards: u64 = 0;
    let mut last_daily_rate: u64 = 0;
    let mut day: u64 = start_day;
    while day < end_clipped
        invariant
            staking_pool.wf(),
            rates == staking_pool.daily_rates@,
            amount == stake_entry.amount,
            dur == stake_entry.duration_months,
            k == staking_pool.normalization_k,
            start_day <= day,
            start_day < end_clipped ==> day <= end_clipped,
            start_day >= end_clipped ==> day == start_day,
            day > start_day ==> is_tier(dur),
            elapsed_ok(staking_pool.program_start_time, current_time),
            claimable_up_to_week == claim_horizon(week_number_spec(staking_pool.program_start_time, current_time), is_unstaking),
            claimable_up_to_week > stake_entry.last_claim_week,
            end_clipped == payable_end_day(claimable_up_to_week as int),
            start_day == first_unpaid_day(*stake_entry),
            end_clipped <= MAX_DAILY_RATES,
            total_rewards == accrued_spec(rates, amount, dur, k, start_day as int, day as int),
            last_daily_rate == carried_rate(rates, start_day as int, day - 1),
        decreases end_clipped - day,
    {
        let stored = if day < staking_pool.daily_rates.len() as u64 { staking_pool.daily_rates[day as usize] } else { 0 };
        if stored > 0 {
            last_daily_rate = stored;
        }
        let daily_reward = calculate_daily_reward(
            stake_entry.amount,
            last_daily_rate,
            stake_entry.duration_months,
            staking_pool.normalization_k,
        )?;
        total_rewards = match total_rewards.checked_add(daily_reward) {
            Some(t) => t,
            None => {
                proof {
                    lemma_accrued_monotone(rates, amount, dur, k, start_day as int, day + 1, end_clipped as int);
                }
                return Err(StakingError::Overflow);
            }
        };
        day = day + 1;
    }
    Ok(total_rewards)
}

} // verus!

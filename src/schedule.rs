use vstd::prelude::*;
use crate::error::StakingError;

verus! {

/// Total reward budget: 250M tokens with 9 decimals.
pub const TOTAL_REWARD_POOL: u64 = 250_000_000_000_000_000;
/// Number of days for which a daily rate is kept.
pub const MAX_DAILY_RATES: usize = 370;
pub const DECIMALS: u8 = 9;
pub const SECONDS_PER_DAY: i64 = 86400;
pub const SECONDS_PER_WEEK: i64 = 604800;
pub const SECONDS_PER_MONTH: i64 = 2592000;

/// `now` is not earlier than `start`.
pub open spec fn elapsed_ok(start: i64, now: i64) -> bool {
    start <= now
}

pub open spec fn months_elapsed_spec(start: i64, now: i64) -> int {
    (now - start) / (SECONDS_PER_MONTH as int)
}

/// Whole weeks elapsed since `start`.
pub open spec fn week_number_spec(start: i64, now: i64) -> int {
    (now - start) / (SECONDS_PER_WEEK as int)
}

pub open spec fn day_index_spec(start: i64, now: i64) -> int {
    (now - start) / (SECONDS_PER_DAY as int)
}

/// Seconds from `start` to `now`, computed wide enough that it cannot overflow.
pub fn seconds_between(start: i64, now: i64) -> (r: Result<u128, StakingError>)
    ensures
        !elapsed_ok(start, now) ==> r == Err::<u128, StakingError>(StakingError::Underflow),
        elapsed_ok(start, now) ==> (r matches Ok(s) && s == now - start && s <= u64::MAX),
{
    if now < start {
        return Err(StakingError::Underflow);
    }
    Ok((now as i128 - start as i128) as u128)
}

/// Whole 30-day months since `start_time`.
pub fn get_months_elapsed(start_time: i64, current_time: i64) -> (r: Result<u64, StakingError>)
    ensures
        !elapsed_ok(start_time, current_time) ==> r == Err::<u64, StakingError>(StakingError::Underflow),
        elapsed_ok(start_time, current_time) ==> r == Ok::<u64, StakingError>(months_elapsed_spec(start_time, current_time) as u64),
{
    let seconds_elapsed = seconds_between(start_time, current_time)?;
    Ok((seconds_elapsed / SECONDS_PER_MONTH as u128) as u64)
}

/// Number of whole weeks of the program that have elapsed at `current_time`.
pub fn get_week_number(current_time: i64, program_start: i64) -> (r: Result<u64, StakingError>)
    ensures
        !elapsed_ok(program_start, current_time) ==> r == Err::<u64, StakingError>(StakingError::Underflow),
        elapsed_ok(program_start, current_time) ==> r == Ok::<u64, StakingError>(week_number_spec(program_start, current_time) as u64),
        elapsed_ok(program_start, current_time) ==> week_number_spec(program_start, current_time) * SECONDS_PER_WEEK
            <= current_time - program_start,
{
    let seconds_elapsed = seconds_between(program_start, current_time)?;
    Ok((seconds_elapsed / SECONDS_PER_WEEK as u128) as u64)
}

/// Index of the calendar day of `current_time` in the daily-rate table.
pub fn get_day_index(current_time: i64, program_start: i64) -> (r: Result<u64, StakingError>)
    ensures
        !elapsed_ok(program_start, current_time) ==> r == Err::<u64, StakingError>(StakingError::Underflow),
        elapsed_ok(program_start, current_time) && day_index_spec(program_start, current_time) >= MAX_DAILY_RATES
            ==> r == Err::<u64, StakingError>(StakingError::DayIndexOutOfBounds),
        elapsed_ok(program_start, current_time) && day_index_spec(program_start, current_time) < MAX_DAILY_RATES
            ==> r == Ok::<u64, StakingError>(day_index_spec(program_start, current_time) as u64),
{
    let seconds_elapsed = seconds_between(program_start, current_time)?;
    let day = (seconds_elapsed / SECONDS_PER_DAY as u128) as u64;
    if day >= MAX_DAILY_RATES as u64 {
        return Err(StakingError::DayIndexOutOfBounds);
    }
    Ok(day)
}

/// Fixed-point scale of rates.
pub const PRECISION: u128 = 10_000;

/// Cumulative rewards unlocked after `months` whole months of the program.
pub open spec fn unlocked_spec(months: int) -> u64 {
    if months == 0 { 20_833_333_000_000_000 }
    else if months == 1 { 41_666_667_000_000_000 }
    else if months == 2 { 62_500_000_000_000_000 }
    else if months == 3 { 83_333_333_000_000_000 }
    else if months == 4 { 104_166_667_000_000_000 }
    else if months == 5 { 125_000_000_000_000_000 }
    else if months == 6 { 145_833_333_000_000_000 }
    else if months == 7 { 166_666_667_000_000_000 }
    else if months == 8 { 187_500_000_000_000_000 }
    else if months == 9 { 208_333_333_000_000_000 }
    else if months == 10 { 229_166_667_000_000_000 }
    else { TOTAL_REWARD_POOL }
}

/// Rewards still available at `now` for a pool started at `start` that has
/// paid out `distributed` so far.
pub open spec fn available_spec(start: i64, distributed: u64, now: i64) -> Result<u64, StakingError> {
    if !elapsed_ok(start, now) {
        Err(StakingError::Underflow)
    } else {
        let unlocked = unlocked_spec(months_elapsed_spec(start, now));
        if distributed > unlocked {
            Err(StakingError::Underflow)
        } else {
            Ok((unlocked - distributed) as u64)
        }
    }
}

/// Base rate: available rewards per staked unit (plus one), scaled by
/// `PRECISION`, as an exact integer.
pub open spec fn base_apy_spec(total_staked: u64, available: u64) -> int {
    (available as int / (total_staked as int + 1)) * PRECISION as int
}

/// Cumulative rewards unlocked after `months_elapsed` whole months.
pub fn unlocked_rewards(months_elapsed: u64) -> (r: u64)
    ensures
        r == unlocked_spec(months_elapsed as int),
{
    match months_elapsed {
        0 => 20_833_333_000_000_000,
        1 => 41_666_667_000_000_000,
        2 => 62_500_000_000_000_000,
        3 => 83_333_333_000_000_000,
        4 => 104_166_667_000_000_000,
        5 => 125_000_000_000_000_000,
        6 => 145_833_333_000_000_000,
        7 => 166_666_667_000_000_000,
        8 => 187_500_000_000_000_000,
        9 => 208_333_333_000_000_000,
        10 => 229_166_667_000_000_000,
        _ => TOTAL_REWARD_POOL,
    }
}

/// Rewards unlocked by `current_time` and not yet distributed.
pub fn available_rewards_at(program_start_time: i64, total_rewards_distributed: u64, current_time: i64) -> (r: Result<u64, StakingError>)
    ensures
        r == available_spec(program_start_time, total_rewards_distributed, current_time),
{
    let months_elapsed = get_months_elapsed(program_start_time, current_time)?;
    let available_pool = unlocked_rewards(months_elapsed);
    match available_pool.checked_sub(total_rewards_distributed) {
        Some(a) => Ok(a),
        None => Err(StakingError::Underflow),
    }
}

/// Base rate from pool utilization: `available / (total_staked + 1) * PRECISION`,
/// in 128-bit arithmetic; fails when the rate does not fit in 64 bits.
pub fn calculate_base_apy(total_staked: u64, available_rewards: u64) -> (r: Result<u64, StakingError>)
    ensures
        base_apy_spec(total_staked, available_rewards) <= u64::MAX
            ==> r == Ok::<u64, StakingError>(base_apy_spec(total_staked, available_rewards) as u64),
        base_apy_spec(total_staked, available_rewards) > u64::MAX ==> r == Err::<u64, StakingError>(StakingError::Overflow),
{
    let denominator = total_staked as u128 + 1;
    let apy = (available_rewards as u128) / denominator;
    assert(apy * PRECISION <= u128::MAX) by (nonlinear_arith)
        requires apy <= available_rewards, available_rewards <= u64::MAX;
    let apy = apy * PRECISION;
    if apy > u64::MAX as u128 {
        return Err(StakingError::Overflow);
    }
    Ok(apy as u64)
}

} // verus!

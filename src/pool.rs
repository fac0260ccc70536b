use vstd::prelude::*;
use crate::error::StakingError;
use crate::schedule::{
    available_rewards_at, available_spec, base_apy_spec, calculate_base_apy, day_index_spec,
    elapsed_ok, get_day_index, MAX_DAILY_RATES,
};
use crate::state::StakingPool;

verus! {

/// The rate table after `rate` is written at `day`, the table first being
/// extended with zeros so that `day` is inside it.
pub open spec fn rates_with(rates: Seq<u64>, day: int, rate: u64) -> Seq<u64> {
    Seq::new(
        if day < rates.len() { rates.len() } else { (day + 1) as nat },
        |i: int| if i == day { rate } else if i < rates.len() { rates[i] } else { 0u64 },
    )
}

/// The rate that `update_daily_rate` stores at `now`, and the day slot it
/// goes to.
pub open spec fn rate_slot_spec(pool: StakingPool, now: i64) -> Result<(int, u64), StakingError> {
    if !elapsed_ok(pool.program_start_time, now) {
        Err(StakingError::Underflow)
    } else if day_index_spec(pool.program_start_time, now) >= MAX_DAILY_RATES {
        Err(StakingError::DayIndexOutOfBounds)
    } else {
        match available_spec(pool.program_start_time, pool.total_rewards_distributed, now) {
            Err(e) => Err(e),
            Ok(avail) => if base_apy_spec(pool.total_staked, avail) > u64::MAX {
                Err(StakingError::Overflow)
            } else {
                Ok((day_index_spec(pool.program_start_time, now), base_apy_spec(pool.total_staked, avail) as u64))
            },
        }
    }
}

/// The pool as `update_daily_rate` leaves it after a successful call.
pub open spec fn pool_rate_updated(old_pool: StakingPool, new_pool: StakingPool, now: i64, day: int, rate: u64) -> bool {
    &&& new_pool.daily_rates@ == rates_with(old_pool.daily_rates@, day, rate)
    &&& new_pool.last_update_time == now
    &&& new_pool.authority == old_pool.authority
    &&& new_pool.stake_mint == old_pool.stake_mint
    &&& new_pool.total_staked == old_pool.total_staked
    &&& new_pool.total_rewards_distributed == old_pool.total_rewards_distributed
    &&& new_pool.program_start_time == old_pool.program_start_time
    &&& new_pool.program_end_date == old_pool.program_end_date
    &&& new_pool.treasury_address == old_pool.treasury_address
    &&& new_pool.normalization_k == old_pool.normalization_k
}

/// Rewards of the pool that are unlocked at `current_time` and not yet paid out.
pub fn get_available_rewards(staking_pool: &StakingPool, current_time: i64) -> (r: Result<u64, StakingError>)
    ensures
        r == available_spec(staking_pool.program_start_time, staking_pool.total_rewards_distributed, current_time),
{
    available_rewards_at(staking_pool.program_start_time, staking_pool.total_rewards_distributed, current_time)
}

/// Writes `rate` at `day`, extending the table with zero slots first.
pub fn set_rate_slot(rates: &mut Vec<u64>, day: usize, rate: u64)
    requires
        day < MAX_DAILY_RATES,
    ensures
        final(rates)@ == rates_with(old(rates)@, day as int, rate),
{
    while rates.len() <= day
        invariant
            day < MAX_DAILY_RATES,
            old(rates)@.len() <= rates@.len(),
            rates@.len() > old(rates)@.len() ==> rates@.len() <= day + 1,
            forall|i: int| 0 <= i < old(rates)@.len() ==> rates@[i] == old(rates)@[i],
            forall|i: int| old(rates)@.len() <= i < rates@.len() ==> rates@[i] == 0u64,
        decreases day + 1 - rates.len(),
    {
        rates.push(0);
    }
    rates.set(day, rate);
    assert(rates@ =~= rates_with(old(rates)@, day as int, rate));
}

/// Today's slot of the rate table at `current_time` and the base rate to store
/// there, from the pool's utilization.
pub fn daily_rate_slot(staking_pool: &StakingPool, current_time: i64) -> (r: Result<(u64, u64), StakingError>)
    ensures
        match rate_slot_spec(*staking_pool, current_time) {
            Err(e) => r == Err::<(u64, u64), StakingError>(e),
            Ok((day, rate)) => r == Ok::<(u64, u64), StakingError>((day as u64, rate)) && day < MAX_DAILY_RATES,
        },
{
    let day_index = get_day_index(current_time, staking_pool.program_start_time)?;
    let available_rewards = get_available_rewards(staking_pool, current_time)?;
    let base_apy = calculate_base_apy(staking_pool.total_staked, available_rewards)?;
    Ok((day_index, base_apy))
}

/// Recomputes today's base rate from the pool's utilization and stores it
/// in today's slot of the rate table; records `current_time` as the last update.
/// On failure the pool is left as it was.
pub fn update_daily_rate(staking_pool: &mut StakingPool, current_time: i64) -> (r: Result<(), StakingError>)
    ensures
        match rate_slot_spec(*old(staking_pool), current_time) {
            Err(e) => r == Err::<(), StakingError>(e) && *final(staking_pool) == *old(staking_pool),
            Ok((day, rate)) => r is Ok && pool_rate_updated(*old(staking_pool), *final(staking_pool), current_time, day, rate),
        },
        old(staking_pool).wf() ==> final(staking_pool).wf(),
{
    let (day_index, base_apy) = daily_rate_slot(staking_pool, current_time)?;
    set_rate_slot(&mut staking_pool.daily_rates, day_index as usize, base_apy);
    staking_pool.last_update_time = current_time;
    Ok(())
}

} // verus!

use vstd::prelude::*;
use crate::accrual::{calculate_claimable_rewards, claimable_spec, is_tier};
use crate::address::{derive_stake_address, stake_address_spec};
use crate::error::StakingError;
use crate::pool::{daily_rate_slot, get_available_rewards, pool_rate_updated, rate_slot_spec, update_daily_rate, set_rate_slot, rates_with};
use crate::schedule::{
    available_spec, base_apy_spec, calculate_base_apy, elapsed_ok, get_week_number, unlocked_spec,
    seconds_between, week_number_spec, MAX_DAILY_RATES, SECONDS_PER_DAY, SECONDS_PER_WEEK,
};
use crate::state::{Address, StakeEntry, StakingPool, UserStakingAccount};

verus! {

/// Normalization constant of a new pool.
pub const INITIAL_NORMALIZATION_K: u128 = 250;
/// Largest early-exit penalty, in percent of the principal.
pub const MAX_PENALTY_PERCENT: u64 = 20;

/// Day zero's rate: the base rate of the first month's release over one
/// staked unit, held at the largest storable rate when it is larger (every
/// rate above the weighting cap pays the same).
pub open spec fn initial_rate_spec() -> u64 {
    if base_apy_spec(1, unlocked_spec(0)) > u64::MAX { u64::MAX } else { base_apy_spec(1, unlocked_spec(0)) as u64 }
}

/// The rate table of a new pool: the initial rate on day zero, zero elsewhere.
pub open spec fn initial_rates() -> Seq<u64> {
    Seq::new(MAX_DAILY_RATES as nat, |i: int| if i == 0 { initial_rate_spec() } else { 0u64 })
}

/// Creates a pool whose program starts at `current_time`, with day zero's
/// rate set to `initial_rate_spec`.
pub fn initialize(
    authority: Address,
    stake_mint: Address,
    treasury_address: Address,
    program_end_date: i64,
    current_time: i64,
) -> (r: Result<StakingPool, StakingError>)
    ensures
        r matches Ok(pool) && {
            &&& pool.wf()
            &&& pool.authority == authority
            &&& pool.stake_mint == stake_mint
            &&& pool.treasury_address == treasury_address
            &&& pool.total_staked == 0
            &&& pool.total_rewards_distributed == 0
            &&& pool.last_update_time == current_time
            &&& pool.program_start_time == current_time
            &&& pool.program_end_date == program_end_date
            &&& pool.normalization_k == INITIAL_NORMALIZATION_K
            &&& pool.daily_rates@ == initial_rates()
        },
{
    let mut daily_rates: Vec<u64> = Vec::new();
    let mut pool = StakingPool {
        authority,
        stake_mint,
        total_staked: 0,
        total_rewards_distributed: 0,
        last_update_time: current_time,
        program_start_time: current_time,
        program_end_date,
        treasury_address,
        normalization_k: INITIAL_NORMALIZATION_K,
        daily_rates: Vec::new(),
    };
    let avail = get_available_rewards(&pool, current_time)?;
    let initial_apy = match calculate_base_apy(1, avail) {
        Ok(rate) => rate,
        Err(_) => u64::MAX,
    };
    daily_rates.push(initial_apy);
    while daily_rates.len() < MAX_DAILY_RATES
        invariant
            1 <= daily_rates@.len() <= MAX_DAILY_RATES,
            daily_rates@[0] == initial_apy,
            forall|i: int| 1 <= i < daily_rates@.len() ==> daily_rates@[i] == 0u64,
        decreases MAX_DAILY_RATES - daily_rates.len(),
    {
        daily_rates.push(0);
    }
    assert(daily_rates@ =~= initial_rates());
    pool.daily_rates = daily_rates;
    Ok(pool)
}

/// Whether a deposit of `duration_months` may be made at `now`.
pub open spec fn stake_check_spec(pool: StakingPool, duration_months: u8, now: i64) -> Result<(), StakingError> {
    if !is_tier(duration_months) {
        Err(StakingError::InvalidDuration)
    } else {
        match available_spec(pool.program_start_time, pool.total_rewards_distributed, now) {
            Err(e) => Err(e),
            Ok(avail) => if avail == 0 { Err(StakingError::RewardPoolExhausted) } else { Ok(()) },
        }
    }
}

/// Checks that a deposit of `duration_months` is accepted at `current_time`:
/// the duration is a supported tier and the pool still has rewards to give.
pub fn check_stake(staking_pool: &StakingPool, duration_months: u8, current_time: i64) -> (r: Result<(), StakingError>)
    ensures
        r == stake_check_spec(*staking_pool, duration_months, current_time),
{
    if !(duration_months == 3 || duration_months == 6 || duration_months == 9 || duration_months == 12) {
        return Err(StakingError::InvalidDuration);
    }
    let available_rewards = get_available_rewards(staking_pool, current_time)?;
    if available_rewards == 0 {
        return Err(StakingError::RewardPoolExhausted);
    }
    Ok(())
}

/// Checks that a vault whose balance went from `before` to `after` received
/// exactly `requested`.
pub fn check_deposit(requested: u64, before: u64, after: u64) -> (r: Result<(), StakingError>)
    ensures
        r is Ok <==> (after >= before && after - before == requested),
        r is Err ==> r == Err::<(), StakingError>(StakingError::TransferMismatch),
{
    if after >= before && after - before == requested { Ok(()) } else { Err(StakingError::TransferMismatch) }
}

/// Checks that a vault whose balance went from `before` to `after` paid out
/// exactly `requested`.
pub fn check_withdrawal(requested: u64, before: u64, after: u64) -> (r: Result<(), StakingError>)
    ensures
        r is Ok <==> (before >= after && before - after == requested),
        r is Err ==> r == Err::<(), StakingError>(StakingError::TransferMismatch),
{
    if before >= after && before - after == requested { Ok(()) } else { Err(StakingError::TransferMismatch) }
}

/// The owner summary as a deposit sees it: a summary that was never set up
/// starts afresh for `user`.
pub open spec fn effective_summary(acct: UserStakingAccount, user: Address) -> UserStakingAccount {
    if acct.owner.is_zero() {
        UserStakingAccount { owner: user, stake_count: 0, total_staked: 0, total_claimed: 0 }
    } else {
        acct
    }
}

/// The new stake record of a deposit of `amount` for `duration_months` at `now`.
pub open spec fn new_entry_spec(pool: StakingPool, summary: UserStakingAccount, user: Address, amount: u64, duration_months: u8, now: i64) -> StakeEntry {
    StakeEntry {
        owner: user,
        stake_index: summary.stake_count,
        amount,
        start_time: now,
        duration_months,
        last_claim_time: now,
        last_claim_week: week_number_spec(pool.program_start_time, now) as u64,
        is_active: true,
        total_claimed: 0,
    }
}

/// Outcome of a deposit of `amount` whose record is to live at `entry_key`.
pub open spec fn stake_spec(
    pool: StakingPool,
    acct: UserStakingAccount,
    user: Address,
    pool_key: Address,
    program_id: Address,
    entry_key: Address,
    amount: u64,
    vault_before: u64,
    vault_after: u64,
    duration_months: u8,
    now: i64,
) -> Result<StakeEntry, StakingError> {
    let s = effective_summary(acct, user);
    if user.is_zero() {
        Err(StakingError::Unauthorized)
    } else {
    match stake_check_spec(pool, duration_months, now) {
        Err(e) => Err(e),
        Ok(_) => if !(vault_after >= vault_before && vault_after - vault_before == amount) {
            Err(StakingError::TransferMismatch)
        } else if stake_address_spec(user, pool_key, s.stake_count, program_id) != Some(entry_key.bytes@) {
            Err(StakingError::InvalidStakeIndex)
        } else if s.stake_count == u64::MAX || s.total_staked + amount > u64::MAX || pool.total_staked + amount > u64::MAX {
            Err(StakingError::Overflow)
        } else {
            match rate_slot_spec(StakingPool { total_staked: (pool.total_staked + amount) as u64, ..pool }, now) {
                Err(e) => Err(e),
                Ok(_) => Ok(new_entry_spec(pool, s, user, amount, duration_months, now)),
            }
        },
    }
    }
}

/// The owner summary after a deposit of `amount` by `user`.
pub open spec fn summary_after_stake(acct: UserStakingAccount, user: Address, amount: u64) -> UserStakingAccount {
    let s = effective_summary(acct, user);
    UserStakingAccount {
        owner: s.owner,
        stake_count: (s.stake_count + 1) as u64,
        total_staked: (s.total_staked + amount) as u64,
        total_claimed: s.total_claimed,
    }
}

/// Records a deposit of `amount` locked for `duration_months`, as `user`'s
/// next stake, whose record is to live at `stake_entry_key`. The stake vault's
/// balance must have grown from `vault_before` to `vault_after` by exactly
/// `amount`; the all-zero key is no user. Raises the owner's and the pool's totals and
/// refreshes today's rate. Returns the new record; on failure nothing changes.
pub fn stake(
    staking_pool: &mut StakingPool,
    user_staking_account: &mut UserStakingAccount,
    user: &Address,
    staking_pool_key: &Address,
    program_id: &Address,
    stake_entry_key: &Address,
    amount: u64,
    vault_before: u64,
    vault_after: u64,
    duration_months: u8,
    current_time: i64,
) -> (r: Result<StakeEntry, StakingError>)
    requires
        old(staking_pool).wf(),
    ensures
        r == stake_spec(*old(staking_pool), *old(user_staking_account), *user, *staking_pool_key, *program_id,
            *stake_entry_key, amount, vault_before, vault_after, duration_months, current_time),
        final(staking_pool).wf(),
        r is Err ==> *final(staking_pool) == *old(staking_pool) && *final(user_staking_account) == *old(user_staking_account),
        r is Ok ==> {
            let raised = StakingPool { total_staked: (old(staking_pool).total_staked + amount) as u64, ..*old(staking_pool) };
            &&& *final(user_staking_account) == summary_after_stake(*old(user_staking_account), *user, amount)
            &&& rate_slot_spec(raised, current_time) matches Ok((day, rate))
                && pool_rate_updated(raised, *final(staking_pool), current_time, day, rate)
        },
{
    if *user == Address::zero() {
        return Err(StakingError::Unauthorized);
    }
    proof {
        if user.is_zero() {
            assert(user.bytes@ =~= Seq::new(32, |i: int| 0u8));
        }
    }
    check_stake(staking_pool, duration_months, current_time)?;
    check_deposit(amount, vault_before, vault_after)?;
    let summary = if user_staking_account.owner == Address::zero() {
        UserStakingAccount { owner: *user, stake_count: 0, total_staked: 0, total_claimed: 0 }
    } else {
        *user_staking_account
    };
    proof {
        if user_staking_account.owner.bytes@ == Seq::new(32, |i: int| 0u8) {
            assert(user_staking_account.owner.is_zero());
        } else {
            if user_staking_account.owner.is_zero() {
                assert(user_staking_account.owner.bytes@ =~= Seq::new(32, |i: int| 0u8));
            }
        }
    }
    let stake_index = summary.stake_count;
    let matches_expected = match derive_stake_address(user, staking_pool_key, stake_index, program_id) {
        Some(a) => *stake_entry_key == a,
        None => false,
    };
    if !matches_expected {
        return Err(StakingError::InvalidStakeIndex);
    }
    let last_claim_week = get_week_number(current_time, staking_pool.program_start_time)?;
    let stake_count = match summary.stake_count.checked_add(1) {
        Some(c) => c,
        None => return Err(StakingError::Overflow),
    };
    let owner_total = match summary.total_staked.checked_add(amount) {
        Some(t) => t,
        None => return Err(StakingError::Overflow),
    };
    let pool_total = match staking_pool.total_staked.checked_add(amount) {
        Some(t) => t,
        None => return Err(StakingError::Overflow),
    };
    let previous_total = staking_pool.total_staked;
    staking_pool.total_staked = pool_total;
    if let Err(e) = update_daily_rate(staking_pool, current_time) {
        staking_pool.total_staked = previous_total;
        return Err(e);
    }
    *user_staking_account = UserStakingAccount {
        owner: summary.owner,
        stake_count,
        total_staked: owner_total,
        total_claimed: summary.total_claimed,
    };
    Ok(StakeEntry {
        owner: *user,
        stake_index,
        amount,
        start_time: current_time,
        duration_months,
        last_claim_time: current_time,
        last_claim_week,
        is_active: true,
        total_claimed: 0,
    })
}


/// Lock length in days of a `duration_months` tier.
pub open spec fn lock_days_spec(duration_months: u8) -> int {
    duration_months as int * 30
}

/// Penalty percentage after `elapsed_days` of a lock of `duration_months`:
/// the maximum at day zero, falling linearly to zero at the end of the lock.
pub open spec fn penalty_rate_spec(duration_months: u8, elapsed_days: int) -> int {
    let lock = lock_days_spec(duration_months);
    if elapsed_days < lock {
        MAX_PENALTY_PERCENT as int * (lock - elapsed_days) / lock
    } else {
        0
    }
}

/// Whole days from `start_time` to `now`.
pub open spec fn elapsed_days_spec(start_time: i64, now: i64) -> int {
    (now - start_time) / (SECONDS_PER_DAY as int)
}

/// Penalty percentage for leaving a lock of `duration_months` after
/// `elapsed_days` whole days.
pub fn penalty_rate(duration_months: u8, elapsed_days: u64) -> (r: u64)
    ensures
        r == penalty_rate_spec(duration_months, elapsed_days as int),
        r <= MAX_PENALTY_PERCENT,
{
    let lock_duration_days: u64 = duration_months as u64 * 30;
    if elapsed_days < lock_duration_days {
        let remaining = lock_duration_days - elapsed_days;
        assert(20 * (remaining as int) / (lock_duration_days as int) <= 20) by (nonlinear_arith)
            requires remaining <= lock_duration_days, lock_duration_days > 0;
        MAX_PENALTY_PERCENT * remaining / lock_duration_days
    } else {
        0
    }
}

/// Splits the principal `amount` of a stake started at `start_time` and left at
/// `current_time` into the penalty kept by the treasury and the part returned
/// to the owner.
pub fn calculate_unstake_penalty(amount: u64, duration_months: u8, start_time: i64, current_time: i64) -> (r: Result<(u64, u64), StakingError>)
    ensures
        !elapsed_ok(start_time, current_time) ==> r == Err::<(u64, u64), StakingError>(StakingError::Underflow),
        elapsed_ok(start_time, current_time) ==> {
            let rate = penalty_rate_spec(duration_months, elapsed_days_spec(start_time, current_time));
            &&& amount * rate > u64::MAX ==> r == Err::<(u64, u64), StakingError>(StakingError::Overflow)
            &&& amount * rate <= u64::MAX ==> (r matches Ok((penalty, receive))
                && penalty == amount * rate / 100
                && penalty + receive == amount)
        },
{
    let elapsed_time = seconds_between(start_time, current_time)?;
    let elapsed_days = (elapsed_time / SECONDS_PER_DAY as u128) as u64;
    let rate = penalty_rate(duration_months, elapsed_days);
    let penalty_amount = match amount.checked_mul(rate) {
        Some(p) => p / 100,
        None => return Err(StakingError::Overflow),
    };
    assert(penalty_amount <= amount) by (nonlinear_arith)
        requires penalty_amount == amount * rate / 100, rate <= 20;
    Ok((penalty_amount, amount - penalty_amount))
}

/// The token movements of an unstake: rewards to the owner, the penalty to
/// the treasury, and the rest of the principal to the owner.
#[derive(Clone, Copy, Debug, PartialEq, Eq, Structural)]
pub struct UnstakeOutcome {
    pub rewards: u64,
    pub penalty_amount: u64,
    pub user_receive_amount: u64,
}

/// Outcome of unstaking `entry` by `user` at `now`.
pub open spec fn unstake_spec(pool: StakingPool, acct: UserStakingAccount, entry: StakeEntry, user: Address, now: i64) -> Result<UnstakeOutcome, StakingError> {
    if entry.owner.bytes@ != user.bytes@ {
        Err(StakingError::Unauthorized)
    } else if !entry.is_active {
        Err(StakingError::StakeNotActive)
    } else {
        match claimable_spec(entry, pool, now, true) {
            Err(e) => Err(e),
            Ok(rewards) => if !elapsed_ok(entry.start_time, now) {
                Err(StakingError::Underflow)
            } else if entry.amount * penalty_rate_spec(entry.duration_months, elapsed_days_spec(entry.start_time, now)) > u64::MAX {
                Err(StakingError::Overflow)
            } else if pool.total_staked < entry.amount {
                Err(StakingError::Underflow)
            } else if pool.total_rewards_distributed + rewards > u64::MAX {
                Err(StakingError::Overflow)
            } else if acct.total_staked < entry.amount {
                Err(StakingError::Underflow)
            } else if acct.total_claimed + rewards > u64::MAX || entry.total_claimed + rewards > u64::MAX {
                Err(StakingError::Overflow)
            } else {
                let settled = StakingPool {
                    total_staked: (pool.total_staked - entry.amount) as u64,
                    total_rewards_distributed: (pool.total_rewards_distributed + rewards) as u64,
                    ..pool
                };
                match rate_slot_spec(settled, now) {
                    Err(e) => Err(e),
                    Ok(_) => {
                        let penalty = (entry.amount * penalty_rate_spec(entry.duration_months, elapsed_days_spec(entry.start_time, now)) / 100) as u64;
                        Ok(UnstakeOutcome { rewards, penalty_amount: penalty, user_receive_amount: (entry.amount - penalty) as u64 })
                    },
                }
            },
        }
    }
}

/// Ends the stake `stake_entry` of `user` at `current_time`: settles its rewards
/// up to the week before the current one, charges the early-exit penalty on
/// the principal, lowers the totals of the pool and of the owner, marks the
/// stake inactive and refreshes today's rate. On failure nothing changes.
pub fn unstake(
    staking_pool: &mut StakingPool,
    user_staking_account: &mut UserStakingAccount,
    stake_entry: &mut StakeEntry,
    user: &Address,
    current_time: i64,
) -> (r: Result<UnstakeOutcome, StakingError>)
    requires
        old(staking_pool).wf(),
    ensures
        r == unstake_spec(*old(staking_pool), *old(user_staking_account), *old(stake_entry), *user, current_time),
        final(stake_entry).total_claimed >= old(stake_entry).total_claimed,
        final(user_staking_account).total_claimed >= old(user_staking_account).total_claimed,
        final(staking_pool).total_rewards_distributed >= old(staking_pool).total_rewards_distributed,
        final(staking_pool).wf(),
        r is Err ==> *final(staking_pool) == *old(staking_pool)
            && *final(user_staking_account) == *old(user_staking_account)
            && *final(stake_entry) == *old(stake_entry),
        r matches Ok(out) ==> {
            let settled = StakingPool {
                total_staked: (old(staking_pool).total_staked - old(stake_entry).amount) as u64,
                total_rewards_distributed: (old(staking_pool).total_rewards_distributed + out.rewards) as u64,
                ..*old(staking_pool)
            };
            &&& out.penalty_amount + out.user_receive_amount == old(stake_entry).amount
            &&& *final(stake_entry) == StakeEntry {
                    is_active: false,
                    total_claimed: (old(stake_entry).total_claimed + out.rewards) as u64,
                    ..*old(stake_entry)
                }
            &&& *final(user_staking_account) == UserStakingAccount {
                    total_staked: (old(user_staking_account).total_staked - old(stake_entry).amount) as u64,
                    total_claimed: (old(user_staking_account).total_claimed + out.rewards) as u64,
                    ..*old(user_staking_account)
                }
            &&& rate_slot_spec(settled, current_time) matches Ok((day, rate))
                && pool_rate_updated(settled, *final(staking_pool), current_time, day, rate)
        },
{
    if !(stake_entry.owner == *user) {
        return Err(StakingError::Unauthorized);
    }
    if !stake_entry.is_active {
        return Err(StakingError::StakeNotActive);
    }
    let rewards = calculate_claimable_rewards(stake_entry, staking_pool, current_time, true)?;
    let (penalty_amount, user_receive_amount) = calculate_unstake_penalty(
        stake_entry.amount, stake_entry.duration_months, stake_entry.start_time, current_time)?;
    let pool_total = match staking_pool.total_staked.checked_sub(stake_entry.amount) {
        Some(t) => t,
        None => return Err(StakingError::Underflow),
    };
    let distributed = match staking_pool.total_rewards_distributed.checked_add(rewards) {
        Some(t) => t,
        None => return Err(StakingError::Overflow),
    };
    let owner_total = match user_staking_account.total_staked.checked_sub(stake_entry.amount) {
        Some(t) => t,
        None => return Err(StakingError::Underflow),
    };
    let owner_claimed = match user_staking_account.total_claimed.checked_add(rewards) {
        Some(t) => t,
        None => return Err(StakingError::Overflow),
    };
    let entry_claimed = match stake_entry.total_claimed.checked_add(rewards) {
        Some(t) => t,
        None => return Err(StakingError::Overflow),
    };
    let previous_total = staking_pool.total_staked;
    let previous_distributed = staking_pool.total_rewards_distributed;
    staking_pool.total_staked = pool_total;
    staking_pool.total_rewards_distributed = distributed;
    if let Err(e) = update_daily_rate(staking_pool, current_time) {
        staking_pool.total_staked = previous_total;
        staking_pool.total_rewards_distributed = previous_distributed;
        return Err(e);
    }
    user_staking_account.total_staked = owner_total;
    user_staking_account.total_claimed = owner_claimed;
    stake_entry.is_active = false;
    stake_entry.total_claimed = entry_claimed;
    Ok(UnstakeOutcome { rewards, penalty_amount, user_receive_amount })
}


/// Outcome of claiming the rewards of `entry` by `user` at `now`.
pub open spec fn claim_spec(pool: StakingPool, acct: UserStakingAccount, entry: StakeEntry, user: Address, now: i64) -> Result<u64, StakingError> {
    if entry.owner.bytes@ != user.bytes@ {
        Err(StakingError::Unauthorized)
    } else if !entry.is_active {
        Err(StakingError::StakeNotActive)
    } else {
        match claimable_spec(entry, pool, now, false) {
            Err(e) => Err(e),
            Ok(rewards) => if entry.total_claimed + rewards > u64::MAX
                || acct.total_claimed + rewards > u64::MAX
                || pool.total_rewards_distributed + rewards > u64::MAX {
                Err(StakingError::Overflow)
            } else {
                let paid = StakingPool {
                    total_rewards_distributed: (pool.total_rewards_distributed + rewards) as u64,
                    ..pool
                };
                match rate_slot_spec(paid, now) {
                    Err(e) => Err(e),
                    Ok(_) => Ok(rewards),
                }
            },
        }
    }
}

/// Settles the rewards of the stake `stake_entry` of `user` up to the current
/// week: moves its week cursor forward to the current week, adds the rewards
/// to what the stake, the owner and the pool have paid, and refreshes today's
/// rate. Returns the amount to transfer to the owner (possibly zero); on
/// failure nothing changes.
pub fn claim(
    staking_pool: &mut StakingPool,
    user_staking_account: &mut UserStakingAccount,
    stake_entry: &mut StakeEntry,
    user: &Address,
    current_time: i64,
) -> (r: Result<u64, StakingError>)
    requires
        old(staking_pool).wf(),
    ensures
        r == claim_spec(*old(staking_pool), *old(user_staking_account), *old(stake_entry), *user, current_time),
        r is Ok && old(stake_entry).last_claim_week * SECONDS_PER_WEEK <= current_time - old(staking_pool).program_start_time
            ==> final(stake_entry).last_claim_week * SECONDS_PER_WEEK <= current_time - old(staking_pool).program_start_time,
        final(stake_entry).total_claimed >= old(stake_entry).total_claimed,
        final(user_staking_account).total_claimed >= old(user_staking_account).total_claimed,
        final(staking_pool).total_rewards_distributed >= old(staking_pool).total_rewards_distributed,
        final(staking_pool).wf(),
        r is Err ==> *final(staking_pool) == *old(staking_pool)
            && *final(user_staking_account) == *old(user_staking_account)
            && *final(stake_entry) == *old(stake_entry),
        r matches Ok(rewards) ==> {
            let paid = StakingPool {
                total_rewards_distributed: (old(staking_pool).total_rewards_distributed + rewards) as u64,
                ..*old(staking_pool)
            };
            let week = week_number_spec(old(staking_pool).program_start_time, current_time);
            &&& *final(stake_entry) == StakeEntry {
                    last_claim_time: current_time,
                    last_claim_week: if week > old(stake_entry).last_claim_week { week as u64 } else { old(stake_entry).last_claim_week },
                    total_claimed: (old(stake_entry).total_claimed + rewards) as u64,
                    ..*old(stake_entry)
                }
            &&& *final(user_staking_account) == UserStakingAccount {
                    total_claimed: (old(user_staking_account).total_claimed + rewards) as u64,
                    ..*old(user_staking_account)
                }
            &&& rate_slot_spec(paid, current_time) matches Ok((day, rate))
                && pool_rate_updated(paid, *final(staking_pool), current_time, day, rate)
        },
{
    if !(stake_entry.owner == *user) {
        return Err(StakingError::Unauthorized);
    }
    if !stake_entry.is_active {
        return Err(StakingError::StakeNotActive);
    }
    let rewards = calculate_claimable_rewards(stake_entry, staking_pool, current_time, false)?;
    let current_week = get_week_number(current_time, staking_pool.program_start_time)?;
    let entry_claimed = match stake_entry.total_claimed.checked_add(rewards) {
        Some(t) => t,
        None => return Err(StakingError::Overflow),
    };
    let owner_claimed = match user_staking_account.total_claimed.checked_add(rewards) {
        Some(t) => t,
        None => return Err(StakingError::Overflow),
    };
    let distributed = match staking_pool.total_rewards_distributed.checked_add(rewards) {
        Some(t) => t,
        None => return Err(StakingError::Overflow),
    };
    let previous_distributed = staking_pool.total_rewards_distributed;
    staking_pool.total_rewards_distributed = distributed;
    if let Err(e) = update_daily_rate(staking_pool, current_time) {
        staking_pool.total_rewards_distributed = previous_distributed;
        return Err(e);
    }
    stake_entry.last_claim_time = current_time;
    if current_week > stake_entry.last_claim_week {
        stake_entry.last_claim_week = current_week;
    }
    stake_entry.total_claimed = entry_claimed;
    user_staking_account.total_claimed = owner_claimed;
    Ok(rewards)
}

/// Allows the final sweep of the reward vault: only the pool's authority,
/// and only once the program's end date has come.
pub fn close_program(staking_pool: &StakingPool, authority: &Address, current_time: i64) -> (r: Result<(), StakingError>)
    ensures
        staking_pool.authority.bytes@ != authority.bytes@ ==> r == Err::<(), StakingError>(StakingError::Unauthorized),
        staking_pool.authority.bytes@ == authority.bytes@ && current_time < staking_pool.program_end_date
            ==> r == Err::<(), StakingError>(StakingError::ProgramNotEnded),
        staking_pool.authority.bytes@ == authority.bytes@ && current_time >= staking_pool.program_end_date
            ==> r is Ok,
{
    if !(staking_pool.authority == *authority) {
        return Err(StakingError::Unauthorized);
    }
    if current_time < staking_pool.program_end_date {
        return Err(StakingError::ProgramNotEnded);
    }
    Ok(())
}

/// Sets the normalization constant to `new_k` (by the pool's authority only,
/// and never to zero), then refreshes today's rate. On failure nothing changes.
pub fn update_normalization_k(staking_pool: &mut StakingPool, authority: &Address, new_k: u128, current_time: i64) -> (r: Result<(), StakingError>)
    requires
        old(staking_pool).wf(),
    ensures
        final(staking_pool).wf(),
        old(staking_pool).authority.bytes@ != authority.bytes@ ==> r == Err::<(), StakingError>(StakingError::Unauthorized),
        old(staking_pool).authority.bytes@ == authority.bytes@ && new_k == 0
            ==> r == Err::<(), StakingError>(StakingError::InvalidNormalizationK),
        old(staking_pool).authority.bytes@ == authority.bytes@ && new_k > 0 ==> {
            let tuned = StakingPool { normalization_k: new_k, ..*old(staking_pool) };
            match rate_slot_spec(tuned, current_time) {
                Err(e) => r == Err::<(), StakingError>(e),
                Ok((day, rate)) => r is Ok && pool_rate_updated(tuned, *final(staking_pool), current_time, day, rate),
            }
        },
        r is Err ==> *final(staking_pool) == *old(staking_pool),
{
    if !(staking_pool.authority == *authority) {
        return Err(StakingError::Unauthorized);
    }
    if new_k == 0 {
        return Err(StakingError::InvalidNormalizationK);
    }
    let old_k = staking_pool.normalization_k;
    staking_pool.normalization_k = new_k;
    if let Err(e) = update_daily_rate(staking_pool, current_time) {
        staking_pool.normalization_k = old_k;
        return Err(e);
    }
    Ok(())
}

/// Overwrites the stored rate of day `day_index` with `new_rate` (by the
/// pool's authority only), then refreshes today's rate. On failure nothing
/// changes.
pub fn update_daily_rate_at_index(
    staking_pool: &mut StakingPool,
    authority: &Address,
    day_index: u64,
    new_rate: u64,
    current_time: i64,
) -> (r: Result<(), StakingError>)
    requires
        old(staking_pool).wf(),
    ensures
        final(staking_pool).wf(),
        old(staking_pool).authority.bytes@ != authority.bytes@ ==> r == Err::<(), StakingError>(StakingError::Unauthorized),
        old(staking_pool).authority.bytes@ == authority.bytes@ && day_index >= MAX_DAILY_RATES
            ==> r == Err::<(), StakingError>(StakingError::DayIndexOutOfBounds),
        old(staking_pool).authority.bytes@ == authority.bytes@ && day_index < MAX_DAILY_RATES ==> {
            let overridden = StakingPool {
                daily_rates: final(staking_pool).daily_rates,
                last_update_time: final(staking_pool).last_update_time,
                ..*old(staking_pool)
            };
            let table = rates_with(old(staking_pool).daily_rates@, day_index as int, new_rate);
            match rate_slot_spec(*old(staking_pool), current_time) {
                Err(e) => r == Err::<(), StakingError>(e),
                Ok((day, rate)) => r is Ok && final(staking_pool).daily_rates@ == rates_with(table, day, rate)
                    && final(staking_pool).last_update_time == current_time
                    && *final(staking_pool) == overridden,
            }
        },
        r is Err ==> *final(staking_pool) == *old(staking_pool),
{
    if !(staking_pool.authority == *authority) {
        return Err(StakingError::Unauthorized);
    }
    if day_index >= MAX_DAILY_RATES as u64 {
        return Err(StakingError::DayIndexOutOfBounds);
    }
    let (today, base_apy) = daily_rate_slot(staking_pool, current_time)?;
    set_rate_slot(&mut staking_pool.daily_rates, day_index as usize, new_rate);
    set_rate_slot(&mut staking_pool.daily_rates, today as usize, base_apy);
    staking_pool.last_update_time = current_time;
    Ok(())
}

} // verus!

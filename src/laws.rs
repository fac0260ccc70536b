use vstd::prelude::*;
use crate::lifecycle::{penalty_rate_spec, MAX_PENALTY_PERCENT};
use crate::claim::{batch_spec, candidate_spec, claim_all_spec, in_order, lemma_batch_ok, settled_spec, StakeAccount};
use crate::error::StakingError;
use crate::lifecycle::{stake_spec, summary_after_stake};
use crate::pool::{pool_rate_updated, rate_slot_spec, rates_with};
use crate::accrual::{
    accrued_spec, carried_rate, claim_horizon, claimable_spec, first_unpaid_day, payable_end_day, rate_at,
};
use crate::schedule::{
    available_spec, day_index_spec, elapsed_ok, months_elapsed_spec, unlocked_spec, week_number_spec, SECONDS_PER_WEEK,
};
use crate::state::{Address, StakeEntry, StakingPool, UserStakingAccount};

verus! {

/// At a fixed time, available rewards are never negative and never grow when
/// more has been distributed: paying out `d2 - d1` more lowers them by exactly
/// that much, and if the larger payout still leaves a value, so does the smaller.
pub proof fn lemma_available_non_increasing(start: i64, d1: u64, d2: u64, now: i64)
    requires
        d1 <= d2,
    ensures
        available_spec(start, d2, now) matches Ok(a2) ==> (available_spec(start, d1, now) matches Ok(a1)
            && a2 >= 0 && a1 >= a2 && a1 - a2 == d2 - d1),
{
}

/// Refreshing the daily rate twice at the same time, with no change in
/// between, stores the same rate as refreshing it once: the second refresh
/// succeeds too, targets the same slot with the same rate, and leaves the
/// table as the first one left it.
pub proof fn lemma_update_daily_rate_idempotent(before: StakingPool, once: StakingPool, now: i64)
    requires
        rate_slot_spec(before, now) matches Ok((day, rate)) && pool_rate_updated(before, once, now, day, rate),
    ensures
        rate_slot_spec(once, now) == rate_slot_spec(before, now),
        rate_slot_spec(once, now) matches Ok((day, rate)) && rates_with(once.daily_rates@, day, rate) == once.daily_rates@,
{
    let (day, rate) = rate_slot_spec(before, now)->Ok_0;
    assert(rate_slot_spec(once, now) == rate_slot_spec(before, now));
    assert(rates_with(rates_with(before.daily_rates@, day, rate), day, rate) =~= rates_with(before.daily_rates@, day, rate));
}

/// The early-exit penalty rate is the maximum at day zero, never grows as
/// days pass, and is zero once the whole lock has elapsed.
pub proof fn lemma_penalty_rate_decays(duration_months: u8, e1: int, e2: int)
    requires
        duration_months > 0,
        0 <= e1 <= e2,
    ensures
        penalty_rate_spec(duration_months, 0) == MAX_PENALTY_PERCENT,
        penalty_rate_spec(duration_months, e2) <= penalty_rate_spec(duration_months, e1),
        penalty_rate_spec(duration_months, e1) <= MAX_PENALTY_PERCENT,
        e1 >= duration_months as int * 30 ==> penalty_rate_spec(duration_months, e1) == 0,
{
    let lock = duration_months as int * 30;
    assert(20 * lock / lock == 20) by (nonlinear_arith) requires lock > 0;
    if e2 < lock {
        assert(20 * (lock - e2) / lock <= 20 * (lock - e1) / lock) by (nonlinear_arith)
            requires lock > 0, 0 <= e1 <= e2 < lock;
    }
    if e1 < lock {
        assert(20 * (lock - e1) / lock <= 20) by (nonlinear_arith) requires lock > 0, 0 <= e1 < lock;
        assert(20 * (lock - e1) / lock >= 0) by (nonlinear_arith) requires lock > 0, 0 <= e1 < lock;
    }
}

/// A claim only pays for days that have fully elapsed: the days it settles
/// end at or before the current day.
pub proof fn lemma_paid_days_elapsed(start: i64, now: i64, is_unstaking: bool)
    requires
        elapsed_ok(start, now),
    ensures
        payable_end_day(claim_horizon(week_number_spec(start, now), is_unstaking)) <= day_index_spec(start, now),
        week_number_spec(start, now) * SECONDS_PER_WEEK <= now - start,
{
    let e = now - start;
    assert(7 * (e / 604800) <= e / 86400) by (nonlinear_arith) requires e >= 0;
    assert((e / 604800) * 604800 <= e) by (nonlinear_arith) requires e >= 0;
}

/// At a fixed time after the start, the available rewards are exactly what
/// the release schedule has unlocked minus what was paid out, whenever the
/// payout does not exceed the release.
pub proof fn lemma_available_exact(start: i64, distributed: u64, now: i64)
    requires
        elapsed_ok(start, now),
        distributed <= unlocked_spec(months_elapsed_spec(start, now)),
    ensures
        available_spec(start, distributed, now) matches Ok(r)
            && r + distributed == unlocked_spec(months_elapsed_spec(start, now)),
{
}

/// Two successive deposits by the same user, starting from a summary that
/// was never set up, receive the stake indices 0 and 1, and the summary then
/// counts two stakes: each deposit takes the count it observed and raises it.
pub proof fn lemma_successive_deposits_get_distinct_indices(
    pool0: StakingPool,
    pool1: StakingPool,
    acct0: UserStakingAccount,
    user: Address,
    pool_key: Address,
    program_id: Address,
    key0: Address,
    key1: Address,
    amount0: u64,
    amount1: u64,
    before0: u64,
    after0: u64,
    before1: u64,
    after1: u64,
    months0: u8,
    months1: u8,
    now0: i64,
    now1: i64,
)
    requires
        acct0.owner.is_zero(),
        stake_spec(pool0, acct0, user, pool_key, program_id, key0, amount0, before0, after0, months0, now0) is Ok,
        stake_spec(pool1, summary_after_stake(acct0, user, amount0), user, pool_key, program_id, key1, amount1,
            before1, after1, months1, now1) is Ok,
    ensures
        stake_spec(pool0, acct0, user, pool_key, program_id, key0, amount0, before0, after0, months0, now0)->Ok_0.stake_index == 0,
        stake_spec(pool1, summary_after_stake(acct0, user, amount0), user, pool_key, program_id, key1, amount1,
            before1, after1, months1, now1)->Ok_0.stake_index == 1,
        summary_after_stake(summary_after_stake(acct0, user, amount0), user, amount1).stake_count == 2,
{
    assert(!user.is_zero());
    assert(!summary_after_stake(acct0, user, amount0).owner.is_zero());
}

/// Accrual reads the rate table only below `bound`: two tables that agree
/// there give the same carried rates.
pub proof fn lemma_carried_agree(r1: Seq<u64>, r2: Seq<u64>, first_day: int, day: int, bound: int)
    requires
        day < bound,
        forall|i: int| i < bound ==> #[trigger] rate_at(r1, i) == rate_at(r2, i),
    ensures
        carried_rate(r1, first_day, day) == carried_rate(r2, first_day, day),
    decreases day - first_day + 1,
{
    if day >= first_day {
        assert(rate_at(r1, day) == rate_at(r2, day));
        lemma_carried_agree(r1, r2, first_day, day - 1, bound);
    }
}

/// Two rate tables that agree below `bound` give the same accrual over days
/// that end at or before `bound`.
pub proof fn lemma_accrued_agree(
    r1: Seq<u64>,
    r2: Seq<u64>,
    stake_amount: u64,
    duration_months: u8,
    normalization_k: u128,
    first_day: int,
    end_day: int,
    bound: int,
)
    requires
        end_day <= bound,
        forall|i: int| i < bound ==> #[trigger] rate_at(r1, i) == rate_at(r2, i),
    ensures
        accrued_spec(r1, stake_amount, duration_months, normalization_k, first_day, end_day)
            == accrued_spec(r2, stake_amount, duration_months, normalization_k, first_day, end_day),
    decreases end_day - first_day,
{
    if end_day > first_day {
        lemma_accrued_agree(r1, r2, stake_amount, duration_months, normalization_k, first_day, end_day - 1, bound);
        lemma_carried_agree(r1, r2, first_day, end_day - 1, bound);
    }
}

/// Refreshing today's rate (or paying out rewards) does not change what any
/// stake can claim at the same time: claims only read days that have ended.
pub proof fn lemma_claimable_unchanged_by_refresh(entry: StakeEntry, paid: StakingPool, refreshed: StakingPool, now: i64)
    requires
        rate_slot_spec(paid, now) matches Ok((day, rate)) && pool_rate_updated(paid, refreshed, now, day, rate),
    ensures
        claimable_spec(entry, refreshed, now, false) == claimable_spec(entry, paid, now, false),
{
    let (day, rate) = rate_slot_spec(paid, now)->Ok_0;
    let start = paid.program_start_time;
    assert(elapsed_ok(start, now));
    lemma_paid_days_elapsed(start, now, false);
    assert forall|i: int| i < day implies #[trigger] rate_at(refreshed.daily_rates@, i) == rate_at(paid.daily_rates@, i) by {
    }
    lemma_accrued_agree(refreshed.daily_rates@, paid.daily_rates@, entry.amount, entry.duration_months,
        paid.normalization_k, first_unpaid_day(entry),
        payable_end_day(claim_horizon(week_number_spec(start, now), false)), day);
}

/// A scan in which every candidate contributes nothing totals zero.
pub proof fn lemma_batch_all_zero(
    cands: Seq<StakeAccount>,
    n: int,
    user: Address,
    pool: StakingPool,
    pool_key: Address,
    program_id: Address,
    now: i64,
)
    requires
        0 <= n <= cands.len(),
        forall|p: int| 0 <= p < n ==> #[trigger] in_order(cands, p),
        forall|p: int| 0 <= p < n ==> #[trigger] candidate_spec(cands[p], user, pool, pool_key, program_id, now)
            == Ok::<u64, StakingError>(0u64),
    ensures
        batch_spec(cands, n, user, pool, pool_key, program_id, now) == Ok::<(int, Seq<usize>), StakingError>((0int, Seq::<usize>::empty())),
    decreases n,
{
    if n > 0 {
        lemma_batch_all_zero(cands, n - 1, user, pool, pool_key, program_id, now);
        assert(in_order(cands, n - 1));
        assert(candidate_spec(cands[n - 1], user, pool, pool_key, program_id, now) == Ok::<u64, StakingError>(0u64));
    }
}

/// After a successful claim of all rewards, no stake of the batch has anything
/// left to claim at the same time, so claiming all again at that time fails
/// with `NoRewardsAvailable` and pays nothing twice.
pub proof fn lemma_claim_all_leaves_nothing_to_claim(
    cands: Seq<StakeAccount>,
    settled: Seq<StakeAccount>,
    acct: UserStakingAccount,
    acct_after: UserStakingAccount,
    user: Address,
    pool: StakingPool,
    pool_after: StakingPool,
    pool_key: Address,
    program_id: Address,
    now: i64,
)
    requires
        cands.len() <= usize::MAX,
        claim_all_spec(cands, acct, user, pool, pool_key, program_id, now) is Ok,
        ({
            let idx = batch_spec(cands, cands.len() as int, user, pool, pool_key, program_id, now)->Ok_0.1;
            let total = claim_all_spec(cands, acct, user, pool, pool_key, program_id, now)->Ok_0.0;
            let week = week_number_spec(pool.program_start_time, now);
            let paid = StakingPool { total_rewards_distributed: (pool.total_rewards_distributed + total) as u64, ..pool };
            &&& settled.len() == cands.len()
            &&& forall|p: int| 0 <= p < cands.len() ==> #[trigger] settled[p] == if idx.contains(p as usize) {
                    settled_spec(cands[p], pool, now, week)
                } else {
                    cands[p]
                }
            &&& rate_slot_spec(paid, now) matches Ok((day, rate)) && pool_rate_updated(paid, pool_after, now, day, rate)
        }),
    ensures
        forall|p: int| 0 <= p < settled.len() && settled[p].entry.is_active
            ==> #[trigger] claimable_spec(settled[p].entry, pool_after, now, false) == Ok::<u64, StakingError>(0u64),
        claim_all_spec(settled, acct_after, user, pool_after, pool_key, program_id, now)
            == Err::<(u64, u64), StakingError>(StakingError::NoRewardsAvailable),
{
    let n = cands.len() as int;
    lemma_batch_ok(cands, n, user, pool, pool_key, program_id, now);
    let (t, idx) = batch_spec(cands, n, user, pool, pool_key, program_id, now)->Ok_0;
    let total = claim_all_spec(cands, acct, user, pool, pool_key, program_id, now)->Ok_0.0;
    let week = week_number_spec(pool.program_start_time, now);
    let paid = StakingPool { total_rewards_distributed: (pool.total_rewards_distributed + total) as u64, ..pool };
    assert(elapsed_ok(pool.program_start_time, now));
    lemma_paid_days_elapsed(pool.program_start_time, now, false);
    assert forall|p: int| 0 <= p < n implies
        #[trigger] candidate_spec(settled[p], user, pool_after, pool_key, program_id, now) == Ok::<u64, StakingError>(0u64)
        && (settled[p].entry.is_active ==> claimable_spec(settled[p].entry, pool_after, now, false) == Ok::<u64, StakingError>(0u64)) by {
        let e = settled[p].entry;
        lemma_claimable_unchanged_by_refresh(e, paid, pool_after, now);
        assert(claimable_spec(e, paid, now, false) == claimable_spec(e, pool, now, false));
        assert(candidate_spec(cands[p], user, pool, pool_key, program_id, now) is Ok);
        if idx.contains(p as usize) {
            let a = choose|a: int| 0 <= a < idx.len() && idx[a] == p as usize;
            assert(idx[a] == p as usize);
            assert(e.last_claim_week == week);
        }
    }
    assert forall|p: int| 0 <= p < n implies #[trigger] in_order(settled, p) by {
        assert(in_order(cands, p));
        if p > 0 {
            assert(settled[p - 1].index == cands[p - 1].index);
            assert(settled[p].index == cands[p].index);
        }
    }
    lemma_batch_all_zero(settled, n, user, pool_after, pool_key, program_id, now);
    assert forall|p: int| 0 <= p < settled.len() && settled[p].entry.is_active
        implies #[trigger] claimable_spec(settled[p].entry, pool_after, now, false) == Ok::<u64, StakingError>(0u64) by {
        assert(candidate_spec(settled[p], user, pool_after, pool_key, program_id, now) == Ok::<u64, StakingError>(0u64));
    }
}

} // verus!

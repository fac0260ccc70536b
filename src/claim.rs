use vstd::prelude::*;
use crate::accrual::{calculate_claimable_rewards, claimable_spec};
use crate::address::{derive_stake_address, stake_address_spec};
use crate::error::StakingError;
use crate::pool::{pool_rate_updated, rate_slot_spec, update_daily_rate};
use crate::schedule::{elapsed_ok, get_week_number, week_number_spec, SECONDS_PER_WEEK};
use crate::state::{Address, StakeEntry, StakingPool, UserStakingAccount};

verus! {

/// A stake record as supplied by a caller: the owner's stake number that
/// identifies it, the address it claims to live at, and its contents.
#[derive(Clone, Copy, Debug)]
pub struct StakeAccount {
    pub index: u64,
    pub key: Address,
    pub entry: StakeEntry,
}

/// Rewards of one candidate of a batch: its address must be the derived
/// address of `user`'s stake number `c.index`; an inactive stake contributes
/// nothing; an active one must belong to `user`.
pub open spec fn candidate_spec(
    c: StakeAccount,
    user: Address,
    pool: StakingPool,
    pool_key: Address,
    program_id: Address,
    now: i64,
) -> Result<u64, StakingError> {
    if stake_address_spec(user, pool_key, c.index, program_id) != Some(c.key.bytes@) {
        Err(StakingError::InvalidStakeIndex)
    } else if !c.entry.is_active {
        Ok(0u64)
    } else if c.entry.owner.bytes@ != user.bytes@ {
        Err(StakingError::Unauthorized)
    } else {
        claimable_spec(c.entry, pool, now, false)
    }
}

/// The candidate at position `p` names a later stake than the one before it.
pub open spec fn in_order(cands: Seq<StakeAccount>, p: int) -> bool {
    p == 0 || cands[p - 1].index < cands[p].index
}

/// Outcome of scanning the first `n` candidates: the total reward and the
/// positions of the candidates with a non-zero reward, or the first error.
/// Candidates must name strictly increasing stake numbers, so that no stake
/// is counted twice.
pub open spec fn batch_spec(
    cands: Seq<StakeAccount>,
    n: int,
    user: Address,
    pool: StakingPool,
    pool_key: Address,
    program_id: Address,
    now: i64,
) -> Result<(int, Seq<usize>), StakingError>
    decreases n,
{
    if n <= 0 {
        Ok((0int, Seq::<usize>::empty()))
    } else {
        match batch_spec(cands, n - 1, user, pool, pool_key, program_id, now) {
            Err(e) => Err(e),
            Ok((total, idx)) => if !in_order(cands, n - 1) {
                Err(StakingError::InvalidStakeIndex)
            } else {
                match candidate_spec(cands[n - 1], user, pool, pool_key, program_id, now) {
                Err(e) => Err(e),
                Ok(rw) => if rw == 0 {
                    Ok((total, idx))
                } else if total + rw > u64::MAX {
                    Err(StakingError::Overflow)
                } else {
                    Ok((total + rw, idx.push((n - 1) as usize)))
                },
                }
            },
        }
    }
}

/// Once the scan has failed, scanning further candidates keeps that error.
pub proof fn lemma_batch_error_sticks(
    cands: Seq<StakeAccount>,
    n: int,
    m: int,
    user: Address,
    pool: StakingPool,
    pool_key: Address,
    program_id: Address,
    now: i64,
)
    requires
        0 <= n <= m,
        batch_spec(cands, n, user, pool, pool_key, program_id, now) is Err,
    ensures
        batch_spec(cands, m, user, pool, pool_key, program_id, now) == batch_spec(cands, n, user, pool, pool_key, program_id, now),
    decreases m - n,
{
    if n < m {
        lemma_batch_error_sticks(cands, n, m - 1, user, pool, pool_key, program_id, now);
    }
}

/// Sums the claimable rewards (as of `current_time`, not unstaking) of the
/// stakes in `stake_accounts`, each checked against the derived address of
/// `user`'s stake with the number it names; the numbers must be strictly
/// increasing. Inactive records are skipped. Returns the total
/// and the positions of the records that have a non-zero reward.
pub fn calculate_total_rewards_for_claim_all(
    stake_accounts: &Vec<StakeAccount>,
    user: &Address,
    staking_pool: &StakingPool,
    staking_pool_key: &Address,
    program_id: &Address,
    current_time: i64,
) -> (r: Result<(u64, Vec<usize>), StakingError>)
    requires
        staking_pool.wf(),
    ensures
        match batch_spec(stake_accounts@, stake_accounts@.len() as int, *user, *staking_pool, *staking_pool_key, *program_id, current_time) {
            Err(e) => r == Err::<(u64, Vec<usize>), StakingError>(e),
            Ok((total, idx)) => r matches Ok((t, v)) && t == total && v@ == idx,
        },
{
    let mut total_rewards: u64 = 0;
    let mut valid_stake_indices: Vec<usize> = Vec::new();
    let mut index: usize = 0;
    while index < stake_accounts.len()
        invariant
            staking_pool.wf(),
            index <= stake_accounts@.len(),
            batch_spec(stake_accounts@, index as int, *user, *staking_pool, *staking_pool_key, *program_id, current_time)
                == Ok::<(int, Seq<usize>), StakingError>((total_rewards as int, valid_stake_indices@)),
        decreases stake_accounts@.len() - index,
    {
        let candidate = &stake_accounts[index];
        let ghost len = stake_accounts@.len() as int;
        if index > 0 && stake_accounts[index - 1].index >= candidate.index {
            proof {
                lemma_batch_error_sticks(stake_accounts@, index + 1, len, *user, *staking_pool, *staking_pool_key, *program_id, current_time);
            }
            return Err(StakingError::InvalidStakeIndex);
        }
        let expected = derive_stake_address(user, staking_pool_key, candidate.index, program_id);
        let matches_expected = match expected {
            Some(a) => candidate.key == a,
            None => false,
        };
        if !matches_expected {
            proof {
                lemma_batch_error_sticks(stake_accounts@, index + 1, len, *user, *staking_pool, *staking_pool_key, *program_id, current_time);
            }
            return Err(StakingError::InvalidStakeIndex);
        }
        if candidate.entry.is_active {
            if !(candidate.entry.owner == *user) {
                proof {
                    lemma_batch_error_sticks(stake_accounts@, index + 1, len, *user, *staking_pool, *staking_pool_key, *program_id, current_time);
                }
                return Err(StakingError::Unauthorized);
            }
            let rewards = match calculate_claimable_rewards(&candidate.entry, staking_pool, current_time, false) {
                Ok(rw) => rw,
                Err(e) => {
                    proof {
                        lemma_batch_error_sticks(stake_accounts@, index + 1, len, *user, *staking_pool, *staking_pool_key, *program_id, current_time);
                    }
                    return Err(e);
                }
            };
            if rewards > 0 {
                total_rewards = match total_rewards.checked_add(rewards) {
                    Some(t) => t,
                    None => {
                        proof {
                            lemma_batch_error_sticks(stake_accounts@, index + 1, len, *user, *staking_pool, *staking_pool_key, *program_id, current_time);
                        }
                        return Err(StakingError::Overflow);
                    }
                };
                valid_stake_indices.push(index);
            }
        }
        index = index + 1;
    }
    Ok((total_rewards, valid_stake_indices))
}

/// Total rewards that `user` could claim now over the given stake records.
pub fn get_total_claimable_rewards(
    stake_accounts: &Vec<StakeAccount>,
    user: &Address,
    staking_pool: &StakingPool,
    staking_pool_key: &Address,
    program_id: &Address,
    current_time: i64,
) -> (r: Result<u64, StakingError>)
    requires
        staking_pool.wf(),
    ensures
        match batch_spec(stake_accounts@, stake_accounts@.len() as int, *user, *staking_pool, *staking_pool_key, *program_id, current_time) {
            Err(e) => r == Err::<u64, StakingError>(e),
            Ok((total, idx)) => r == Ok::<u64, StakingError>(total as u64),
        },
{
    let (total_rewards, _) = calculate_total_rewards_for_claim_all(
        stake_accounts, user, staking_pool, staking_pool_key, program_id, current_time)?;
    Ok(total_rewards)
}


/// Claimable reward of `entry` at `now` when claiming (zero if it cannot be computed).
pub open spec fn claimable_value(entry: StakeEntry, pool: StakingPool, now: i64) -> int {
    match claimable_spec(entry, pool, now, false) {
        Ok(r) => r as int,
        Err(_) => 0,
    }
}

/// Sum of the claimable rewards of the candidates at the positions `idx`.
pub open spec fn sum_claimable(cands: Seq<StakeAccount>, idx: Seq<usize>, pool: StakingPool, now: i64) -> int
    decreases idx.len(),
{
    if idx.len() == 0 {
        0
    } else {
        sum_claimable(cands, idx.drop_last(), pool, now) + claimable_value(cands[idx.last() as int].entry, pool, now)
    }
}

/// What a successful scan of the first `n` candidates establishes: the
/// positions are increasing and in range, each names a valid, active stake of
/// `user` with a non-zero claimable reward, every other candidate has none,
/// and the total is the sum of the claimable rewards at those positions.
pub open spec fn batch_facts(
    cands: Seq<StakeAccount>,
    n: int,
    total: int,
    idx: Seq<usize>,
    user: Address,
    pool: StakingPool,
    pool_key: Address,
    program_id: Address,
    now: i64,
) -> bool {
    &&& 0 <= total <= u64::MAX
    &&& total == sum_claimable(cands, idx, pool, now)
    &&& forall|a: int| 0 <= a < idx.len() ==> idx[a] < n
    &&& forall|a: int, b: int| 0 <= a < b < idx.len() ==> idx[a] < idx[b]
    &&& forall|a: int| #![trigger idx[a]] 0 <= a < idx.len() ==> {
            &&& candidate_spec(cands[idx[a] as int], user, pool, pool_key, program_id, now)
                == Ok::<u64, StakingError>(claimable_value(cands[idx[a] as int].entry, pool, now) as u64)
            &&& claimable_value(cands[idx[a] as int].entry, pool, now) > 0
            &&& cands[idx[a] as int].entry.is_active
            &&& cands[idx[a] as int].entry.owner.bytes@ == user.bytes@
        }
    &&& forall|p: int| 0 <= p < n ==> #[trigger] in_order(cands, p)
    &&& forall|p: int| 0 <= p < n ==> (#[trigger] candidate_spec(cands[p], user, pool, pool_key, program_id, now)) is Ok
    &&& forall|p: int| 0 <= p < n && !idx.contains(p as usize)
            ==> #[trigger] candidate_spec(cands[p], user, pool, pool_key, program_id, now) == Ok::<u64, StakingError>(0u64)
}

/// A successful scan yields the facts of `batch_facts`.
pub proof fn lemma_batch_ok(
    cands: Seq<StakeAccount>,
    n: int,
    user: Address,
    pool: StakingPool,
    pool_key: Address,
    program_id: Address,
    now: i64,
)
    requires
        0 <= n <= cands.len(),
        cands.len() <= usize::MAX,
        batch_spec(cands, n, user, pool, pool_key, program_id, now) is Ok,
    ensures
        batch_spec(cands, n, user, pool, pool_key, program_id, now) matches Ok((total, idx))
            && batch_facts(cands, n, total, idx, user, pool, pool_key, program_id, now),
    decreases n,
{
    if n > 0 {
        lemma_batch_ok(cands, n - 1, user, pool, pool_key, program_id, now);
        let (t0, idx0) = batch_spec(cands, n - 1, user, pool, pool_key, program_id, now)->Ok_0;
        let c = candidate_spec(cands[n - 1], user, pool, pool_key, program_id, now);
        let rw = c->Ok_0;
        if rw != 0 {
            let idx1 = idx0.push((n - 1) as usize);
            let t1 = t0 + rw;
            assert(((n - 1) as usize) as int == n - 1);
            assert(idx1[idx0.len() as int] as int == n - 1);
            assert(idx1.drop_last() =~= idx0);
            assert(claimable_value(cands[n - 1].entry, pool, now) == rw);
            assert(t1 == sum_claimable(cands, idx1, pool, now));
            assert forall|a: int| 0 <= a < idx1.len() implies idx1[a] < n by {
                if a < idx0.len() {
                    assert(idx1[a] == idx0[a]);
                }
            }
            assert forall|a: int, b: int| 0 <= a < b < idx1.len() implies idx1[a] < idx1[b] by {
                assert(idx1[a] == idx0[a]);
                if b < idx0.len() {
                    assert(idx1[b] == idx0[b]);
                }
            }
            assert forall|a: int| #![trigger idx1[a]] 0 <= a < idx1.len() implies {
                &&& candidate_spec(cands[idx1[a] as int], user, pool, pool_key, program_id, now)
                    == Ok::<u64, StakingError>(claimable_value(cands[idx1[a] as int].entry, pool, now) as u64)
                &&& claimable_value(cands[idx1[a] as int].entry, pool, now) > 0
                &&& cands[idx1[a] as int].entry.is_active
                &&& cands[idx1[a] as int].entry.owner.bytes@ == user.bytes@
            } by {
                if a < idx0.len() {
                    assert(idx1[a] == idx0[a]);
                }
            }
            assert forall|p: int| 0 <= p < n && !idx1.contains(p as usize) implies
                #[trigger] candidate_spec(cands[p], user, pool, pool_key, program_id, now) == Ok::<u64, StakingError>(0u64) by {
                if idx0.contains(p as usize) {
                    let a = choose|a: int| 0 <= a < idx0.len() && idx0[a] == p as usize;
                    assert(idx1[a] == p as usize);
                }
                assert(p != n - 1) by {
                    assert(idx1[idx0.len() as int] == (n - 1) as usize);
                }
            }
            assert(batch_facts(cands, n, t1, idx1, user, pool, pool_key, program_id, now));
        } else {
            assert forall|p: int| 0 <= p < n && !idx0.contains(p as usize) implies
                #[trigger] candidate_spec(cands[p], user, pool, pool_key, program_id, now) == Ok::<u64, StakingError>(0u64) by {
            }
            assert(batch_facts(cands, n, t0, idx0, user, pool, pool_key, program_id, now));
        }
    }
}

/// A stake record after its rewards up to `week` were settled at `now`.
pub open spec fn settled_spec(c: StakeAccount, pool: StakingPool, now: i64, week: int) -> StakeAccount {
    StakeAccount {
        index: c.index,
        key: c.key,
        entry: StakeEntry {
            last_claim_time: now,
            last_claim_week: week as u64,
            total_claimed: (c.entry.total_claimed + claimable_value(c.entry, pool, now)) as u64,
            ..c.entry
        },
    }
}

/// Outcome of claiming all of `user`'s rewards over the candidates at `now`:
/// the total paid and the number of stakes settled.
pub open spec fn claim_all_spec(
    cands: Seq<StakeAccount>,
    acct: UserStakingAccount,
    user: Address,
    pool: StakingPool,
    pool_key: Address,
    program_id: Address,
    now: i64,
) -> Result<(u64, u64), StakingError> {
    match batch_spec(cands, cands.len() as int, user, pool, pool_key, program_id, now) {
        Err(e) => Err(e),
        Ok((total, idx)) => if total == 0 {
            Err(StakingError::NoRewardsAvailable)
        } else if !elapsed_ok(pool.program_start_time, now) {
            Err(StakingError::Underflow)
        } else if (exists|a: int| 0 <= a < idx.len()
            && #[trigger] cands[idx[a] as int].entry.total_claimed + claimable_value(cands[idx[a] as int].entry, pool, now) > u64::MAX)
            || acct.total_claimed + total > u64::MAX
            || pool.total_rewards_distributed + total > u64::MAX {
            Err(StakingError::Overflow)
        } else {
            match rate_slot_spec(StakingPool { total_rewards_distributed: (pool.total_rewards_distributed + total) as u64, ..pool }, now) {
                Err(e) => Err(e),
                Ok(_) => Ok((total as u64, idx.len() as u64)),
            }
        },
    }
}

/// Claims the rewards of all of `user`'s stakes among `stake_accounts` at once
/// (each checked as `calculate_total_rewards_for_claim_all` does). Fails
/// with `NoRewardsAvailable` when there is nothing to claim. Every stake with
/// a reward has its cursor moved to the current week and its reward added to
/// what it has been paid; the owner's and the pool's totals grow by the sum,
/// and today's rate is refreshed. Returns the sum, to be paid in a single
/// transfer, and the number of stakes settled. On failure nothing changes.
pub fn claim_all(
    staking_pool: &mut StakingPool,
    user_staking_account: &mut UserStakingAccount,
    stake_accounts: &mut Vec<StakeAccount>,
    user: &Address,
    staking_pool_key: &Address,
    program_id: &Address,
    current_time: i64,
) -> (r: Result<(u64, u64), StakingError>)
    requires
        old(staking_pool).wf(),
    ensures
        r == claim_all_spec(old(stake_accounts)@, *old(user_staking_account), *user, *old(staking_pool),
            *staking_pool_key, *program_id, current_time),
        final(staking_pool).wf(),
        final(stake_accounts)@.len() == old(stake_accounts)@.len(),
        forall|p: int| 0 <= p < old(stake_accounts)@.len() ==>
            #[trigger] final(stake_accounts)@[p].entry.total_claimed >= old(stake_accounts)@[p].entry.total_claimed,
        final(user_staking_account).total_claimed >= old(user_staking_account).total_claimed,
        final(staking_pool).total_rewards_distributed >= old(staking_pool).total_rewards_distributed,
        r is Err ==> *final(staking_pool) == *old(staking_pool)
            && *final(user_staking_account) == *old(user_staking_account)
            && final(stake_accounts)@ == old(stake_accounts)@,
        r matches Ok((total, count)) ==> {
            let idx = batch_spec(old(stake_accounts)@, old(stake_accounts)@.len() as int, *user, *old(staking_pool),
                *staking_pool_key, *program_id, current_time)->Ok_0.1;
            let week = week_number_spec(old(staking_pool).program_start_time, current_time);
            let paid = StakingPool {
                total_rewards_distributed: (old(staking_pool).total_rewards_distributed + total) as u64,
                ..*old(staking_pool)
            };
            &&& total == sum_claimable(old(stake_accounts)@, idx, *old(staking_pool), current_time)
            &&& forall|p: int| 0 <= p < old(stake_accounts)@.len() && idx.contains(p as usize) ==>
                    #[trigger] final(stake_accounts)@[p].entry.last_claim_week * SECONDS_PER_WEEK
                        <= current_time - old(staking_pool).program_start_time
            &&& final(stake_accounts)@.len() == old(stake_accounts)@.len()
            &&& forall|p: int| 0 <= p < old(stake_accounts)@.len() ==> #[trigger] final(stake_accounts)@[p] == if idx.contains(p as usize) {
                    settled_spec(old(stake_accounts)@[p], *old(staking_pool), current_time, week)
                } else {
                    old(stake_accounts)@[p]
                }
            &&& *final(user_staking_account) == UserStakingAccount {
                    total_claimed: (old(user_staking_account).total_claimed + total) as u64,
                    ..*old(user_staking_account)
                }
            &&& rate_slot_spec(paid, current_time) matches Ok((day, rate))
                && pool_rate_updated(paid, *final(staking_pool), current_time, day, rate)
        },
{
    let (total_rewards, valid_stake_indices) = calculate_total_rewards_for_claim_all(
        stake_accounts, user, staking_pool, staking_pool_key, program_id, current_time)?;
    let ghost cands = stake_accounts@;
    let ghost idx = valid_stake_indices@;
    let ghost n_cands = stake_accounts.len();
    proof {
        assert(cands.len() == n_cands);
        lemma_batch_ok(cands, cands.len() as int, *user, *staking_pool, *staking_pool_key, *program_id, current_time);
    }
    if total_rewards == 0 {
        return Err(StakingError::NoRewardsAvailable);
    }
    let current_week = get_week_number(current_time, staking_pool.program_start_time)?;

    let mut updated: Vec<StakeAccount> = Vec::new();
    let mut i: usize = 0;
    let mut j: usize = 0;
    while i < stake_accounts.len()
        invariant
            staking_pool.wf(),
            cands == stake_accounts@,
            idx == valid_stake_indices@,
            batch_spec(cands, cands.len() as int, *user, *staking_pool, *staking_pool_key, *program_id, current_time)
                == Ok::<(int, Seq<usize>), StakingError>((total_rewards as int, idx)),
            batch_facts(cands, cands.len() as int, total_rewards as int, idx, *user, *staking_pool, *staking_pool_key, *program_id, current_time),
            total_rewards > 0,
            elapsed_ok(staking_pool.program_start_time, current_time),
            current_week == week_number_spec(staking_pool.program_start_time, current_time),
            i <= cands.len(),
            j <= idx.len(),
            updated@.len() == i,
            forall|a: int| 0 <= a < j ==> idx[a] < i,
            forall|a: int| j <= a < idx.len() ==> idx[a] >= i,
            forall|a: int| 0 <= a < j ==> cands[idx[a] as int].entry.total_claimed
                + claimable_value(cands[idx[a] as int].entry, *staking_pool, current_time) <= u64::MAX,
            forall|p: int| 0 <= p < i ==> #[trigger] updated@[p] == if idx.contains(p as usize) {
                settled_spec(cands[p], *staking_pool, current_time, current_week as int)
            } else {
                cands[p]
            },
        decreases cands.len() - i,
    {
        let c = stake_accounts[i];
        if j < valid_stake_indices.len() && valid_stake_indices[j] == i {
            let rewards = match calculate_claimable_rewards(&c.entry, staking_pool, current_time, false) {
                Ok(rw) => rw,
                Err(_) => {
                    proof {
                        assert(idx[j as int] == i);
                        assert(claimable_value(cands[i as int].entry, *staking_pool, current_time) > 0);
                    }
                    0
                }
            };
            assert(rewards == claimable_value(cands[i as int].entry, *staking_pool, current_time));
            let claimed = match c.entry.total_claimed.checked_add(rewards) {
                Some(t) => t,
                None => {
                    assert(idx[j as int] == i);
                    return Err(StakingError::Overflow);
                }
            };
            let settled = StakeAccount {
                index: c.index,
                key: c.key,
                entry: StakeEntry {
                    last_claim_time: current_time,
                    last_claim_week: current_week,
                    total_claimed: claimed,
                    ..c.entry
                },
            };
            updated.push(settled);
            proof {
                assert(idx.contains(i));
            }
            j = j + 1;
        } else {
            updated.push(c);
            proof {
                if idx.contains(i) {
                    let a = choose|a: int| 0 <= a < idx.len() && idx[a] == i;
                    if a < j {
                    } else if a > j {
                        assert(idx[j as int] < idx[a]);
                    }
                }
            }
        }
        i = i + 1;
    }
    proof {
        if j < idx.len() {
            assert(idx[j as int] < cands.len());
        }
        assert(!(exists|a: int| 0 <= a < idx.len()
            && #[trigger] cands[idx[a] as int].entry.total_claimed + claimable_value(cands[idx[a] as int].entry, *staking_pool, current_time) > u64::MAX));
    }
    let owner_claimed = match user_staking_account.total_claimed.checked_add(total_rewards) {
        Some(t) => t,
        None => return Err(StakingError::Overflow),
    };
    let distributed = match staking_pool.total_rewards_distributed.checked_add(total_rewards) {
        Some(t) => t,
        None => return Err(StakingError::Overflow),
    };
    let previous_distributed = staking_pool.total_rewards_distributed;
    staking_pool.total_rewards_distributed = distributed;
    if let Err(e) = update_daily_rate(staking_pool, current_time) {
        staking_pool.total_rewards_distributed = previous_distributed;
        return Err(e);
    }
    user_staking_account.total_claimed = owner_claimed;
    *stake_accounts = updated;
    Ok((total_rewards, valid_stake_indices.len() as u64))
}

} // verus!

use vstd::prelude::*;
use crate::schedule::MAX_DAILY_RATES;

verus! {

/// A 32-byte account identity (a public key or a derived address).
#[derive(Clone, Copy, Debug)]
pub struct Address {
    pub bytes: [u8; 32],
}

impl Address {
    pub fn new(bytes: [u8; 32]) -> (r: Address)
        ensures
            r.bytes@ == bytes@,
    {
        Address { bytes }
    }

    /// The all-zero address, used as "not yet set".
    pub fn zero() -> (r: Address)
        ensures
            r.bytes@ == Seq::new(32, |i: int| 0u8),
    {
        let r = Address { bytes: [0u8; 32] };
        assert(r.bytes@ =~= Seq::new(32, |i: int| 0u8));
        r
    }

    pub open spec fn is_zero(&self) -> bool {
        forall|i: int| 0 <= i < 32 ==> self.bytes@[i] == 0u8
    }
}

impl PartialEq for Address {
    fn eq(&self, o: &Address) -> (r: bool)
        ensures
            r == (self.bytes@ == o.bytes@),
    {
        let mut i: usize = 0;
        while i < 32
            invariant
                i <= 32,
                forall|j: int| 0 <= j < i ==> self.bytes@[j] == o.bytes@[j],
            decreases 32 - i,
        {
            if self.bytes[i] != o.bytes[i] {
                return false;
            }
            i = i + 1;
        }
        assert(self.bytes@ =~= o.bytes@);
        true
    }
}

impl vstd::std_specs::cmp::PartialEqSpecImpl for Address {
    open spec fn obeys_eq_spec() -> bool {
        true
    }

    open spec fn eq_spec(&self, o: &Address) -> bool {
        self.bytes@ == o.bytes@
    }
}

/// The shared state of one reward program.
#[derive(Clone, Debug)]
pub struct StakingPool {
    pub authority: Address,
    pub stake_mint: Address,
    pub total_staked: u64,
    pub total_rewards_distributed: u64,
    pub last_update_time: i64,
    pub program_start_time: i64,
    pub program_end_date: i64,
    pub treasury_address: Address,
    pub normalization_k: u128,
    pub daily_rates: Vec<u64>,
}

impl StakingPool {
    /// The normalization constant is positive and the rate table stays
    /// within its horizon.
    pub open spec fn wf(&self) -> bool {
        &&& self.normalization_k > 0
        &&& self.daily_rates@.len() <= MAX_DAILY_RATES
    }
}

/// Per-owner aggregates of all the owner's stake positions.
#[derive(Clone, Copy, Debug)]
pub struct UserStakingAccount {
    pub owner: Address,
    pub stake_count: u64,
    pub total_staked: u64,
    pub total_claimed: u64,
}

/// One locked deposit and its accrual cursor.
#[derive(Clone, Copy, Debug)]
pub struct StakeEntry {
    pub owner: Address,
    pub stake_index: u64,
    pub amount: u64,
    pub start_time: i64,
    pub duration_months: u8,
    pub last_claim_time: i64,
    pub last_claim_week: u64,
    pub is_active: bool,
    pub total_claimed: u64,
}

} // verus!

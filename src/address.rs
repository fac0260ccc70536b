use vstd::prelude::*;
use anchor_lang::solana_program::pubkey::Pubkey;
use crate::state::Address;

verus! {

/// The program address that the runtime derives from `seeds` under
/// `program_id`, if one exists.
pub uninterp spec fn program_address_of(seeds: Seq<Seq<u8>>, program_id: Seq<u8>) -> Option<Seq<u8>>;

/// Relies on solana_program's `Pubkey::try_find_program_address`: the first
/// off-curve address found for `seeds` under `program_id`, a function of those
/// bytes alone; `None` when no bump seed gives one.
#[verifier::external_body]
fn find_program_address(seeds: &Vec<Vec<u8>>, program_id: &Address) -> (r: Option<Address>)
    ensures
        match r {
            Some(a) => program_address_of(seeds@.map_values(|s: Vec<u8>| s@), program_id.bytes@) == Some(a.bytes@),
            None => program_address_of(seeds@.map_values(|s: Vec<u8>| s@), program_id.bytes@) == None::<Seq<u8>>,
        },
{
    let seed_slices: Vec<&[u8]> = seeds.iter().map(|s| s.as_slice()).collect();
    match Pubkey::try_find_program_address(&seed_slices, &Pubkey::new_from_array(program_id.bytes)) {
        Some((key, _bump)) => Some(Address { bytes: key.to_bytes() }),
        None => None,
    }
}

/// Little-endian bytes of `x`, `n` of them.
pub open spec fn le_bytes(x: nat, n: nat) -> Seq<u8>
    decreases n,
{
    if n == 0 {
        Seq::empty()
    } else {
        seq![(x % 256) as u8] + le_bytes(x / 256, (n - 1) as nat)
    }
}

/// The seed prefix of stake records: the bytes of "stake_entry".
pub open spec fn stake_seed_prefix() -> Seq<u8> {
    seq![115u8, 116, 97, 107, 101, 95, 101, 110, 116, 114, 121]
}

/// The seeds from which a stake record's address is derived.
pub open spec fn stake_seeds(owner: Address, pool_key: Address, index: u64) -> Seq<Seq<u8>> {
    seq![stake_seed_prefix(), owner.bytes@, pool_key.bytes@, le_bytes(index as nat, 8)]
}

/// Address of the stake record number `index` of `owner` in the pool `pool_key`.
pub open spec fn stake_address_spec(owner: Address, pool_key: Address, index: u64, program_id: Address) -> Option<Seq<u8>> {
    program_address_of(stake_seeds(owner, pool_key, index), program_id.bytes@)
}

/// The 8 little-endian bytes of `x`.
pub fn u64_le_bytes(x: u64) -> (r: Vec<u8>)
    ensures
        r@ == le_bytes(x as nat, 8),
{
    let mut out: Vec<u8> = Vec::new();
    let mut v: u64 = x;
    let mut i: usize = 0;
    while i < 8
        invariant
            i <= 8,
            out@ + le_bytes(v as nat, (8 - i) as nat) == le_bytes(x as nat, 8),
        decreases 8 - i,
    {
        let ghost before = out@;
        out.push((v % 256) as u8);
        assert(le_bytes(v as nat, (8 - i) as nat) == seq![(v as nat % 256) as u8] + le_bytes(v as nat / 256, (8 - i - 1) as nat));
        assert(out@ + le_bytes(v as nat / 256, (8 - i - 1) as nat) =~= before + le_bytes(v as nat, (8 - i) as nat));
        v = v / 256;
        i = i + 1;
    }
    assert(out@ =~= out@ + le_bytes(v as nat, 0));
    out
}

/// Derives the address of stake record number `index` of `owner` in the pool
/// `pool_key`, owned by the program `program_id`.
pub fn derive_stake_address(owner: &Address, pool_key: &Address, index: u64, program_id: &Address) -> (r: Option<Address>)
    ensures
        match r {
            Some(a) => stake_address_spec(*owner, *pool_key, index, *program_id) == Some(a.bytes@),
            None => stake_address_spec(*owner, *pool_key, index, *program_id) == None::<Seq<u8>>,
        },
{
    let prefix: Vec<u8> = vec![115u8, 116, 97, 107, 101, 95, 101, 110, 116, 114, 121];
    let mut owner_bytes: Vec<u8> = Vec::new();
    let mut pool_bytes: Vec<u8> = Vec::new();
    let mut i: usize = 0;
    while i < 32
        invariant
            i <= 32,
            owner_bytes@ == owner.bytes@.subrange(0, i as int),
            pool_bytes@ == pool_key.bytes@.subrange(0, i as int),
        decreases 32 - i,
    {
        owner_bytes.push(owner.bytes[i]);
        pool_bytes.push(pool_key.bytes[i]);
        assert(owner_bytes@ =~= owner.bytes@.subrange(0, i + 1));
        assert(pool_bytes@ =~= pool_key.bytes@.subrange(0, i + 1));
        i = i + 1;
    }
    assert(owner_bytes@ =~= owner.bytes@);
    assert(pool_bytes@ =~= pool_key.bytes@);
    let index_bytes = u64_le_bytes(index);
    let seeds: Vec<Vec<u8>> = vec![prefix, owner_bytes, pool_bytes, index_bytes];
    assert(seeds@.map_values(|s: Vec<u8>| s@) =~= stake_seeds(*owner, *pool_key, index));
    find_program_address(&seeds, program_id)
}

} // verus!

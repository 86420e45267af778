//! Deterministic account addresses of the ledger program.
//!
//! The ledger keeps each market, bet, and the treasury in an account
//! whose address is derived from fixed seed strings plus the market id,
//! the bettor's wallet, or the market's own address.  The off-chain
//! side reproduces this derivation to locate state without a lookup
//! table; the seed layout is part of the wire contract, and only the
//! hash-based search itself is delegated to the ledger SDK.

use vstd::prelude::*;
use vstd::bytes::{spec_u64_to_le_bytes, u64_to_le_bytes};

verus! {

/// What the ledger SDK's program-address search returns for given seeds
/// and program id: a 32-byte address and its bump seed, or nothing when
/// no viable bump exists.  The result depends on the arguments alone.
pub uninterp spec fn program_address_of(seeds: Seq<Seq<u8>>, program_id: Seq<u8>) -> Option<
    (Seq<u8>, u8),
>;

/// The byte contents of a seed list.
pub open spec fn seeds_view(seeds: Seq<Vec<u8>>) -> Seq<Seq<u8>> {
    seeds.map_values(|s: Vec<u8>| s@)
}

/// Relies on `solana_sdk`'s `Pubkey::try_find_program_address`: a pure
/// search over the seeds and program id, returning the derived address
/// and bump seed, or `None` when no viable bump exists.
#[verifier::external_body]
fn try_find_program_address(seeds: &Vec<Vec<u8>>, program_id: &[u8; 32]) -> (r: Option<
    ([u8; 32], u8),
>)
    ensures
        r matches Some(p) ==> program_address_of(seeds_view(seeds@), program_id@) == Some(
            (p.0@, p.1),
        ),
        r is None ==> program_address_of(seeds_view(seeds@), program_id@) is None,
{
    let pid = solana_sdk::pubkey::Pubkey::new_from_array(*program_id);
    let seed_slices: Vec<&[u8]> = seeds.iter().map(|s| s.as_slice()).collect();
    solana_sdk::pubkey::Pubkey::try_find_program_address(&seed_slices, &pid)
        .map(|(address, bump)| (address.to_bytes(), bump))
}

/// The seed prefix of market accounts: the bytes of `"market"`.
pub open spec fn spec_market_seed() -> Seq<u8> {
    seq![109u8, 97u8, 114u8, 107u8, 101u8, 116u8]
}

/// The seed prefix of bet accounts: the bytes of `"bet"`.
pub open spec fn spec_bet_seed() -> Seq<u8> {
    seq![98u8, 101u8, 116u8]
}

/// The seed of the treasury account: the bytes of `"treasury"`.
pub open spec fn spec_treasury_seed() -> Seq<u8> {
    seq![116u8, 114u8, 101u8, 97u8, 115u8, 117u8, 114u8, 121u8]
}

/// The seed list of a market account: the prefix and the market id's
/// little-endian bytes.
pub open spec fn spec_market_pda_seeds(market_id: u64) -> Seq<Seq<u8>> {
    seq![spec_market_seed(), spec_u64_to_le_bytes(market_id)]
}

/// The seed list of a bet account: the prefix, the bettor's wallet
/// address, and the market's account address.
pub open spec fn spec_bet_pda_seeds(user: Seq<u8>, market: Seq<u8>) -> Seq<Seq<u8>> {
    seq![spec_bet_seed(), user, market]
}

/// The seed list of the treasury account.
pub open spec fn spec_treasury_pda_seeds() -> Seq<Seq<u8>> {
    seq![spec_treasury_seed()]
}

fn market_seed() -> (r: Vec<u8>)
    ensures
        r@ == spec_market_seed(),
{
    let mut s: Vec<u8> = Vec::new();
    s.push(109);
    s.push(97);
    s.push(114);
    s.push(107);
    s.push(101);
    s.push(116);
    proof {
        assert(s@ =~= spec_market_seed());
    }
    s
}

fn bet_seed() -> (r: Vec<u8>)
    ensures
        r@ == spec_bet_seed(),
{
    let mut s: Vec<u8> = Vec::new();
    s.push(98);
    s.push(101);
    s.push(116);
    proof {
        assert(s@ =~= spec_bet_seed());
    }
    s
}

fn treasury_seed() -> (r: Vec<u8>)
    ensures
        r@ == spec_treasury_seed(),
{
    let mut s: Vec<u8> = Vec::new();
    s.push(116);
    s.push(114);
    s.push(101);
    s.push(97);
    s.push(115);
    s.push(117);
    s.push(114);
    s.push(121);
    proof {
        assert(s@ =~= spec_treasury_seed());
    }
    s
}

/// Derives a market account's address from its market id.
pub fn derive_market_pda(program_id: &[u8; 32], market_id: u64) -> (r: Option<([u8; 32], u8)>)
    ensures
        r matches Some(p) ==> program_address_of(spec_market_pda_seeds(market_id), program_id@)
            == Some((p.0@, p.1)),
        r is None ==> program_address_of(spec_market_pda_seeds(market_id), program_id@) is None,
{
    let mut seeds: Vec<Vec<u8>> = Vec::new();
    seeds.push(market_seed());
    seeds.push(u64_to_le_bytes(market_id));
    proof {
        assert(seeds_view(seeds@) =~= spec_market_pda_seeds(market_id));
    }
    try_find_program_address(&seeds, program_id)
}

/// Derives a bet account's address from the bettor's wallet address and
/// the market's account address.
pub fn derive_bet_pda(program_id: &[u8; 32], user: &Vec<u8>, market: &Vec<u8>) -> (r: Option<
    ([u8; 32], u8),
>)
    ensures
        r matches Some(p) ==> program_address_of(
            spec_bet_pda_seeds(user@, market@),
            program_id@,
        ) == Some((p.0@, p.1)),
        r is None ==> program_address_of(spec_bet_pda_seeds(user@, market@), program_id@)
            is None,
{
    let mut seeds: Vec<Vec<u8>> = Vec::new();
    seeds.push(bet_seed());
    seeds.push(clone_bytes(user));
    seeds.push(clone_bytes(market));
    proof {
        assert(seeds_view(seeds@) =~= spec_bet_pda_seeds(user@, market@));
    }
    try_find_program_address(&seeds, program_id)
}

/// Derives the treasury account's address.
pub fn derive_treasury_pda(program_id: &[u8; 32]) -> (r: Option<([u8; 32], u8)>)
    ensures
        r matches Some(p) ==> program_address_of(spec_treasury_pda_seeds(), program_id@) == Some(
            (p.0@, p.1),
        ),
        r is None ==> program_address_of(spec_treasury_pda_seeds(), program_id@) is None,
{
    let mut seeds: Vec<Vec<u8>> = Vec::new();
    seeds.push(treasury_seed());
    proof {
        assert(seeds_view(seeds@) =~= spec_treasury_pda_seeds());
    }
    try_find_program_address(&seeds, program_id)
}

/// Copies a byte vector.
pub fn clone_bytes(src: &Vec<u8>) -> (r: Vec<u8>)
    ensures
        r@ == src@,
{
    let mut out: Vec<u8> = Vec::new();
    let mut i: usize = 0;
    while i < src.len()
        invariant
            i <= src@.len(),
            out@ == src@.subrange(0, i as int),
        decreases src@.len() - i,
    {
        out.push(src[i]);
        i = i + 1;
        proof {
            assert(src@.subrange(0, i as int) =~= src@.subrange(0, i - 1) + seq![src@[i - 1]]);
        }
    }
    proof {
        assert(src@.subrange(0, src@.len() as int) =~= src@);
    }
    out
}

} // verus!

//! Program-derived addresses. Deriving an address hashes the seeds, so
//! the derivation itself is trusted to the runtime library; everything
//! around it is verified against the derivation's defining property.

use vstd::prelude::*;

use crate::address::Address;

verus! {

/// The address that `create_program_address` derives from seeds and a
/// program id, or `None` where the derivation is rejected (over-long
/// seeds, or a hash that lands on the curve). The result is a pure
/// function of its arguments.
pub uninterp spec fn pda_create(seeds: Seq<Seq<u8>>, program_id: Address) -> Option<Address>;

/// `bump` is the canonical bump for the seed list: it derives, and no
/// higher bump does. The search never tries bump zero.
pub open spec fn canonical_bump(seeds: Seq<Seq<u8>>, program_id: Address, bump: u8) -> bool {
    &&& 1 <= bump
    &&& pda_create(seeds.push(seq![bump]), program_id) is Some
    &&& forall|b: u8| bump < b ==> pda_create(seeds.push(seq![b]), program_id) is None
}

/// At most one bump is canonical for a seed list.
pub proof fn lemma_canonical_bump_unique(seeds: Seq<Seq<u8>>, program_id: Address, b1: u8, b2: u8)
    requires
        canonical_bump(seeds, program_id, b1),
        canonical_bump(seeds, program_id, b2),
    ensures
        b1 == b2,
{
    if b1 < b2 {
        assert(pda_create(seeds.push(seq![b2]), program_id) is None);
    } else if b2 < b1 {
        assert(pda_create(seeds.push(seq![b1]), program_id) is None);
    }
}

/// Relies on `Pubkey::create_program_address`: derives the program
/// address for the full seed list, erring on invalid seeds or a
/// point on the curve; the result depends on the arguments alone.
#[verifier::external_body]
pub(crate) fn create_program_address(seeds: &Vec<Vec<u8>>, program_id: &Address) -> (r: Option<Address>)
    ensures
        r == pda_create(seeds@.map_values(|s: Vec<u8>| s@), *program_id),
{
    let mut pb = [0u8; 32];
    pb[..16].copy_from_slice(&program_id.lo.to_le_bytes());
    pb[16..].copy_from_slice(&program_id.hi.to_le_bytes());
    let pk = solana_program::pubkey::Pubkey::new_from_array(pb);
    let refs: Vec<&[u8]> = seeds.iter().map(|s| s.as_slice()).collect();
    match solana_program::pubkey::Pubkey::create_program_address(&refs, &pk) {
        Ok(a) => {
            let ab = a.to_bytes();
            let lo = u128::from_le_bytes(ab[0..16].try_into().unwrap());
            let hi = u128::from_le_bytes(ab[16..32].try_into().unwrap());
            Some(Address { lo, hi })
        },
        Err(_) => None,
    }
}

/// Relies on `Pubkey::try_find_program_address`: walks the bump seeds
/// downward from 255 to 1 and returns the first for which
/// `create_program_address` on `seeds + [bump]` succeeds, together
/// with that derived address; `None` when no bump from 1 to 255
/// derives (bump zero is never tried, and a seed-shape error fails
/// every bump alike).
#[verifier::external_body]
pub(crate) fn try_find_program_address(seeds: &Vec<Vec<u8>>, program_id: &Address) -> (r: Option<
    (Address, u8),
>)
    ensures
        r matches Some(p) ==> canonical_bump(
            seeds@.map_values(|s: Vec<u8>| s@),
            *program_id,
            p.1,
        ) && pda_create(
            seeds@.map_values(|s: Vec<u8>| s@).push(seq![p.1]),
            *program_id,
        ) == Some(p.0),
        r is None ==> forall|b: u8|
            1 <= b ==> pda_create(
                seeds@.map_values(|s: Vec<u8>| s@).push(seq![b]),
                *program_id,
            ) is None,
{
    let mut pb = [0u8; 32];
    pb[..16].copy_from_slice(&program_id.lo.to_le_bytes());
    pb[16..].copy_from_slice(&program_id.hi.to_le_bytes());
    let pk = solana_program::pubkey::Pubkey::new_from_array(pb);
    let refs: Vec<&[u8]> = seeds.iter().map(|s| s.as_slice()).collect();
    match solana_program::pubkey::Pubkey::try_find_program_address(&refs, &pk) {
        Some((a, bump)) => {
            let ab = a.to_bytes();
            let lo = u128::from_le_bytes(ab[0..16].try_into().unwrap());
            let hi = u128::from_le_bytes(ab[16..32].try_into().unwrap());
            Some((Address { lo, hi }, bump))
        },
        None => None,
    }
}

} // verus!

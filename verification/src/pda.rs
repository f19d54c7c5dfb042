//! Seeds of the program's accounts and the addresses derived from them.
//!
//! Every account of the program lives at a program address: an address
//! derived from a list of seeds and the program's id, with one more seed, the
//! bump, chosen so that the address has no private key.
use vstd::prelude::*;

use anchor_lang::prelude::Pubkey;
use vstd::bytes::{spec_u64_to_le_bytes, u64_to_le_bytes};
use vstd::slice::slice_to_vec;
use vstd::array::array_as_slice;

use crate::address::Address;
use crate::constants::{
    SEED_CREATOR_PROFILE, SEED_HOLDER_POSITION, SEED_LISTING, SEED_MINT, SEED_REVENUE_POOL, SEED_TRACK, SEED_VAULT,
};

verus! {

/// Most seeds, the bump included, that a program address may have.
pub const MAX_SEEDS: usize = 16;
/// Longest seed, in bytes.
pub const MAX_SEED_LEN: usize = 32;

/// The program address and bump that the runtime's search finds for these
/// seeds and program id, or none where the search finds none.
pub uninterp spec fn program_address(seeds: Seq<Seq<u8>>, program_id: Seq<u8>) -> Option<(Seq<u8>, u8)>;

/// The bytes of each seed.
pub open spec fn seeds_view(seeds: Seq<Vec<u8>>) -> Seq<Seq<u8>> {
    seeds.map_values(|s: Vec<u8>| s@)
}

/// Calls `Pubkey::try_find_program_address`, which tries the bumps from 255
/// down and returns the first address, with its bump, that lies off the
/// curve. Claimed of it: the result is the one `program_address` names for the
/// seeds' bytes and the id's bytes, and it is none when there are 16 seeds or
/// more or a seed is longer than 32 bytes (the source checks both before
/// hashing). That some bump is found otherwise is left unsaid: it holds with
/// overwhelming probability, not always.
#[verifier::external_body]
fn try_find_program_address(seeds: &Vec<Vec<u8>>, program_id: &Address) -> (r: Option<(Address, u8)>)
    ensures
        match r {
            Some(found) => program_address(seeds_view(seeds@), program_id@) == Some((found.0@, found.1)),
            None => program_address(seeds_view(seeds@), program_id@) is None,
        },
        seeds@.len() >= MAX_SEEDS ==> r is None,
        (exists|i: int| 0 <= i < seeds@.len() && seeds@[i]@.len() > MAX_SEED_LEN) ==> r is None,
{
    let slices: Vec<&[u8]> = seeds.iter().map(|s| s.as_slice()).collect();
    match Pubkey::try_find_program_address(&slices, &Pubkey::new_from_array(program_id.bytes)) {
        Some((key, bump)) => Some((Address::new(key.to_bytes()), bump)),
        None => None,
    }
}

/// Seeds of a creator's profile: the prefix and the creator's address.
pub open spec fn creator_profile_seeds_view(authority: Seq<u8>) -> Seq<Seq<u8>> {
    seq![SEED_CREATOR_PROFILE@, authority]
}

/// Seeds of a track: the prefix, the creator's address and the track id's
/// eight little-endian bytes.
pub open spec fn track_seeds_view(creator: Seq<u8>, track_id: u64) -> Seq<Seq<u8>> {
    seq![SEED_TRACK@, creator, spec_u64_to_le_bytes(track_id)]
}

/// Seeds of a track's mint: the prefix and the track's address.
pub open spec fn mint_seeds_view(track: Seq<u8>) -> Seq<Seq<u8>> {
    seq![SEED_MINT@, track]
}

/// Seeds of a track's vault: the prefix and the track's address.
pub open spec fn vault_seeds_view(track: Seq<u8>) -> Seq<Seq<u8>> {
    seq![SEED_VAULT@, track]
}

/// Seeds of a track's revenue pool: the prefix and the track's address.
pub open spec fn revenue_pool_seeds_view(track: Seq<u8>) -> Seq<Seq<u8>> {
    seq![SEED_REVENUE_POOL@, track]
}

/// Seeds of a holder's position: the prefix, the track and the holder.
pub open spec fn holder_position_seeds_view(track: Seq<u8>, holder: Seq<u8>) -> Seq<Seq<u8>> {
    seq![SEED_HOLDER_POSITION@, track, holder]
}

/// Seeds of a listing: the prefix, the track, the seller and the nonce's
/// eight little-endian bytes.
pub open spec fn listing_seeds_view(track: Seq<u8>, seller: Seq<u8>, nonce: u64) -> Seq<Seq<u8>> {
    seq![SEED_LISTING@, track, seller, spec_u64_to_le_bytes(nonce)]
}

/// The bytes of an address, as a seed.
fn address_seed(a: &Address) -> (v: Vec<u8>)
    ensures
        v@ == a@,
{
    slice_to_vec(array_as_slice(&a.bytes))
}

/// Seeds of the profile of `authority`.
pub fn creator_profile_seeds(authority: &Address) -> (seeds: Vec<Vec<u8>>)
    ensures
        seeds_view(seeds@) == creator_profile_seeds_view(authority@),
{
    let mut seeds: Vec<Vec<u8>> = Vec::new();
    seeds.push(slice_to_vec(array_as_slice(&SEED_CREATOR_PROFILE)));
    seeds.push(address_seed(authority));
    assert(seeds_view(seeds@) =~= creator_profile_seeds_view(authority@));
    seeds
}

/// Seeds of the track numbered `track_id` of `creator`.
pub fn track_seeds(creator: &Address, track_id: u64) -> (seeds: Vec<Vec<u8>>)
    ensures
        seeds_view(seeds@) == track_seeds_view(creator@, track_id),
{
    let mut seeds: Vec<Vec<u8>> = Vec::new();
    seeds.push(slice_to_vec(array_as_slice(&SEED_TRACK)));
    seeds.push(address_seed(creator));
    seeds.push(u64_to_le_bytes(track_id));
    assert(seeds_view(seeds@) =~= track_seeds_view(creator@, track_id));
    seeds
}

/// Seeds of the mint of the track at `track`.
pub fn mint_seeds(track: &Address) -> (seeds: Vec<Vec<u8>>)
    ensures
        seeds_view(seeds@) == mint_seeds_view(track@),
{
    let mut seeds: Vec<Vec<u8>> = Vec::new();
    seeds.push(slice_to_vec(array_as_slice(&SEED_MINT)));
    seeds.push(address_seed(track));
    assert(seeds_view(seeds@) =~= mint_seeds_view(track@));
    seeds
}

/// Seeds of the vault of the track at `track`.
pub fn vault_seeds(track: &Address) -> (seeds: Vec<Vec<u8>>)
    ensures
        seeds_view(seeds@) == vault_seeds_view(track@),
{
    let mut seeds: Vec<Vec<u8>> = Vec::new();
    seeds.push(slice_to_vec(array_as_slice(&SEED_VAULT)));
    seeds.push(address_seed(track));
    assert(seeds_view(seeds@) =~= vault_seeds_view(track@));
    seeds
}

/// Seeds of the revenue pool of the track at `track`.
pub fn revenue_pool_seeds(track: &Address) -> (seeds: Vec<Vec<u8>>)
    ensures
        seeds_view(seeds@) == revenue_pool_seeds_view(track@),
{
    let mut seeds: Vec<Vec<u8>> = Vec::new();
    seeds.push(slice_to_vec(array_as_slice(&SEED_REVENUE_POOL)));
    seeds.push(address_seed(track));
    assert(seeds_view(seeds@) =~= revenue_pool_seeds_view(track@));
    seeds
}

/// Seeds of the position of `holder` in the track at `track`.
pub fn holder_position_seeds(track: &Address, holder: &Address) -> (seeds: Vec<Vec<u8>>)
    ensures
        seeds_view(seeds@) == holder_position_seeds_view(track@, holder@),
{
    let mut seeds: Vec<Vec<u8>> = Vec::new();
    seeds.push(slice_to_vec(array_as_slice(&SEED_HOLDER_POSITION)));
    seeds.push(address_seed(track));
    seeds.push(address_seed(holder));
    assert(seeds_view(seeds@) =~= holder_position_seeds_view(track@, holder@));
    seeds
}

/// Seeds of the listing numbered `nonce` of `seller` for the track at `track`.
pub fn listing_seeds(track: &Address, seller: &Address, nonce: u64) -> (seeds: Vec<Vec<u8>>)
    ensures
        seeds_view(seeds@) == listing_seeds_view(track@, seller@, nonce),
{
    let mut seeds: Vec<Vec<u8>> = Vec::new();
    seeds.push(slice_to_vec(array_as_slice(&SEED_LISTING)));
    seeds.push(address_seed(track));
    seeds.push(address_seed(seller));
    seeds.push(u64_to_le_bytes(nonce));
    assert(seeds_view(seeds@) =~= listing_seeds_view(track@, seller@, nonce));
    seeds
}

/// The seeds followed by the one-byte bump: what an account at a program
/// address signs with.
pub fn with_bump(seeds: Vec<Vec<u8>>, bump: u8) -> (signer: Vec<Vec<u8>>)
    ensures
        seeds_view(signer@) == seeds_view(seeds@).push(seq![bump]),
{
    let mut signer = seeds;
    let mut last: Vec<u8> = Vec::new();
    last.push(bump);
    let ghost before = signer@;
    signer.push(last);
    assert(seeds_view(signer@) =~= seeds_view(before).push(seq![bump]));
    signer
}

/// The program address and bump of the seeds under `program_id`, if the
/// search finds one; none for 16 seeds or more, or for a seed longer than 32
/// bytes.
pub fn find_program_address(seeds: &Vec<Vec<u8>>, program_id: &Address) -> (r: Option<(Address, u8)>)
    ensures
        match r {
            Some(found) => program_address(seeds_view(seeds@), program_id@) == Some((found.0@, found.1)),
            None => program_address(seeds_view(seeds@), program_id@) is None,
        },
        seeds@.len() >= MAX_SEEDS ==> r is None,
        (exists|i: int| 0 <= i < seeds@.len() && seeds@[i]@.len() > MAX_SEED_LEN) ==> r is None,
{
    try_find_program_address(seeds, program_id)
}

/// The address and bump of the profile of `authority`.
pub fn creator_profile_pda(program_id: &Address, authority: &Address) -> (r: Option<(Address, u8)>)
    ensures
        match r {
            Some(found) => program_address(creator_profile_seeds_view(authority@), program_id@) == Some((found.0@, found.1)),
            None => program_address(creator_profile_seeds_view(authority@), program_id@) is None,
        },
{
    find_program_address(&creator_profile_seeds(authority), program_id)
}

/// The address and bump of the track numbered `track_id` of `authority`.
pub fn track_pda(program_id: &Address, authority: &Address, track_id: u64) -> (r: Option<(Address, u8)>)
    ensures
        match r {
            Some(found) => program_address(track_seeds_view(authority@, track_id), program_id@) == Some((found.0@, found.1)),
            None => program_address(track_seeds_view(authority@, track_id), program_id@) is None,
        },
{
    find_program_address(&track_seeds(authority, track_id), program_id)
}

/// The address and bump of the mint of the track at `track`.
pub fn mint_pda(program_id: &Address, track: &Address) -> (r: Option<(Address, u8)>)
    ensures
        match r {
            Some(found) => program_address(mint_seeds_view(track@), program_id@) == Some((found.0@, found.1)),
            None => program_address(mint_seeds_view(track@), program_id@) is None,
        },
{
    find_program_address(&mint_seeds(track), program_id)
}

/// The address and bump of the vault of the track at `track`.
pub fn vault_pda(program_id: &Address, track: &Address) -> (r: Option<(Address, u8)>)
    ensures
        match r {
            Some(found) => program_address(vault_seeds_view(track@), program_id@) == Some((found.0@, found.1)),
            None => program_address(vault_seeds_view(track@), program_id@) is None,
        },
{
    find_program_address(&vault_seeds(track), program_id)
}

/// The address and bump of the revenue pool of the track at `track`.
pub fn revenue_pool_pda(program_id: &Address, track: &Address) -> (r: Option<(Address, u8)>)
    ensures
        match r {
            Some(found) => program_address(revenue_pool_seeds_view(track@), program_id@) == Some((found.0@, found.1)),
            None => program_address(revenue_pool_seeds_view(track@), program_id@) is None,
        },
{
    find_program_address(&revenue_pool_seeds(track), program_id)
}

/// The address and bump of the position of `holder` in the track at `track`.
pub fn holder_position_pda(program_id: &Address, track: &Address, holder: &Address) -> (r: Option<(Address, u8)>)
    ensures
        match r {
            Some(found) => program_address(holder_position_seeds_view(track@, holder@), program_id@) == Some((found.0@, found.1)),
            None => program_address(holder_position_seeds_view(track@, holder@), program_id@) is None,
        },
{
    find_program_address(&holder_position_seeds(track, holder), program_id)
}

/// The address and bump of the listing numbered `nonce` of `seller` for the track at `track`.
pub fn listing_pda(program_id: &Address, track: &Address, seller: &Address, nonce: u64) -> (r: Option<(Address, u8)>)
    ensures
        match r {
            Some(found) => program_address(listing_seeds_view(track@, seller@, nonce), program_id@) == Some((found.0@, found.1)),
            None => program_address(listing_seeds_view(track@, seller@, nonce), program_id@) is None,
        },
{
    find_program_address(&listing_seeds(track, seller, nonce), program_id)
}

} // verus!

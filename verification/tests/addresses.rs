use std::str::FromStr;

use anchor_lang::prelude::Pubkey;
use assetra::address::Address;
use assetra::pda::{
    creator_profile_pda, creator_profile_seeds, find_program_address, holder_position_pda, listing_pda, mint_pda,
    revenue_pool_pda, track_pda, track_seeds, vault_pda, with_bump,
};

fn program() -> Pubkey {
    Pubkey::from_str("4d12U8m27YFKwReRAsRQKrF7aoJ5W8mz3FsVYGUXJLAG").unwrap()
}

fn expected(seeds: &[&[u8]]) -> ([u8; 32], u8) {
    let (k, b) = Pubkey::find_program_address(seeds, &program());
    (k.to_bytes(), b)
}

#[test]
fn derived_addresses_match_the_runtime_search() {
    let pid = Address::new(program().to_bytes());
    let who = Address::new([7u8; 32]);
    let track = Address::new([8u8; 32]);
    let (a, b) = creator_profile_pda(&pid, &who).unwrap();
    assert_eq!((a.bytes, b), expected(&[b"creator_profile", &who.bytes]));
    let (a, b) = track_pda(&pid, &who, 3).unwrap();
    assert_eq!((a.bytes, b), expected(&[b"track", &who.bytes, &3u64.to_le_bytes()]));
    let (a, b) = mint_pda(&pid, &track).unwrap();
    assert_eq!((a.bytes, b), expected(&[b"mint", &track.bytes]));
    let (a, b) = vault_pda(&pid, &track).unwrap();
    assert_eq!((a.bytes, b), expected(&[b"vault", &track.bytes]));
    let (a, b) = revenue_pool_pda(&pid, &track).unwrap();
    assert_eq!((a.bytes, b), expected(&[b"revenue_pool", &track.bytes]));
    let (a, b) = holder_position_pda(&pid, &track, &who).unwrap();
    assert_eq!((a.bytes, b), expected(&[b"holder_position", &track.bytes, &who.bytes]));
    let (a, b) = listing_pda(&pid, &track, &who, 9).unwrap();
    assert_eq!((a.bytes, b), expected(&[b"listing", &track.bytes, &who.bytes, &9u64.to_le_bytes()]));
    assert_ne!(a.bytes, pid.bytes);
}

#[test]
fn seeds_are_laid_out_as_the_accounts_expect() {
    let who = Address::new([7u8; 32]);
    let seeds = track_seeds(&who, 0x0102);
    assert_eq!(seeds.len(), 3);
    assert_eq!(seeds[0], b"track".to_vec());
    assert_eq!(seeds[1], who.bytes.to_vec());
    assert_eq!(seeds[2], vec![2u8, 1, 0, 0, 0, 0, 0, 0]);
    let profile = creator_profile_seeds(&who);
    assert_eq!(profile[0], b"creator_profile".to_vec());
}

#[test]
fn signer_seeds_recreate_the_address() {
    let pid = Address::new(program().to_bytes());
    let who = Address::new([7u8; 32]);
    let (addr, bump) = track_pda(&pid, &who, 0).unwrap();
    let signer = with_bump(track_seeds(&who, 0), bump);
    assert_eq!(signer.len(), 4);
    assert_eq!(signer[3], vec![bump]);
    let slices: Vec<&[u8]> = signer.iter().map(|s| s.as_slice()).collect();
    let created = Pubkey::create_program_address(&slices, &program()).unwrap();
    assert_eq!(created.to_bytes(), addr.bytes);
}

#[test]
fn too_many_or_too_long_seeds_find_nothing() {
    let pid = Address::new(program().to_bytes());
    let many: Vec<Vec<u8>> = (0..16u8).map(|i| vec![i]).collect();
    assert!(find_program_address(&many, &pid).is_none());
    let long = vec![vec![0u8; 33]];
    assert!(find_program_address(&long, &pid).is_none());
}

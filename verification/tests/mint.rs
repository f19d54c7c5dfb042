use assetra::address::Address;
use assetra::errors::AssetraError;
use assetra::instructions::{create_track, mint_track_tokens, register_creator};
use assetra::state::track::{Track, TrackStatus};

fn mint_creator() -> Address {
    Address::new([3u8; 32])
}

fn setup_configured_track() -> Track {
    let mut profile =
        register_creator::handler(mint_creator(), "Test Artist".to_string(), "self-attested".to_string(), 0, 250)
            .unwrap();
    create_track::handler(
        &mut profile,
        "Midnight Drive".to_string(),
        "USRC17600001".to_string(),
        "uri".to_string(),
        "uri".to_string(),
        500_000,
        2000,
        500,
        100_000,
        0,
        249,
    )
    .unwrap()
}

#[test]
fn mint_track_tokens_mints_full_supply_into_vault() {
    let mut track = setup_configured_track();
    let mint = Address::new([4u8; 32]);
    let vault = Address::new([5u8; 32]);
    let minted = mint_track_tokens::handler(&mut track, mint_creator(), mint, vault).unwrap();
    assert_eq!(track.mint.map(|m| m.bytes), Some(mint.bytes));
    assert_eq!(track.vault.map(|v| v.bytes), Some(vault.bytes));
    assert_eq!(track.status, TrackStatus::Minted);
    assert_eq!(minted, 100_000);
}

#[test]
fn mint_track_tokens_rejects_running_twice() {
    let mut track = setup_configured_track();
    let mint = Address::new([4u8; 32]);
    let vault = Address::new([5u8; 32]);
    mint_track_tokens::handler(&mut track, mint_creator(), mint, vault).unwrap();
    let err = mint_track_tokens::handler(&mut track, mint_creator(), mint, vault).err().unwrap();
    assert_eq!(err, AssetraError::InvalidTrackStatus);
}

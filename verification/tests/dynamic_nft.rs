use puzzle_contracts::dynamic_nft::{DynamicNftContract, DynamicNftError};

const ADMIN: u64 = 1;
const ALICE: u64 = 2;
const BOB: u64 = 3;

fn ready() -> DynamicNftContract {
    let mut c = DynamicNftContract::new();
    c.initialize(ADMIN).unwrap();
    c
}

#[test]
fn initialize_once_per_admin() {
    let mut c = DynamicNftContract::new();
    assert_eq!(c.initialize(ADMIN), Ok(()));
    assert_eq!(c.initialize(ADMIN), Err(DynamicNftError::AlreadyInitialized));
}

#[test]
fn mint_needs_initialization() {
    let mut c = DynamicNftContract::new();
    assert_eq!(c.mint(5, ALICE, b"meta".to_vec(), b"fire".to_vec()), Err(DynamicNftError::NotInitialized));
}

#[test]
fn mint_starts_at_level_one() {
    let mut c = ready();
    assert_eq!(c.mint(5, ALICE, b"meta".to_vec(), b"fire".to_vec()), Ok(1));
    assert_eq!(c.mint(6, BOB, b"m2".to_vec(), b"ice".to_vec()), Ok(2));
    let n = c.get_nft(1).unwrap();
    assert_eq!((n.owner, n.level, n.rarity, n.minted_at), (ALICE, 1, 1, 5));
    assert_eq!(n.traits, b"fire".to_vec());
    assert_eq!(n.metadata, b"meta".to_vec());
    assert!(c.get_nft(3).is_none());
}

#[test]
fn milestone_evolution_appends_a_note() {
    let mut c = ready();
    c.mint(5, ALICE, b"meta".to_vec(), b"fire".to_vec()).unwrap();
    assert_eq!(c.evolve_milestone(1, 2, 3, Some(b"blaze".to_vec())), Ok(()));
    let n = c.get_nft(1).unwrap();
    assert_eq!((n.level, n.rarity), (3, 4));
    assert_eq!(n.traits, b"blaze".to_vec());
    assert_eq!(n.metadata, b"metaevolved_milestone:1".to_vec());
    assert_eq!(c.evolve_milestone(9, 1, 1, None), Err(DynamicNftError::NftNotFound));
}

#[test]
fn milestone_evolution_saturates() {
    let mut c = ready();
    c.mint(5, ALICE, b"".to_vec(), b"".to_vec()).unwrap();
    c.evolve_milestone(1, u32::MAX, u8::MAX, None).unwrap();
    let n = c.get_nft(1).unwrap();
    assert_eq!((n.level, n.rarity), (u32::MAX, u8::MAX));
}

#[test]
fn time_evolution_waits() {
    let mut c = ready();
    c.mint(100, ALICE, b"m".to_vec(), b"t".to_vec()).unwrap();
    assert_eq!(c.evolve_time(149, 1, 50), Err(DynamicNftError::NotReady));
    assert_eq!(c.evolve_time(150, 1, 50), Ok(()));
    let n = c.get_nft(1).unwrap();
    assert_eq!((n.level, n.minted_at), (2, 150));
    assert_eq!(n.metadata, b"m|time_evolved".to_vec());
    assert_eq!(c.evolve_time(199, 1, 50), Err(DynamicNftError::NotReady));
    assert_eq!(c.evolve_time(150, 4, 50), Err(DynamicNftError::NftNotFound));
}

#[test]
fn downgrade_stops_at_zero() {
    let mut c = ready();
    c.mint(1, ALICE, b"m".to_vec(), b"t".to_vec()).unwrap();
    c.downgrade(1, 5).unwrap();
    let n = c.get_nft(1).unwrap();
    assert_eq!(n.level, 0);
    assert_eq!(n.metadata, b"m|downgraded".to_vec());
    assert_eq!(c.downgrade(2, 1), Err(DynamicNftError::NftNotFound));
}

#[test]
fn fusion_joins_two_of_one_owner() {
    let mut c = ready();
    c.mint(1, ALICE, b"a".to_vec(), b"fire".to_vec()).unwrap();
    c.mint(2, ALICE, b"b".to_vec(), b"ice".to_vec()).unwrap();
    c.mint(3, BOB, b"c".to_vec(), b"wind".to_vec()).unwrap();
    c.evolve_milestone(2, 4, 2, None).unwrap();
    assert_eq!(c.fuse(10, 1, 3), Err(DynamicNftError::OwnersMismatch));
    assert_eq!(c.fuse(10, 1, 7), Err(DynamicNftError::NftNotFound));
    assert_eq!(c.fuse(10, 1, 2), Ok(4));
    assert!(c.get_nft(1).is_none());
    assert!(c.get_nft(2).is_none());
    let n = c.get_nft(4).unwrap();
    assert_eq!((n.owner, n.level, n.rarity, n.minted_at), (ALICE, 6, 4, 10));
    assert_eq!(n.traits, b"fire+ice".to_vec());
    assert_eq!(n.metadata, b"abevolved_milestone:2".to_vec());
}

use puzzle_contracts::achievement_nft::{pair_key, AchievementNFT, NftError};

const ADMIN: u64 = 1;
const USER_A: u64 = 2;
const USER_B: u64 = 3;
const MINTER: u64 = 4;

fn setup_nft() -> AchievementNFT {
    let mut n = AchievementNFT::new();
    n.initialize(ADMIN).unwrap();
    n
}

#[test]
fn test_nft_lifecycle() {
    let mut n = setup_nft();
    n.grant_minter(0, USER_A).unwrap();
    n.mark_puzzle_completed(USER_A, 101).unwrap();
    n.mark_puzzle_completed(USER_A, 102).unwrap();
    let metadata = b"Master Puzzler".to_vec();
    let token_id_1 = n.mint(0, USER_A, 101, metadata.clone()).unwrap();
    let token_id_2 = n.mint(0, USER_A, 102, metadata).unwrap();
    assert_eq!(token_id_1, 1);
    assert_eq!(token_id_2, 2);
    n.transfer(USER_A, USER_B, token_id_1).unwrap();
    assert_eq!(n.owner_of(token_id_1), Ok(USER_B));
    n.burn(USER_A, token_id_2).unwrap();
    assert_eq!(n.total_supply(), 1);
    assert_eq!(n.get_collection(USER_A), Vec::<u32>::new());
    assert_eq!(n.get_collection(USER_B), vec![1]);
}

#[test]
fn test_get_non_existent_achievement() {
    let n = setup_nft();
    assert!(n.get_achievement(99).is_none());
    assert_eq!(n.owner_of(99), Err(NftError::TokenDoesNotExist));
}

#[test]
fn test_grant_minter_sets_role() {
    let mut n = setup_nft();
    assert!(!n.is_minter(MINTER));
    n.grant_minter(0, MINTER).unwrap();
    assert!(n.is_minter(MINTER));
}

#[test]
fn test_revoke_minter_clears_role() {
    let mut n = setup_nft();
    n.grant_minter(0, MINTER).unwrap();
    assert!(n.is_minter(MINTER));
    n.revoke_minter(0, MINTER).unwrap();
    assert!(!n.is_minter(MINTER));
}

#[test]
fn test_mint_with_minter_role_succeeds() {
    let mut n = setup_nft();
    n.grant_minter(0, MINTER).unwrap();
    n.mark_puzzle_completed(MINTER, 1).unwrap();
    let token_id = n.mint(0, MINTER, 1, b"ipfs://test".to_vec()).unwrap();
    assert_eq!(token_id, 1);
    assert_eq!(n.owner_of(token_id), Ok(MINTER));
    assert_eq!(n.total_supply(), 1);
}

#[test]
fn mint_needs_role_and_completion() {
    let mut n = setup_nft();
    n.mark_puzzle_completed(USER_A, 1).unwrap();
    assert_eq!(n.mint(0, USER_A, 1, vec![]), Err(NftError::NotMinter));
    assert_eq!(n.craftmint(0, USER_A, 1, vec![]), Err(NftError::NotMinter));
    n.grant_minter(0, USER_A).unwrap();
    assert_eq!(n.mint(0, USER_A, 2, vec![]), Err(NftError::PuzzleNotCompleted));
    n.revoke_minter(0, USER_A).unwrap();
    assert_eq!(n.mint(0, USER_A, 1, vec![]), Err(NftError::NotMinter));
}

#[test]
fn test_craftmint_with_minter_role_succeeds() {
    let mut n = setup_nft();
    n.grant_minter(0, MINTER).unwrap();
    let token_id = n.craftmint(0, MINTER, 42, b"ipfs://craft".to_vec()).unwrap();
    assert_eq!(token_id, 1);
    assert_eq!(n.owner_of(token_id), Ok(MINTER));
    assert!(n.has_puzzle(MINTER, 42));
}

#[test]
fn test_audit_log_written_on_grant() {
    let mut n = setup_nft();
    let ts_before = 17u64;
    n.grant_minter(ts_before, MINTER).unwrap();
    let entry = *n.audit.get(&pair_key(MINTER, ts_before)).expect("audit entry must exist after grant_minter");
    assert_eq!(entry.subject, MINTER);
    assert_eq!(entry.actor, ADMIN);
    assert!(entry.granted);
}

#[test]
fn test_audit_log_written_on_revoke() {
    let mut n = setup_nft();
    n.grant_minter(3, MINTER).unwrap();
    let ts_before = 9u64;
    n.revoke_minter(ts_before, MINTER).unwrap();
    let entry = *n.audit.get(&pair_key(MINTER, ts_before)).expect("audit entry must exist after revoke_minter");
    assert_eq!(entry.subject, MINTER);
    assert_eq!(entry.actor, ADMIN);
    assert!(!entry.granted);
}

#[test]
fn transfer_rules() {
    let mut n = setup_nft();
    assert_eq!(n.initialize(ADMIN), Err(NftError::AlreadyInitialized));
    n.grant_minter(0, USER_A).unwrap();
    let t = n.craftmint(0, USER_A, 5, vec![]).unwrap();
    assert_eq!(n.transfer(USER_B, USER_B, t), Err(NftError::CannotTransferToSelf));
    assert_eq!(n.transfer(USER_B, MINTER, t), Err(NftError::NotTheOwner));
    assert_eq!(n.transfer(USER_A, USER_B, 77), Err(NftError::TokenDoesNotExist));
    assert_eq!(n.burn(USER_A, 77), Err(NftError::TokenDoesNotExist));
    assert_eq!(n.burn(USER_B, t), Err(NftError::NotTheOwner));
    assert_eq!(n.total_supply(), 1);
    assert_eq!(n.puzzle_ids_of(USER_A), vec![5]);
}

#[test]
fn admin_actions_need_an_admin() {
    let mut n = AchievementNFT::new();
    assert_eq!(n.grant_minter(0, MINTER), Err(NftError::NotAdmin));
    assert_eq!(n.revoke_minter(0, MINTER), Err(NftError::NotAdmin));
}

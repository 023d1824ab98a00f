use puzzle_contracts::airdrop_merkle_claim::{AirdropError, AirdropMerkleClaimContract};
use puzzle_contracts::common::Account;
use soroban_sdk::{Bytes, Env};

const ADMIN: u64 = 1;
const TOKEN: u64 = 2;
const ALICE: u64 = 3;
const BOB: u64 = 4;
const DROP: u64 = 99;

fn account(id: u64, strkey: &[u8]) -> Account {
    Account { id, strkey: strkey.to_vec(), xdr: vec![id as u8; 40] }
}

fn sha(env: &Env, data: &[u8]) -> [u8; 32] {
    env.crypto().sha256(&Bytes::from_slice(env, data)).to_array()
}

fn leaf(env: &Env, key: &[u8], amount: i128) -> [u8; 32] {
    let mut input = key.to_vec();
    input.extend_from_slice(&amount.to_be_bytes());
    sha(env, &input)
}

fn node(env: &Env, a: &[u8; 32], b: &[u8; 32]) -> [u8; 32] {
    let mut input = a.to_vec();
    input.extend_from_slice(b);
    sha(env, &input)
}

struct Tree {
    root: [u8; 32],
    leaf_a: [u8; 32],
    leaf_b: [u8; 32],
}

fn tree(env: &Env) -> Tree {
    let leaf_a = leaf(env, b"alice-key", 100);
    let leaf_b = leaf(env, b"bob-key", 50);
    Tree { root: node(env, &leaf_a, &leaf_b), leaf_a, leaf_b }
}

fn setup_drop(root: [u8; 32]) -> (AirdropMerkleClaimContract, u32) {
    let mut c = AirdropMerkleClaimContract::new();
    c.initialize(ADMIN).unwrap();
    let (id, deposit) = c.create_campaign(0, DROP, ADMIN, root, TOKEN, 150, 1000).unwrap();
    assert_eq!((deposit.from, deposit.to, deposit.amount), (ADMIN, DROP, 150));
    (c, id)
}

#[test]
fn merkle_proof_is_checked_with_the_host_hash() {
    let env = Env::default();
    let t = tree(&env);
    let (c, id) = setup_drop(t.root);
    assert_eq!(c.verify_proof(&env, id, &account(ALICE, b"alice-key"), 100, &vec![t.leaf_b]), Ok(true));
    assert_eq!(c.verify_proof(&env, id, &account(ALICE, b"alice-key"), 101, &vec![t.leaf_b]), Ok(false));
    // the sibling order matters: the running hash comes first
    assert_eq!(c.verify_proof(&env, id, &account(BOB, b"bob-key"), 50, &vec![t.leaf_a]), Ok(false));
    assert_eq!(c.verify_proof(&env, id, &account(ALICE, b""), 100, &vec![t.leaf_b]), Err(AirdropError::AddressKeyLength));
    assert_eq!(c.verify_proof(&env, 9, &account(ALICE, b"alice-key"), 100, &vec![]), Err(AirdropError::CampaignNotFound));
}

#[test]
fn claim_once_with_a_valid_proof() {
    let env = Env::default();
    let t = tree(&env);
    let (mut c, id) = setup_drop(t.root);
    let pay = c.claim(&env, 10, DROP, id, &account(ALICE, b"alice-key"), 100, &vec![t.leaf_b]).unwrap();
    assert_eq!((pay.from, pay.to, pay.amount, pay.token), (DROP, ALICE, 100, TOKEN));
    assert!(c.has_claimed(id, ALICE));
    let camp = c.get_campaign(id).unwrap();
    assert_eq!((camp.claimed_count, camp.claimed_amount), (1, 100));
    assert_eq!(
        c.claim(&env, 11, DROP, id, &account(ALICE, b"alice-key"), 100, &vec![t.leaf_b]),
        Err(AirdropError::AlreadyClaimed)
    );
    assert_eq!(
        c.claim(&env, 11, DROP, id, &account(BOB, b"bob-key"), 50, &vec![t.leaf_a]),
        Err(AirdropError::InvalidProof)
    );
}

#[test]
fn claim_checks_in_order() {
    let (mut c, id) = setup_drop([0; 32]);
    assert_eq!(c.claim_checked(0, DROP, id, ALICE, 0, true, true), Err(AirdropError::NonPositiveAmount));
    assert_eq!(c.claim_checked(0, DROP, 7, ALICE, 1, true, true), Err(AirdropError::CampaignNotFound));
    assert_eq!(c.claim_checked(1001, DROP, id, ALICE, 1, true, true), Err(AirdropError::CampaignExpired));
    assert_eq!(c.claim_checked(0, DROP, id, ALICE, 1, false, true), Err(AirdropError::AddressKeyLength));
    assert_eq!(c.claim_checked(0, DROP, id, ALICE, 1, true, false), Err(AirdropError::InvalidProof));
    assert_eq!(c.claim_checked(0, DROP, id, ALICE, 151, true, true), Err(AirdropError::InsufficientAllocation));
    assert!(c.claim_checked(0, DROP, id, ALICE, 150, true, true).is_ok());
}

#[test]
fn reclaim_after_the_deadline() {
    let (mut c, id) = setup_drop([0; 32]);
    c.claim_checked(0, DROP, id, ALICE, 40, true, true).unwrap();
    assert_eq!(c.reclaim_unclaimed(1000, DROP, ADMIN, id).unwrap_err(), AirdropError::CampaignStillActive);
    let (left, pay) = c.reclaim_unclaimed(1001, DROP, ADMIN, id).unwrap();
    assert_eq!(left, 110);
    assert_eq!((pay.from, pay.to, pay.amount), (DROP, ADMIN, 110));
    // The claimed figure is untouched by a reclaim, so a second one pays the same remainder.
    assert_eq!(c.reclaim_unclaimed(1002, DROP, ADMIN, id).unwrap().0, 110);
}

#[test]
fn reclaim_of_a_fully_claimed_drop() {
    let (mut c, id) = setup_drop([0; 32]);
    c.claim_checked(0, DROP, id, ALICE, 150, true, true).unwrap();
    assert_eq!(c.reclaim_unclaimed(1001, DROP, ADMIN, id).unwrap_err(), AirdropError::NothingToReclaim);
}

#[test]
fn campaign_creation_rules() {
    let mut c = AirdropMerkleClaimContract::new();
    assert_eq!(c.create_campaign(0, DROP, ADMIN, [0; 32], TOKEN, 10, 5).unwrap_err(), AirdropError::AdminNotSet);
    c.initialize(ADMIN).unwrap();
    assert_eq!(c.initialize(ADMIN), Err(AirdropError::AlreadyInitialized));
    assert_eq!(c.create_campaign(0, DROP, ADMIN, [0; 32], TOKEN, 0, 5).unwrap_err(), AirdropError::NonPositiveAllocation);
    assert_eq!(c.create_campaign(5, DROP, ADMIN, [0; 32], TOKEN, 10, 5).unwrap_err(), AirdropError::DeadlineNotInFuture);
    assert_eq!(c.admin(), Ok(ADMIN));
}

use puzzle_contracts::decentralized_identity::{DecentralizedIdentityContract, DidError};
use puzzle_contracts::common::Account;
use soroban_sdk::{Bytes, Env};

const ADMIN: u64 = 1;
const USER: u64 = 2;
const ISSUER: u64 = 3;
const SUBJECT: u64 = 4;
const DELEGATE: u64 = 5;
const YEAR: u64 = 31557600;

fn key(who: u64) -> Account {
    Account { id: who, strkey: vec![b'G'; 56], xdr: vec![who as u8; 40] }
}

fn setup_did() -> DecentralizedIdentityContract {
    let mut c = DecentralizedIdentityContract::new();
    c.initialize(ADMIN).unwrap();
    c
}

fn issuer_and_subject(env: &Env, c: &mut DecentralizedIdentityContract) {
    c.create_did(env, 0, &key(ISSUER), [1; 32], b"doc".to_vec()).unwrap();
    c.create_did(env, 0, &key(SUBJECT), [1; 32], b"doc".to_vec()).unwrap();
}

#[test]
fn test_initialize_contract() {
    let env = Env::default();
    let mut c = setup_did();
    let did_id = c.create_did(&env, 0, &key(USER), [1; 32], b"DID Document".to_vec()).unwrap();
    assert!(c.get_did(did_id).is_some());
    assert_eq!(c.initialize(ADMIN), Err(DidError::AlreadyInitialized));
}

#[test]
fn test_create_did() {
    let env = Env::default();
    let mut c = setup_did();
    let did_id = c.create_did(&env, 7, &key(USER), [1; 32], b"DID Document".to_vec()).unwrap();
    let did = c.get_did(did_id).unwrap();
    assert_eq!(did.owner, USER);
    assert!(did.active);
    assert_eq!(did.document, b"DID Document".to_vec());
    assert_eq!(did.created_at, 7);
    assert_eq!(c.get_user_did(USER).unwrap(), did_id);
    let expected = env.crypto().keccak256(&Bytes::from_slice(&env, &key(USER).xdr)).to_array();
    assert_eq!(did_id, expected);
    assert_ne!(did_id.to_vec(), key(USER).xdr[..32].to_vec());
}

#[test]
fn second_did_for_a_user_is_refused() {
    let env = Env::default();
    let mut c = setup_did();
    c.create_did(&env, 0, &key(USER), [1; 32], b"DID Document".to_vec()).unwrap();
    assert_eq!(
        c.create_did(&env, 0, &key(USER), [1; 32], b"DID Document".to_vec()),
        Err(DidError::DidAlreadyExists)
    );
}

#[test]
fn test_issue_and_verify_credential() {
    let env = Env::default();
    let mut c = setup_did();
    issuer_and_subject(&env, &mut c);
    let now = 0u64;
    let cred_id = c
        .issue_credential(
            &env,
            now,
            ISSUER,
            &key(SUBJECT),
            b"IdentityVerification".to_vec(),
            b"{\"verified\":true}".to_vec(),
            now + YEAR,
            None,
        )
        .unwrap();
    assert_eq!(c.verify_credential(now, cred_id), Ok(true));
    let status = c.get_credential_status(now, cred_id).unwrap();
    assert!(status.is_valid);
    assert!(!status.revoked);
    assert!(!status.expired);
    let cred = c.get_credential(cred_id).unwrap();
    assert_eq!(cred.claim_type, b"IdentityVerification".to_vec());
    assert_eq!(cred.issuer, c.get_user_did(ISSUER).unwrap());
    // past its expiration it no longer verifies
    assert_eq!(c.verify_credential(now + YEAR + 1, cred_id), Ok(false));
    assert!(c.get_credential_status(now + YEAR + 1, cred_id).unwrap().expired);
}

#[test]
fn issuing_without_a_did_is_refused() {
    let env = Env::default();
    let mut c = setup_did();
    let r = c.issue_credential(&env, 0, ISSUER, &key(SUBJECT), vec![], vec![], 10, None);
    assert_eq!(r, Err(DidError::IssuerHasNoDid));
    assert_eq!(c.verify_credential(0, [0; 32]), Err(DidError::CredentialNotFound));
}

#[test]
fn test_revoke_credential() {
    let env = Env::default();
    let mut c = setup_did();
    issuer_and_subject(&env, &mut c);
    let cred_id = c
        .issue_credential(&env, 0, ISSUER, &key(SUBJECT), b"test".to_vec(), b"{}".to_vec(), YEAR, None)
        .unwrap();
    assert_eq!(c.revoke_credential(USER, cred_id), Err(DidError::Unauthorized));
    assert_eq!(c.revoke_credential(ISSUER, cred_id), Ok(()));
    assert_eq!(c.verify_credential(0, cred_id), Ok(false));
    let status = c.get_credential_status(0, cred_id).unwrap();
    assert!(status.revoked);
    assert!(!status.is_valid);
}

#[test]
fn subject_delegate_may_revoke() {
    let env = Env::default();
    let mut c = setup_did();
    issuer_and_subject(&env, &mut c);
    let cred_id = c
        .issue_credential(&env, 0, ISSUER, &key(SUBJECT), vec![], vec![], YEAR, None)
        .unwrap();
    c.add_delegate(0, SUBJECT, DELEGATE, b"revoke".to_vec()).unwrap();
    assert_eq!(c.revoke_credential(DELEGATE, cred_id), Ok(()));
}

#[test]
fn test_update_attributes() {
    let env = Env::default();
    let mut c = setup_did();
    assert_eq!(c.update_attributes(1, USER, b"username".to_vec(), b"x".to_vec()), Err(DidError::NoDid));
    c.create_did(&env, 0, &key(USER), [1; 32], b"doc".to_vec()).unwrap();
    c.update_attributes(5, USER, b"username".to_vec(), b"alice123".to_vec()).unwrap();
    assert_eq!(c.get_attribute(USER, &b"username".to_vec()).unwrap(), b"alice123".to_vec());
    assert_eq!(c.get_attribute(USER, &b"email".to_vec()), None);
    let did = c.get_did(c.get_user_did(USER).unwrap()).unwrap();
    assert_eq!(did.updated_at, 5);
}

#[test]
fn test_delegation() {
    let env = Env::default();
    let mut c = setup_did();
    c.create_did(&env, 0, &key(USER), [1; 32], b"doc".to_vec()).unwrap();
    c.add_delegate(0, USER, DELEGATE, b"can_issue_credentials".to_vec()).unwrap();
    assert!(c.is_delegate(DELEGATE, USER));
    assert_eq!(c.add_delegate(0, USER, DELEGATE, vec![]), Err(DidError::AlreadyDelegate));
    c.remove_delegate(USER, DELEGATE).unwrap();
    assert!(!c.is_delegate(DELEGATE, USER));
    assert_eq!(c.remove_delegate(USER, DELEGATE), Err(DidError::NotDelegate));
}

#[test]
fn test_rotate_public_key() {
    let env = Env::default();
    let mut c = setup_did();
    let did_id = c.create_did(&env, 0, &key(USER), [1; 32], b"doc".to_vec()).unwrap();
    c.rotate_public_key(3, USER, [2; 32]).unwrap();
    let did = c.get_did(did_id).unwrap();
    assert_eq!(did.public_key, [2; 32]);
    assert_eq!(did.updated_at, 3);
}

#[test]
fn test_deactivate_did() {
    let env = Env::default();
    let mut c = setup_did();
    let did_id = c.create_did(&env, 0, &key(USER), [1; 32], b"doc".to_vec()).unwrap();
    c.deactivate_did(4, USER).unwrap();
    let did = c.get_did(did_id).unwrap();
    assert!(!did.active);
    assert_eq!(c.deactivate_did(4, SUBJECT), Err(DidError::NoDid));
}

#[test]
fn test_privacy_proof_verification() {
    let env = Env::default();
    let mut c = setup_did();
    issuer_and_subject(&env, &mut c);
    let proof = [5u8; 32];
    let cred_id = c
        .issue_credential(
            &env,
            0,
            ISSUER,
            &key(SUBJECT),
            b"age_verification".to_vec(),
            b"{\"age\":18}".to_vec(),
            YEAR,
            Some(proof),
        )
        .unwrap();
    assert_eq!(c.verify_privacy_proof(cred_id, proof), Ok(true));
    assert_eq!(c.verify_privacy_proof(cred_id, [6; 32]), Ok(false));
}

#[test]
fn test_get_user_credentials() {
    let env = Env::default();
    let mut c = setup_did();
    issuer_and_subject(&env, &mut c);
    for i in 0..3u8 {
        let claim_type = format!("type{}", i).into_bytes();
        c.issue_credential(&env, 0, ISSUER, &key(SUBJECT), claim_type, b"{}".to_vec(), YEAR, None)
            .unwrap();
    }
    assert_eq!(c.get_user_credentials(SUBJECT).len(), 3);
    assert_eq!(c.get_user_credentials(ISSUER).len(), 0);
}

use puzzle_contracts::multisig_escrow::{
    has_duplicates, contains_address, DisputeResolution, EscrowError, EscrowState, MultisigEscrowContract,
    VoteAction,
};

const ADMIN: u64 = 1;
const DEPOSITOR: u64 = 10;
const BENEFICIARY: u64 = 11;
const S1: u64 = 21;
const S2: u64 = 22;
const S3: u64 = 23;
const ARB: u64 = 30;
const TOKEN: u64 = 40;
const CONTRACT: u64 = 99;

fn setup(amount: i128, arbitrator: Option<u64>) -> (MultisigEscrowContract, u64) {
    let mut c = MultisigEscrowContract::new();
    c.initialize(ADMIN).unwrap();
    let id = c
        .create_escrow(1000, DEPOSITOR, BENEFICIARY, TOKEN, amount, vec![S1, S2, S3], 2, arbitrator, 1000 + 86_400)
        .unwrap();
    (c, id)
}

fn funded(amount: i128, arbitrator: Option<u64>) -> (MultisigEscrowContract, u64) {
    let (mut c, id) = setup(amount, arbitrator);
    c.fund_escrow(CONTRACT, DEPOSITOR, id).unwrap();
    (c, id)
}

#[test]
fn initialize_once() {
    let mut c = MultisigEscrowContract::new();
    assert_eq!(c.initialize(ADMIN), Ok(()));
    assert_eq!(c.initialize(ADMIN), Err(EscrowError::AlreadyInitialized));
}

#[test]
fn create_requires_initialization() {
    let mut c = MultisigEscrowContract::new();
    let r = c.create_escrow(0, DEPOSITOR, BENEFICIARY, TOKEN, 100, vec![S1], 1, None, 10);
    assert_eq!(r, Err(EscrowError::NotInitialized));
}

#[test]
fn create_checks_in_order() {
    let mut c = MultisigEscrowContract::new();
    c.initialize(ADMIN).unwrap();
    let mk = |c: &mut MultisigEscrowContract, amount: i128, signers: Vec<u64>, threshold: u32, exp: u64| {
        c.create_escrow(500, DEPOSITOR, BENEFICIARY, TOKEN, amount, signers, threshold, None, exp)
    };
    assert_eq!(mk(&mut c, 0, vec![S1], 1, 600), Err(EscrowError::ZeroAmount));
    assert_eq!(mk(&mut c, 10, vec![], 1, 600), Err(EscrowError::EmptySigners));
    assert_eq!(mk(&mut c, 10, vec![S1, S2], 0, 600), Err(EscrowError::InvalidThreshold));
    assert_eq!(mk(&mut c, 10, vec![S1, S2], 3, 600), Err(EscrowError::InvalidThreshold));
    assert_eq!(mk(&mut c, 10, vec![S1, S2, S1], 2, 600), Err(EscrowError::DuplicateSigner));
    assert_eq!(mk(&mut c, 10, vec![S1, DEPOSITOR], 1, 600), Err(EscrowError::InvalidConfig));
    assert_eq!(mk(&mut c, 10, vec![BENEFICIARY], 1, 600), Err(EscrowError::InvalidConfig));
    assert_eq!(mk(&mut c, 10, vec![S1], 1, 500), Err(EscrowError::InvalidConfig));
    assert_eq!(mk(&mut c, 10, vec![S1], 1, 501), Ok(1));
    assert_eq!(mk(&mut c, 10, vec![S1, S2], 2, 501), Ok(2));
}

#[test]
fn created_escrow_is_pending() {
    let (c, id) = setup(500, Some(ARB));
    assert_eq!(id, 1);
    let e = c.get_escrow(id).unwrap();
    assert_eq!(e.state, EscrowState::Pending);
    assert!(!e.funded);
    assert_eq!(e.signers, vec![S1, S2, S3]);
    assert_eq!(e.expires_at, 87_400);
    assert_eq!(e.created_at, 1000);
    assert!(c.get_escrow(2).is_none());
}

#[test]
fn funding_moves_the_amount_in() {
    let (mut c, id) = setup(500, None);
    assert_eq!(c.fund_escrow(CONTRACT, S1, id), Err(EscrowError::NotDepositor));
    assert_eq!(c.fund_escrow(CONTRACT, DEPOSITOR, 7), Err(EscrowError::EscrowNotFound));
    let t = c.fund_escrow(CONTRACT, DEPOSITOR, id).unwrap();
    assert_eq!((t.token, t.from, t.to, t.amount), (TOKEN, DEPOSITOR, CONTRACT, 500));
    assert_eq!(c.get_escrow(id).unwrap().state, EscrowState::Active);
    assert_eq!(c.fund_escrow(CONTRACT, DEPOSITOR, id), Err(EscrowError::AlreadyFunded));
}

#[test]
fn two_of_three_release() {
    let (mut c, id) = funded(500, None);
    assert_eq!(c.release_funds(CONTRACT, S1, id), Err(EscrowError::ThresholdNotMet));
    c.sign_approve(S1, id, VoteAction::ApproveRelease).unwrap();
    assert_eq!(c.release_funds(CONTRACT, S1, id), Err(EscrowError::ThresholdNotMet));
    c.sign_approve(S2, id, VoteAction::ApproveRelease).unwrap();
    let t = c.release_funds(CONTRACT, S3, id).unwrap();
    assert_eq!((t.from, t.to, t.amount), (CONTRACT, BENEFICIARY, 500));
    assert_eq!(c.get_escrow(id).unwrap().state, EscrowState::Released);
    assert_eq!(c.release_funds(CONTRACT, S3, id), Err(EscrowError::InvalidState));
}

#[test]
fn two_of_three_refund() {
    let (mut c, id) = funded(500, None);
    c.sign_approve(S1, id, VoteAction::ApproveRefund).unwrap();
    c.sign_approve(S2, id, VoteAction::ApproveRelease).unwrap();
    assert_eq!(c.refund_funds(CONTRACT, S1, id), Err(EscrowError::ThresholdNotMet));
    c.sign_approve(S3, id, VoteAction::ApproveRefund).unwrap();
    let t = c.refund_funds(CONTRACT, S1, id).unwrap();
    assert_eq!((t.from, t.to, t.amount), (CONTRACT, DEPOSITOR, 500));
    assert_eq!(c.get_escrow(id).unwrap().state, EscrowState::Refunded);
}

#[test]
fn votes_are_checked() {
    let (mut c, id) = setup(500, None);
    assert_eq!(c.sign_approve(S1, id, VoteAction::ApproveRelease), Err(EscrowError::InvalidState));
    c.fund_escrow(CONTRACT, DEPOSITOR, id).unwrap();
    assert_eq!(c.sign_approve(DEPOSITOR, id, VoteAction::ApproveRelease), Err(EscrowError::NotASigner));
    assert_eq!(c.sign_approve(S1, id, VoteAction::ApproveRelease), Ok(()));
    assert_eq!(c.sign_approve(S1, id, VoteAction::ApproveRefund), Err(EscrowError::AlreadyVoted));
    assert_eq!(c.get_vote(id, S1), Some(VoteAction::ApproveRelease));
    assert_eq!(c.get_vote(id, S2), None);
    assert_eq!(c.get_vote(id, DEPOSITOR), None);
    let st = c.get_stats(5000, id).unwrap();
    assert_eq!((st.release_votes, st.refund_votes, st.voted, st.threshold), (1, 0, 1, 2));
    assert_eq!((st.funded, st.state, st.now), (true, EscrowState::Active, 5000));
    assert_eq!(c.get_stats(5000, 9), Err(EscrowError::EscrowNotFound));
}

#[test]
fn dispute_and_split() {
    let (mut c, id) = funded(101, Some(ARB));
    assert_eq!(c.raise_dispute(2000, S1, id, None), Err(EscrowError::InvalidDisputeCaster));
    c.raise_dispute(2000, BENEFICIARY, id, Some([7u8; 32])).unwrap();
    let e = c.get_escrow(id).unwrap();
    assert_eq!(e.state, EscrowState::Disputed);
    assert_eq!(e.dispute.unwrap().raised_by, BENEFICIARY);
    assert_eq!(c.sign_approve(S1, id, VoteAction::ApproveRelease), Err(EscrowError::InvalidState));
    assert_eq!(c.resolve_dispute(3000, CONTRACT, S1, id, DisputeResolution::Split), Err(EscrowError::NotArbitrator));
    let pay = c.resolve_dispute(3000, CONTRACT, ARB, id, DisputeResolution::Split).unwrap();
    assert_eq!(pay.len(), 2);
    assert_eq!((pay[0].to, pay[0].amount), (BENEFICIARY, 50));
    assert_eq!((pay[1].to, pay[1].amount), (DEPOSITOR, 51));
    let e = c.get_escrow(id).unwrap();
    assert_eq!(e.state, EscrowState::Released);
    let d = e.dispute.unwrap();
    assert_eq!(d.resolution, Some(DisputeResolution::Split));
    assert_eq!(d.resolved_at, Some(3000));
    assert_eq!(d.evidence_hash, Some([7u8; 32]));
}

#[test]
fn dispute_refund_and_release() {
    let (mut c, id) = funded(80, Some(ARB));
    c.raise_dispute(2000, DEPOSITOR, id, None).unwrap();
    let pay = c.resolve_dispute(3000, CONTRACT, ARB, id, DisputeResolution::Refund).unwrap();
    assert_eq!((pay.len(), pay[0].to, pay[0].amount), (1, DEPOSITOR, 80));
    assert_eq!(c.get_escrow(id).unwrap().state, EscrowState::Refunded);

    let (mut c, id) = funded(80, Some(ARB));
    c.raise_dispute(2000, DEPOSITOR, id, None).unwrap();
    let pay = c.resolve_dispute(3000, CONTRACT, ARB, id, DisputeResolution::Release).unwrap();
    assert_eq!((pay.len(), pay[0].to, pay[0].amount), (1, BENEFICIARY, 80));
    assert_eq!(c.resolve_dispute(3000, CONTRACT, ARB, id, DisputeResolution::Release), Err(EscrowError::InvalidState));
}

#[test]
fn dispute_needs_an_arbitrator() {
    let (mut c, id) = funded(80, None);
    assert_eq!(c.raise_dispute(2000, DEPOSITOR, id, None), Err(EscrowError::NoArbitrator));
}

#[test]
fn cancellation() {
    let (mut c, id) = setup(70, None);
    assert_eq!(c.cancel_escrow(CONTRACT, S1, id), Err(EscrowError::NotDepositor));
    assert_eq!(c.cancel_escrow(CONTRACT, DEPOSITOR, id), Ok(None));
    assert_eq!(c.get_escrow(id).unwrap().state, EscrowState::Cancelled);
    assert_eq!(c.cancel_escrow(CONTRACT, DEPOSITOR, id), Err(EscrowError::InvalidState));

    let (mut c, id) = funded(70, None);
    let t = c.cancel_escrow(CONTRACT, DEPOSITOR, id).unwrap().unwrap();
    assert_eq!((t.from, t.to, t.amount), (CONTRACT, DEPOSITOR, 70));
    assert!(!c.get_escrow(id).unwrap().funded);

    let (mut c, id) = funded(70, None);
    c.sign_approve(S2, id, VoteAction::ApproveRefund).unwrap();
    assert_eq!(c.cancel_escrow(CONTRACT, DEPOSITOR, id), Err(EscrowError::InvalidState));
}

#[test]
fn expiry() {
    let (mut c, id) = funded(70, None);
    assert_eq!(c.expire_escrow(87_400, CONTRACT, id), Err(EscrowError::NotExpired));
    let t = c.expire_escrow(87_401, CONTRACT, id).unwrap().unwrap();
    assert_eq!((t.to, t.amount), (DEPOSITOR, 70));
    assert_eq!(c.get_escrow(id).unwrap().state, EscrowState::Expired);
    assert_eq!(c.expire_escrow(90_000, CONTRACT, id), Err(EscrowError::InvalidState));
    assert_eq!(c.release_funds(CONTRACT, S1, id), Err(EscrowError::InvalidState));

    let (mut c, id) = setup(70, None);
    assert_eq!(c.expire_escrow(90_000, CONTRACT, id), Ok(None));
}

#[test]
fn list_helpers() {
    assert!(has_duplicates(&vec![1, 2, 3, 2]));
    assert!(!has_duplicates(&vec![1, 2, 3]));
    assert!(!has_duplicates(&vec![]));
    assert!(contains_address(&vec![4, 5], 5));
    assert!(!contains_address(&vec![4, 5], 6));
}

use puzzle_contracts::escrow::{
    all_deposited, DisputeResolution, EscrowContract, EscrowError, EscrowState, ReleaseCondition,
};

const CREATOR: u64 = 1;
const P1: u64 = 11;
const P2: u64 = 12;
const P3: u64 = 13;
const ARB: u64 = 20;
const TOKEN: u64 = 30;
const CONTRACT: u64 = 99;

fn two_party(conditions: Vec<ReleaseCondition>, arbitrator: Option<u64>) -> (EscrowContract, u32) {
    let mut c = EscrowContract::new();
    let id = c
        .create_escrow(1000, CREATOR, vec![P1, P2], TOKEN, vec![100, 50], conditions, arbitrator, 500)
        .unwrap();
    (c, id)
}

fn active(conditions: Vec<ReleaseCondition>, arbitrator: Option<u64>) -> (EscrowContract, u32) {
    let (mut c, id) = two_party(conditions, arbitrator);
    c.deposit(CONTRACT, P1, id, 100).unwrap();
    c.deposit(CONTRACT, P2, id, 50).unwrap();
    (c, id)
}

#[test]
fn creation_checks_the_parties() {
    let mut c = EscrowContract::new();
    let bad = c.create_escrow(0, CREATOR, vec![], TOKEN, vec![], vec![], None, 10);
    assert_eq!(bad, Err(EscrowError::InvalidParties));
    let bad = c.create_escrow(0, CREATOR, vec![P1, P2], TOKEN, vec![5], vec![], None, 10);
    assert_eq!(bad, Err(EscrowError::InvalidParties));
    assert_eq!(c.create_escrow(0, CREATOR, vec![P1], TOKEN, vec![5], vec![], None, 10), Ok(1));
    assert_eq!(c.create_escrow(0, CREATOR, vec![P2], TOKEN, vec![5], vec![], None, 10), Ok(2));
    let e = c.get_escrow(1).unwrap();
    assert_eq!((e.state, e.timeout, e.created_at), (EscrowState::Created, 10, 0));
    assert_eq!(e.deposited, vec![0]);
    assert_eq!(e.approvals, vec![false]);
}

#[test]
fn deposits_activate_the_escrow() {
    let (mut c, id) = two_party(vec![ReleaseCondition::AllPartiesApprove], None);
    assert_eq!(c.deposit(CONTRACT, P3, id, 100), Err(EscrowError::NotParty));
    assert_eq!(c.deposit(CONTRACT, P1, id, 99), Err(EscrowError::AmountMismatch));
    assert_eq!(c.deposit(CONTRACT, P1, 9, 100), Err(EscrowError::EscrowNotFound));
    let t = c.deposit(CONTRACT, P1, id, 100).unwrap();
    assert_eq!((t.token, t.from, t.to, t.amount), (TOKEN, P1, CONTRACT, 100));
    assert_eq!(c.deposit(CONTRACT, P1, id, 100), Err(EscrowError::AlreadyDeposited));
    assert_eq!(c.get_escrow(id).unwrap().state, EscrowState::Created);
    c.deposit(CONTRACT, P2, id, 50).unwrap();
    assert_eq!(c.get_escrow(id).unwrap().state, EscrowState::Active);
    assert_eq!(c.deposit(CONTRACT, P2, id, 50), Err(EscrowError::InvalidState));
}

#[test]
fn approvals_release_when_all_agree() {
    let (mut c, id) = two_party(vec![ReleaseCondition::AllPartiesApprove], None);
    assert_eq!(c.approve(P1, id), Err(EscrowError::InvalidState));
    c.deposit(CONTRACT, P1, id, 100).unwrap();
    c.deposit(CONTRACT, P2, id, 50).unwrap();
    assert_eq!(c.approve(P3, id), Err(EscrowError::NotParty));
    c.approve(P1, id).unwrap();
    assert_eq!(c.get_escrow(id).unwrap().state, EscrowState::Active);
    c.approve(P2, id).unwrap();
    assert_eq!(c.get_escrow(id).unwrap().state, EscrowState::Released);
}

#[test]
fn majority_needs_more_than_half() {
    let mut c = EscrowContract::new();
    let id = c
        .create_escrow(0, CREATOR, vec![P1, P2, P3], TOKEN, vec![1, 1, 1], vec![ReleaseCondition::MajorityApprove], None, 5)
        .unwrap();
    for p in [P1, P2, P3] {
        c.deposit(CONTRACT, p, id, 1).unwrap();
    }
    c.approve(P1, id).unwrap();
    assert_eq!(c.get_escrow(id).unwrap().state, EscrowState::Active);
    c.approve(P3, id).unwrap();
    assert_eq!(c.get_escrow(id).unwrap().state, EscrowState::Released);
}

#[test]
fn release_splits_evenly() {
    let (mut c, id) = active(vec![ReleaseCondition::ArbitratorApprove], Some(ARB));
    assert_eq!(c.release(CONTRACT, P1, id, None), Err(EscrowError::Unauthorized));
    assert_eq!(c.release(CONTRACT, ARB, id, Some(151)), Err(EscrowError::AmountMismatch));
    let pay = c.release(CONTRACT, ARB, id, Some(101)).unwrap();
    assert_eq!(pay.len(), 2);
    assert_eq!((pay[0].to, pay[0].amount), (P1, 50));
    assert_eq!((pay[1].to, pay[1].amount), (P2, 50));
    assert_eq!(c.get_escrow(id).unwrap().state, EscrowState::Active);
    let pay = c.release(CONTRACT, ARB, id, None).unwrap();
    assert_eq!((pay[0].amount, pay[1].amount), (75, 75));
    assert_eq!(c.get_escrow(id).unwrap().state, EscrowState::Released);
    assert_eq!(c.release(CONTRACT, ARB, id, None), Err(EscrowError::InvalidState));
}

#[test]
fn disputes_go_to_the_arbitrator() {
    let (mut c, id) = active(vec![], None);
    assert_eq!(c.dispute(P1, id), Err(EscrowError::NoArbitrator));
    let (mut c, id) = active(vec![], Some(ARB));
    assert_eq!(c.dispute(P3, id), Err(EscrowError::NotParty));
    c.dispute(P2, id).unwrap();
    assert_eq!(c.get_escrow(id).unwrap().state, EscrowState::Disputed);
    assert_eq!(c.resolve_dispute(CONTRACT, P1, id, DisputeResolution::Refund), Err(EscrowError::Unauthorized));
    let pay = c.resolve_dispute(CONTRACT, ARB, id, DisputeResolution::Refund).unwrap();
    assert_eq!(pay.len(), 2);
    assert_eq!((pay[0].to, pay[0].amount, pay[1].to, pay[1].amount), (P1, 100, P2, 50));
    assert_eq!(c.get_escrow(id).unwrap().state, EscrowState::Refunded);
    assert_eq!(c.resolve_dispute(CONTRACT, ARB, id, DisputeResolution::Refund), Err(EscrowError::InvalidState));

    let (mut c, id) = active(vec![], Some(ARB));
    c.dispute(P1, id).unwrap();
    let pay = c.resolve_dispute(CONTRACT, ARB, id, DisputeResolution::Release).unwrap();
    assert_eq!((pay[0].amount, pay[1].amount), (75, 75));
    assert_eq!(c.get_escrow(id).unwrap().state, EscrowState::Released);
}

#[test]
fn timeout_refunds_the_deposits() {
    let (mut c, id) = active(vec![], None);
    assert_eq!(c.refund_timeout(1499, CONTRACT, id), Err(EscrowError::TimeoutNotReached));
    let pay = c.refund_timeout(1500, CONTRACT, id).unwrap();
    assert_eq!((pay[0].to, pay[0].amount, pay[1].to, pay[1].amount), (P1, 100, P2, 50));
    assert_eq!(c.get_escrow(id).unwrap().state, EscrowState::Refunded);
    assert_eq!(c.refund_timeout(1600, CONTRACT, id), Err(EscrowError::InvalidState));
}

#[test]
fn deposit_check() {
    assert!(all_deposited(&vec![1, 2]));
    assert!(!all_deposited(&vec![1, 0]));
    assert!(all_deposited(&vec![]));
}

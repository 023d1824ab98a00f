use puzzle_contracts::bounty::{BountyContract, BountyError, BountyStatus};
use puzzle_contracts::token::TokenTransfer;

const ADMIN: u64 = 1;
const CREATOR: u64 = 2;
const SOLVER: u64 = 3;
const TOKEN: u64 = 4;
const CONTRACT: u64 = 99;

fn setup_bounty() -> BountyContract {
    let mut c = BountyContract::new();
    c.initialize(ADMIN).unwrap();
    c
}

#[test]
fn test_bounty_lifecycle() {
    let mut c = setup_bounty();
    let (bounty_id, deposit) = c.create_bounty(0, CONTRACT, CREATOR, TOKEN, 500, Some(1), 3600).unwrap();
    assert_eq!(bounty_id, 1);
    assert_eq!(deposit, TokenTransfer { token: TOKEN, from: CREATOR, to: CONTRACT, amount: 500 });
    assert_eq!(c.get_bounty(bounty_id).unwrap().status, BountyStatus::Open);
    c.accept_bounty(10, SOLVER, bounty_id).unwrap();
    let bounty = c.get_bounty(bounty_id).unwrap();
    assert_eq!(bounty.status, BountyStatus::Accepted);
    assert_eq!(bounty.solver, Some(SOLVER));
    c.submit_solution(20, SOLVER, bounty_id).unwrap();
    assert_eq!(c.get_bounty(bounty_id).unwrap().status, BountyStatus::Submitted);
    let payout = c.approve_submission(CONTRACT, CREATOR, bounty_id).unwrap();
    assert_eq!(c.get_bounty(bounty_id).unwrap().status, BountyStatus::Completed);
    assert_eq!(payout, TokenTransfer { token: TOKEN, from: CONTRACT, to: SOLVER, amount: 500 });
}

#[test]
fn test_cancel_bounty() {
    let mut c = setup_bounty();
    let (bounty_id, _) = c.create_bounty(0, CONTRACT, CREATOR, TOKEN, 500, None, 3600).unwrap();
    let refund = c.cancel_bounty(5, CONTRACT, CREATOR, bounty_id).unwrap();
    assert_eq!(c.get_bounty(bounty_id).unwrap().status, BountyStatus::Cancelled);
    assert_eq!(refund, TokenTransfer { token: TOKEN, from: CONTRACT, to: CREATOR, amount: 500 });
}

#[test]
fn cancel_accepted_fails_before_expiration() {
    let mut c = setup_bounty();
    let (bounty_id, _) = c.create_bounty(0, CONTRACT, CREATOR, TOKEN, 500, None, 3600).unwrap();
    c.accept_bounty(1, SOLVER, bounty_id).unwrap();
    assert_eq!(c.cancel_bounty(2, CONTRACT, CREATOR, bounty_id), Err(BountyError::CannotCancel));
    assert!(c.cancel_bounty(3601, CONTRACT, CREATOR, bounty_id).is_ok());
}

#[test]
fn test_test_dispute_resolution() {
    let mut c = setup_bounty();
    let (bounty_id, _) = c.create_bounty(0, CONTRACT, CREATOR, TOKEN, 500, None, 3600).unwrap();
    c.accept_bounty(1, SOLVER, bounty_id).unwrap();
    c.submit_solution(2, SOLVER, bounty_id).unwrap();
    c.dispute_bounty(CREATOR, bounty_id).unwrap();
    assert_eq!(c.get_bounty(bounty_id).unwrap().status, BountyStatus::Disputed);
    let (to_solver, to_creator) = c.resolve_dispute(CONTRACT, ADMIN, bounty_id, 300).unwrap();
    assert_eq!(to_solver, Some(TokenTransfer { token: TOKEN, from: CONTRACT, to: SOLVER, amount: 300 }));
    assert_eq!(to_creator, Some(TokenTransfer { token: TOKEN, from: CONTRACT, to: CREATOR, amount: 200 }));
    assert_eq!(c.get_bounty(bounty_id).unwrap().status, BountyStatus::Completed);
}

#[test]
fn test_marketplace_discovery() {
    let mut c = setup_bounty();
    for i in 0..5u32 {
        c.create_bounty(0, CONTRACT, CREATOR, TOKEN, 100, Some(i), 3600).unwrap();
    }
    assert_eq!(c.get_active_bounties(0, 10).len(), 5);
    c.cancel_bounty(0, CONTRACT, CREATOR, 1).unwrap();
    assert_eq!(c.get_active_bounties(0, 10).len(), 4);
    c.accept_bounty(0, SOLVER, 2).unwrap();
    c.submit_solution(0, SOLVER, 2).unwrap();
    c.approve_submission(CONTRACT, CREATOR, 2).unwrap();
    assert_eq!(c.get_active_bounties(0, 10).len(), 3);
    assert_eq!(c.get_bounty_count(), 5);
}

#[test]
fn bounty_errors() {
    let mut c = setup_bounty();
    assert_eq!(c.initialize(ADMIN), Err(BountyError::AlreadyInitialized));
    assert_eq!(
        c.create_bounty(0, CONTRACT, CREATOR, TOKEN, 0, None, 10),
        Err(BountyError::AmountNotPositive)
    );
    assert_eq!(c.accept_bounty(0, SOLVER, 9), Err(BountyError::BountyNotFound));
    let (id, _) = c.create_bounty(0, CONTRACT, CREATOR, TOKEN, 10, None, 10).unwrap();
    assert_eq!(c.submit_solution(0, SOLVER, id), Err(BountyError::NotAccepted));
    assert_eq!(c.accept_bounty(11, SOLVER, id), Err(BountyError::Expired));
    assert_eq!(c.approve_submission(CONTRACT, SOLVER, id), Err(BountyError::NotCreator));
    assert_eq!(c.resolve_dispute(CONTRACT, SOLVER, id, 1), Err(BountyError::NotAdmin));
}
